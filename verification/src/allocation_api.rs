//! Requests for keyed allocations: what is refused before the journal is asked,
//! and what its answer comes to.

use vstd::prelude::*;

use crate::allocation::{AllocationReceipt, AllocationResult, AllocationState, JournalError};
use crate::api;
use crate::api::{refuse, refuse_owner, ApiError, ErrorView, Reply, Status};
use crate::create::CreatedSandbox;
use crate::ident;
use crate::ident::{uuid_from_str, uuid_to_string};

verus! {

/// What is said of a key that is no non-nil UUID.
pub open spec fn bad_allocation_key() -> ErrorView {
    ErrorView { code: 400, message: "allocation key must be a non-nil UUID"@ }
}

/// The key that a text denotes: any UUID but the nil one.
pub fn allocation_id(value: &str) -> (result: Result<u128, ApiError>)
    ensures
        is_allocation_key(result, ident::uuid_parse(value@)),
        forall|id: u128| id != 0 && value@ == #[trigger] ident::uuid_text(id) ==> result == Ok::<
            u128,
            ApiError,
        >(id),
{
    accepted_key(uuid_from_str(value))
}

/// Whether a result is what reading a key comes to, given the UUID that its text
/// was read as.
pub open spec fn is_allocation_key(result: Result<u128, ApiError>, read: Option<u128>) -> bool {
    match read {
        Some(id) if id != 0 => result == Ok::<u128, ApiError>(id),
        _ => result matches Err(error) && error@ == bad_allocation_key(),
    }
}

/// The key, given the UUID that its text was read as.
pub fn accepted_key(read: Option<u128>) -> (result: Result<u128, ApiError>)
    ensures
        is_allocation_key(result, read),
{
    match read {
        Some(id) => {
            if id != 0 {
                return Ok(id);
            }
        },
        None => {},
    }
    Err(ApiError::new(400, "allocation key must be a non-nil UUID"))
}

/// What is wrong with the owner that a request names, or nothing, given the UUID
/// that it was read as and the owner of the journal where it can be opened.
pub open spec fn owner_fault(read: Option<u128>, journal: Option<u128>) -> Option<ErrorView> {
    match read {
        None => Some(ErrorView { code: 400, message: "allocation owner must be a UUID"@ }),
        Some(owner) => match journal {
            None => Some(ErrorView { code: 500, message: "allocation journal unavailable"@ }),
            Some(journal_owner) => if journal_owner != owner {
                Some(
                    ErrorView {
                        code: 409,
                        message: "allocation belongs to a different durable state owner"@,
                    },
                )
            } else {
                None
            },
        },
    }
}

/// Admits a request that names the owner of this node's journal. The journal's
/// owner is given where the journal can be opened.
pub fn owned_allocation_journal(owner: &str, journal: Option<u128>) -> (result: Result<(), ApiError>)
    ensures
        match owner_fault(ident::uuid_parse(owner@), journal) {
            Some(fault) => result matches Err(error) && error@ == fault,
            None => result is Ok,
        },
{
    checked_owner(uuid_from_str(owner), journal)
}

/// Admits a request, given the UUID that the owner it names was read as.
pub fn checked_owner(read: Option<u128>, journal: Option<u128>) -> (result: Result<(), ApiError>)
    ensures
        match owner_fault(read, journal) {
            Some(fault) => result matches Err(error) && error@ == fault,
            None => result is Ok,
        },
{
    match read {
        None => Err(ApiError::new(400, "allocation owner must be a UUID")),
        Some(owner) => match journal {
            None => Err(ApiError::new(500, "allocation journal unavailable")),
            Some(journal_owner) => {
                if journal_owner != owner {
                    Err(
                        ApiError::new(409, "allocation belongs to a different durable state owner"),
                    )
                } else {
                    Ok(())
                }
            },
        },
    }
}

/// How a keyed request is refused before the journal is asked, or not at all:
/// first for its owner, then for its key.
pub open spec fn keyed_refusal(
    owner: Option<u128>,
    journal: Option<u128>,
    key: Option<u128>,
) -> Option<(Status, ErrorView)> {
    match owner_fault(owner, journal) {
        Some(fault) => Some((api::owner_status(fault.code), fault)),
        None => match key {
            Some(id) if id != 0 => None,
            _ => Some((Status::BadRequest, bad_allocation_key())),
        },
    }
}

/// Refuses a request whose owner cannot be read. This comes before the journal is
/// opened.
pub fn readable_owner<T>(owner: &str) -> (result: Result<(), Reply<T>>)
    ensures
        match ident::uuid_parse(owner@) {
            None => result matches Err(reply) && reply.refusal() == Some(
                (
                    Status::BadRequest,
                    ErrorView { code: 400, message: "allocation owner must be a UUID"@ },
                ),
            ),
            Some(_) => result is Ok,
        },
{
    match uuid_from_str(owner) {
        None => Err(refuse_owner(ApiError::new(400, "allocation owner must be a UUID"))),
        Some(_) => Ok(()),
    }
}

/// Admits a keyed request: it names the owner of this node's journal and a
/// non-nil key. A request for another owner neither claims, nor reads, nor
/// fences anything.
pub fn admit_keyed_request<T>(owner: &str, journal: Option<u128>, key: &str) -> (result: Result<
    u128,
    Reply<T>,
>)
    ensures
        match keyed_refusal(ident::uuid_parse(owner@), journal, ident::uuid_parse(key@)) {
            Some(refusal) => result matches Err(reply) && reply.refusal() == Some(refusal),
            None => result matches Ok(id) && ident::uuid_parse(key@) == Some(id) && id != 0,
        },
{
    if let Err(error) = owned_allocation_journal(owner, journal) {
        return Err(refuse_owner(error));
    }
    match allocation_id(key) {
        Ok(id) => Ok(id),
        Err(error) => Err(Reply::Refused(Status::BadRequest, error)),
    }
}

/// A request for another owner, or with an owner that cannot be read, is refused
/// whatever its key is.
pub proof fn law_foreign_owner_is_refused(
    owner: Option<u128>,
    journal: Option<u128>,
    key: Option<u128>,
)
    requires
        owner is None || owner != journal,
    ensures
        keyed_refusal(owner, journal, key) is Some,
{
}

/// The owner of this node's journal, as a reply gives it.
#[derive(Debug)]
pub struct SandboxAllocationOwner {
    pub version: u32,
    pub owner_id: String,
}

/// The reply to a request for the owner of this node's journal.
pub fn sandbox_allocation_owner_get(journal: Option<u128>) -> (reply: Reply<SandboxAllocationOwner>)
    ensures
        match journal {
            Some(owner) => reply matches Reply::Success(shown) && shown.version == 1
                && shown.owner_id@ == ident::uuid_text(owner),
            None => reply.refusal() == Some(
                (
                    Status::ServerError,
                    ErrorView { code: 500, message: "allocation owner unavailable"@ },
                ),
            ),
        },
{
    match journal {
        Some(owner) => Reply::Success(
            SandboxAllocationOwner { version: 1, owner_id: uuid_to_string(owner) },
        ),
        None => refuse(Status::ServerError, 500, "allocation owner unavailable"),
    }
}

/// The name of a state.
pub open spec fn state_name(state: AllocationState) -> Seq<char> {
    match state {
        AllocationState::Pending => "Pending"@,
        AllocationState::Settled => "Settled"@,
        AllocationState::Cancelled => "Cancelled"@,
        AllocationState::Interrupted => "Interrupted"@,
    }
}

fn name_of_state(state: AllocationState) -> (name: String)
    ensures
        name@ == state_name(state),
{
    match state {
        AllocationState::Pending => "Pending".to_owned(),
        AllocationState::Settled => "Settled".to_owned(),
        AllocationState::Cancelled => "Cancelled".to_owned(),
        AllocationState::Interrupted => "Interrupted".to_owned(),
    }
}

/// What is said of a key that is taken.
pub open spec fn already_claimed(id: u128, state: AllocationState) -> ErrorView {
    ErrorView {
        code: 409,
        message: "allocation "@ + ident::uuid_text(id) + " already claimed ("@ + state_name(state)
            + "); query its sandbox-allocation receipt"@,
    }
}

/// The reply to a keyed create, given what the journal made of it. No failure of
/// the journal is taken for a failed create: its outcome is to be queried by the
/// key. A failure that is no refusal of the journal, such as one of its store, is
/// given as none.
pub fn create_keyed_sandbox(
    result: Result<AllocationResult<Reply<CreatedSandbox>>, Option<JournalError>>,
) -> (reply: Reply<CreatedSandbox>)
    ensures
        match result {
            Ok(AllocationResult::Completed(answer)) => reply == answer,
            Ok(AllocationResult::Existing(receipt)) => reply.refusal() == Some(
                (Status::Conflict, already_claimed(receipt.allocation_id, receipt.state)),
            ),
            Err(Some(JournalError::Conflict)) => reply.refusal() == Some(
                (
                    Status::Conflict,
                    ErrorView { code: 409, message: JournalError::Conflict.text() },
                ),
            ),
            Err(_) => reply.refusal() == Some(
                (
                    Status::ServerError,
                    ErrorView {
                        code: 500,
                        message:
                            "allocation outcome unavailable; query the original allocation key"@,
                    },
                ),
            ),
        },
{
    match result {
        Ok(AllocationResult::Completed(answer)) => answer,
        Ok(AllocationResult::Existing(receipt)) => {
            let mut message = "allocation ".to_owned();
            message.append(uuid_to_string(receipt.allocation_id).as_str());
            message.append(" already claimed (");
            message.append(name_of_state(receipt.state).as_str());
            message.append("); query its sandbox-allocation receipt");
            Reply::Refused(Status::Conflict, ApiError { code: 409, message })
        },
        Err(error) => {
            if let Some(JournalError::Conflict) = error {
                let message = JournalError::Conflict.message();
                return Reply::Refused(Status::Conflict, ApiError { code: 409, message });
            }
            refuse(
                Status::ServerError,
                500,
                "allocation outcome unavailable; query the original allocation key",
            )
        },
    }
}

/// The reply to a request for a receipt.
pub fn sandbox_allocations_allocation_id_get(result: Result<Option<AllocationReceipt>, ()>) -> (reply:
    Reply<AllocationReceipt>)
    ensures
        match result {
            Ok(Some(receipt)) => reply == Reply::Success(receipt),
            Ok(None) => reply.refusal() == Some(
                (
                    Status::NotFound,
                    ErrorView { code: 404, message: "allocation receipt not found"@ },
                ),
            ),
            Err(_) => reply.refusal() == Some(
                (
                    Status::ServerError,
                    ErrorView { code: 500, message: "allocation receipt unavailable"@ },
                ),
            ),
        },
{
    match result {
        Ok(Some(receipt)) => Reply::Success(receipt),
        Ok(None) => refuse(Status::NotFound, 404, "allocation receipt not found"),
        Err(_) => refuse(Status::ServerError, 500, "allocation receipt unavailable"),
    }
}

/// The reply to a request to fence a key.
pub fn sandbox_allocations_allocation_id_delete(result: Result<AllocationReceipt, ()>) -> (reply:
    Reply<AllocationReceipt>)
    ensures
        match result {
            Ok(receipt) => reply == Reply::Success(receipt),
            Err(_) => reply.refusal() == Some(
                (
                    Status::ServerError,
                    ErrorView { code: 500, message: "allocation cancellation unavailable"@ },
                ),
            ),
        },
{
    match result {
        Ok(receipt) => Reply::Success(receipt),
        Err(_) => refuse(Status::ServerError, 500, "allocation cancellation unavailable"),
    }
}

} // verus!
