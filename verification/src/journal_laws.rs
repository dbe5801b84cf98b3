//! What holds of the operations of the allocation journal: how what they hand
//! back relates to what the store held, and how one call relates to another.

use vstd::prelude::*;

use crate::allocation;
use crate::allocation::{
    AllocationJournal, AllocationReceipt, AllocationResult, AllocationState, Cancellation, Claim,
    Claiming, JournalError, JournalIdentity, Opened, Record, Running, Stored, Unclaimed,
};
use crate::allocation_api;
use crate::allocation_laws::{Ledger, Step};
use crate::api::{ApiError, Reply};
use crate::create::CreatedSandbox;
use crate::ident;
use crate::ident::SandboxId;

verus! {

/// Whether two receipts are of the same request: they differ in their states at
/// most.
pub open spec fn same_request(a: AllocationReceipt, b: AllocationReceipt) -> bool {
    &&& a.version == b.version
    &&& a.owner_id == b.owner_id
    &&& a.allocation_id == b.allocation_id
    &&& a.sandbox_id == b.sandbox_id
    &&& a.request_digest is Some <==> b.request_digest is Some
    &&& a.request_digest is Some ==> (a.request_digest->0)@ == (b.request_digest->0)@
}

/// Whether a record is one that the journal of an owner writes under a key: a
/// cancellation that came first, or a request that was assigned a sandbox.
pub open spec fn well_formed(record: Record, owner_id: u128, id: u128) -> bool {
    let receipt = record.receipt;
    &&& receipt.version == 1
    &&& receipt.owner_id == owner_id
    &&& receipt.allocation_id == id
    &&& match (receipt.sandbox_id, receipt.request_digest) {
        (None, None) => receipt.state is Cancelled && receipt.cancel_requested,
        (Some(_), Some(digest)) => !(receipt.state is Cancelled) && sixty_four_digits(digest@),
        _ => false,
    }
}

/// Whether a text consists of 64 digits, of 0 to 9 and a to f.
pub open spec fn sixty_four_digits(text: Seq<char>) -> bool {
    &&& text.len() == 64
    &&& forall|i: int|
        0 <= i < 64 ==> ('0' <= #[trigger] text[i] <= '9' || 'a' <= text[i] <= 'f')
}

/// A key that has a record is never claimed again, whatever the record says and
/// whichever incarnation wrote it. A request with another digest conflicts, and
/// every other one is shown the record's own receipt: no create work runs.
pub proof fn law_taken_key_is_not_claimed_again(
    journal: AllocationJournal,
    owner_id: u128,
    id: u128,
    digest: String,
    request: Unclaimed,
    record: Record,
    sandbox_id: SandboxId,
    result: Result<Claim, JournalError>,
)
    requires
        call_ensures(AllocationJournal::owner_id, (&journal,), owner_id),
        call_ensures(AllocationJournal::execute, (&journal, id, digest), Ok(request)),
        call_ensures(
            AllocationJournal::claim_for,
            (&journal, request, Stored::Found(record), sandbox_id),
            result,
        ),
    ensures
        !(result matches Ok(Claim::Commit(_))),
        !well_formed(record, owner_id, id) ==> result is Err && !(result->Err_0 is Conflict),
        well_formed(record, owner_id, id) && record.receipt.request_digest is Some && (
        record.receipt.request_digest->0)@ != digest@ ==> result == Err::<Claim, JournalError>(
            JournalError::Conflict,
        ),
        well_formed(record, owner_id, id) && (record.receipt.request_digest is None || (
        record.receipt.request_digest->0)@ == digest@) ==> (result matches Ok(
            Claim::Existing(receipt),
        ) && same_request(receipt, record.receipt) && receipt.cancel_requested
            == record.receipt.cancel_requested),
{
}

/// The claim that draws a sandbox itself claims no taken key either.
pub proof fn law_taken_key_is_not_drawn_for(
    journal: AllocationJournal,
    request: Unclaimed,
    record: Record,
    result: Result<Claim, JournalError>,
)
    requires
        call_ensures(AllocationJournal::claim, (&journal, request, Stored::Found(record)), result),
    ensures
        !(result matches Ok(Claim::Commit(_))),
{
}

/// A key without a record is claimed, by whichever request comes: what has to be
/// written first is a pending record of exactly this request under this key, and
/// the operation that may run then has the key and the sandbox of that record.
pub proof fn law_free_key_is_claimed(
    journal: AllocationJournal,
    owner_id: u128,
    id: u128,
    digest: String,
    request: Unclaimed,
    sandbox_id: SandboxId,
    result: Result<Claim, JournalError>,
    claiming: Claiming,
    written: &Record,
    running: Running,
    run_key: u128,
    run_sandbox: SandboxId,
)
    requires
        call_ensures(AllocationJournal::owner_id, (&journal,), owner_id),
        call_ensures(AllocationJournal::execute, (&journal, id, digest), Ok(request)),
        call_ensures(
            AllocationJournal::claim_for,
            (&journal, request, Stored::Absent, sandbox_id),
            result,
        ),
        result matches Ok(Claim::Commit(made)) ==> made == claiming,
        call_ensures(Claiming::to_write, (&claiming,), written),
        call_ensures(Claiming::committed, (claiming,), running),
        call_ensures(Running::allocation, (&running,), run_key),
        call_ensures(Running::sandbox, (&running,), run_sandbox),
    ensures
        result == Ok::<Claim, JournalError>(Claim::Commit(claiming)),
        written.receipt.version == 1,
        written.receipt.owner_id == owner_id,
        written.receipt.allocation_id == id,
        written.receipt.sandbox_id == Some(sandbox_id),
        written.receipt.request_digest matches Some(kept) && kept@ == digest@,
        written.receipt.state is Pending,
        !written.receipt.cancel_requested,
        well_formed(*written, owner_id, id),
        run_key == id,
        run_sandbox == sandbox_id,
{
    assert(written@.receipt.request_digest is Some);
}

/// A key is claimed only where the store holds nothing under it.
pub proof fn law_claim_means_nothing_was_stored(
    journal: AllocationJournal,
    request: Unclaimed,
    stored: Stored<Record>,
    sandbox_id: SandboxId,
    result: Result<Claim, JournalError>,
)
    requires
        call_ensures(
            AllocationJournal::claim_for,
            (&journal, request, stored, sandbox_id),
            result,
        ),
    ensures
        (result matches Ok(Claim::Commit(_))) <==> stored is Absent,
        stored is Malformed ==> result == Err::<Claim, JournalError>(JournalError::MalformedRecord),
{
}

/// The claim of a request runs its operation exactly where a step of the ledger
/// lets it start, so what holds of the ledger's histories holds of the journal's
/// own claims.
pub proof fn law_claims_are_steps_of_the_ledger(
    ledger: Ledger,
    journal: AllocationJournal,
    id: u128,
    digest: String,
    request: Unclaimed,
    stored: Stored<Record>,
    sandbox_id: SandboxId,
    result: Result<Claim, JournalError>,
)
    requires
        ledger.stored(id) == allocation::stored_view(stored),
        !(stored is Malformed),
        call_ensures(AllocationJournal::execute, (&journal, id, digest), Ok(request)),
        call_ensures(
            AllocationJournal::claim_for,
            (&journal, request, stored, sandbox_id),
            result,
        ),
    ensures
        ({
            let step = Step::Claim { journal: journal@, id, digest: digest@, sandbox_id };
            &&& (result matches Ok(Claim::Commit(_))) <==> ledger.starts(step)
            &&& ledger.starts(step) <==> !ledger.store.contains_key(id)
            &&& result matches Ok(Claim::Commit(claiming)) ==> ledger.after(step).stored(id)
                == Some(claiming.record())
            &&& !(result matches Ok(Claim::Commit(_))) ==> ledger.after(step) == ledger
        }),
{
}

/// A cancellation writes exactly what its step of the ledger does.
pub proof fn law_cancellations_are_steps_of_the_ledger(
    ledger: Ledger,
    journal: AllocationJournal,
    id: u128,
    stored: Stored<Record>,
    result: Result<Cancellation, JournalError>,
)
    requires
        ledger.stored(id) == allocation::stored_view(stored),
        !(stored is Malformed),
        call_ensures(AllocationJournal::cancel, (&journal, id, stored), result),
    ensures
        ({
            let after = ledger.after(Step::Cancel { journal: journal@, id });
            &&& result matches Ok(cancellation) ==> after.stored(id) == Some(cancellation.record@)
            &&& result is Err ==> after == ledger
        }),
{
}

/// The end of a running operation writes exactly what its step of the ledger does.
pub proof fn law_settlements_are_steps_of_the_ledger(
    ledger: Ledger,
    journal: AllocationJournal,
    running: Running,
    id: u128,
    stored: Stored<Record>,
    completed: bool,
    result: Result<Record, JournalError>,
)
    requires
        call_ensures(Running::allocation, (&running,), id),
        ledger.stored(id) == allocation::stored_view(stored),
        ledger.running.contains(id),
        !(stored is Malformed),
        call_ensures(AllocationJournal::settle, (&journal, &running, stored, completed), result),
    ensures
        ({
            let after = ledger.after(Step::Settle { journal: journal@, id, completed });
            &&& result matches Ok(record) ==> after.stored(id) == Some(record@)
                && !after.running.contains(id)
            &&& result is Err ==> after == ledger
        }),
{
}

/// A request comes to a claim exactly if its digest consists of 64 digits.
pub proof fn law_only_digests_come_to_a_claim(
    journal: AllocationJournal,
    id: u128,
    digest: String,
    result: Result<Unclaimed, JournalError>,
)
    requires
        call_ensures(AllocationJournal::execute, (&journal, id, digest), result),
    ensures
        result is Ok <==> sixty_four_digits(digest@),
        result is Err ==> result == Err::<Unclaimed, JournalError>(
            JournalError::InvalidRequestDigest,
        ),
{
}

/// A record is read back as it was stored, and exactly if the journal of its
/// owner writes such records under that key. What is absent is absent, and bytes
/// that are no record are an error.
pub proof fn law_reading_takes_only_well_formed_records(
    journal: AllocationJournal,
    owner_id: u128,
    id: u128,
    stored: Stored<Record>,
    result: Result<Option<Record>, JournalError>,
)
    requires
        call_ensures(AllocationJournal::owner_id, (&journal,), owner_id),
        call_ensures(AllocationJournal::read, (&journal, id, stored), result),
    ensures
        match stored {
            Stored::Absent => result == Ok::<Option<Record>, JournalError>(None),
            Stored::Malformed => result == Err::<Option<Record>, JournalError>(
                JournalError::MalformedRecord,
            ),
            Stored::Found(record) => {
                &&& well_formed(record, owner_id, id) <==> result == Ok::<
                    Option<Record>,
                    JournalError,
                >(Some(record))
                &&& !well_formed(record, owner_id, id) <==> result is Err
                &&& record.receipt.owner_id != owner_id || record.receipt.allocation_id != id
                    || record.receipt.version != 1 <==> result == Err::<
                    Option<Record>,
                    JournalError,
                >(JournalError::InvalidIdentity)
                &&& result == Err::<Option<Record>, JournalError>(JournalError::InvalidDigest) ==> (
                record.receipt.request_digest matches Some(digest) && !sixty_four_digits(digest@))
                &&& result matches Err(error) ==> error is InvalidIdentity || error is InvalidDigest
                    || error is InvalidState
                &&& (record.receipt.sandbox_id is Some) != (record.receipt.request_digest is Some)
                    && result is Err ==> !(result->Err_0 is InvalidDigest)
            },
        },
{
}

/// An incarnation shows the records of its own as they are. Of another
/// incarnation's records it shows those that were assigned a sandbox as
/// interrupted, and nothing of a receipt changes but that state.
pub proof fn law_only_another_incarnation_interrupts(
    identity: Stored<JournalIdentity>,
    fresh_owner: u128,
    epoch: u128,
    opened: Opened,
    record: Record,
    receipt: AllocationReceipt,
)
    requires
        call_ensures(AllocationJournal::open_as, (identity, fresh_owner, epoch), Ok(opened)),
        call_ensures(AllocationJournal::receipt, (&opened.journal, record), receipt),
    ensures
        same_request(receipt, record.receipt),
        receipt.cancel_requested == record.receipt.cancel_requested,
        record.epoch == epoch ==> receipt.state == record.receipt.state,
        record.receipt.sandbox_id is None ==> receipt.state == record.receipt.state,
        record.epoch != epoch && record.receipt.sandbox_id is Some ==> receipt.state is Interrupted,
{
    assert(receipt@.request_digest == record@.receipt.request_digest);
}

/// A reader, a cancellation and a replay of the same record are shown one and the
/// same request; the reader and the replay are shown it in the same state.
pub proof fn law_readers_and_replays_agree(
    journal: AllocationJournal,
    id: u128,
    digest: String,
    request: Unclaimed,
    stored: Stored<Record>,
    sandbox_id: SandboxId,
    read: Result<Option<AllocationReceipt>, JournalError>,
    claimed: AllocationReceipt,
    cancelled: Result<Cancellation, JournalError>,
)
    requires
        call_ensures(AllocationJournal::execute, (&journal, id, digest), Ok(request)),
        call_ensures(AllocationJournal::get, (&journal, id, stored), read),
        call_ensures(AllocationJournal::cancel, (&journal, id, stored), cancelled),
        call_ensures(
            AllocationJournal::claim_for,
            (&journal, request, stored, sandbox_id),
            Ok(Claim::Existing(claimed)),
        ),
    ensures
        read matches Ok(Some(receipt)) && {
            &&& same_request(receipt, claimed)
            &&& receipt.state == claimed.state
            &&& receipt.cancel_requested == claimed.cancel_requested
        },
        cancelled matches Ok(cancellation) && {
            &&& same_request(cancellation.receipt, claimed)
            &&& cancellation.receipt.state == claimed.state
            &&& cancellation.receipt.cancel_requested
        },
{
    let receipt = (read->Ok_0)->0;
    assert(receipt@ == claimed@);
    assert(receipt@.request_digest == claimed@.request_digest);
    assert(cancelled->Ok_0.receipt@.request_digest == claimed@.request_digest);
}

/// A reader is shown a receipt exactly where a well-formed record is stored, and
/// none exactly where nothing is.
pub proof fn law_receipts_are_of_stored_records(
    journal: AllocationJournal,
    owner_id: u128,
    id: u128,
    stored: Stored<Record>,
    result: Result<Option<AllocationReceipt>, JournalError>,
)
    requires
        call_ensures(AllocationJournal::owner_id, (&journal,), owner_id),
        call_ensures(AllocationJournal::get, (&journal, id, stored), result),
    ensures
        result == Ok::<Option<AllocationReceipt>, JournalError>(None) <==> stored is Absent,
        (result matches Ok(Some(_))) <==> (stored matches Stored::Found(record) && well_formed(
            record,
            owner_id,
            id,
        )),
        stored matches Stored::Found(record) ==> (result matches Ok(Some(receipt))
            ==> same_request(receipt, record.receipt) && receipt.cancel_requested
            == record.receipt.cancel_requested),
{
    if let Stored::Found(record) = stored {
        if let Ok(Some(receipt)) = result {
            assert(receipt@.request_digest == record@.receipt.request_digest);
        }
    }
}

/// Cancelling a request that came first records the wish and leaves its request,
/// its state and its incarnation as they are; cancelling a key that has no record
/// leaves one without a sandbox that no request can claim any more.
pub proof fn law_cancellation_is_recorded(
    journal: AllocationJournal,
    owner_id: u128,
    id: u128,
    stored: Stored<Record>,
    result: Result<Cancellation, JournalError>,
)
    requires
        call_ensures(AllocationJournal::owner_id, (&journal,), owner_id),
        call_ensures(AllocationJournal::cancel, (&journal, id, stored), result),
    ensures
        result is Ok <==> (stored is Absent || (stored matches Stored::Found(record)
            && well_formed(record, owner_id, id))),
        result matches Ok(cancellation) ==> {
            &&& cancellation.record.receipt.cancel_requested
            &&& cancellation.receipt.cancel_requested
            &&& well_formed(cancellation.record, owner_id, id)
            &&& same_request(cancellation.receipt, cancellation.record.receipt)
            &&& stored matches Stored::Found(record) ==> {
                &&& same_request(cancellation.record.receipt, record.receipt)
                &&& cancellation.record.receipt.state == record.receipt.state
                &&& cancellation.record.epoch == record.epoch
            }
            &&& stored is Absent ==> {
                &&& cancellation.record.receipt.sandbox_id is None
                &&& cancellation.record.receipt.state is Cancelled
                &&& cancellation.receipt.state is Cancelled
            }
        },
{
    if let Ok(cancellation) = result {
        assert(cancellation.receipt@.request_digest == cancellation.record@.receipt.request_digest);
        if let Stored::Found(record) = stored {
            assert(cancellation.record@.receipt.request_digest == record@.receipt.request_digest);
        } else {
            assert(cancellation.record@.receipt.request_digest is None);
        }
    }
}

/// A key that was cancelled before any claim is claimed by no request, in this
/// incarnation or another one: every request is shown the cancellation.
pub proof fn law_cancelled_key_is_not_claimed(
    canceller: AllocationJournal,
    claimer: AllocationJournal,
    owner_id: u128,
    id: u128,
    cancellation: Cancellation,
    digest: String,
    request: Unclaimed,
    sandbox_id: SandboxId,
    result: Result<Claim, JournalError>,
)
    requires
        call_ensures(AllocationJournal::owner_id, (&canceller,), owner_id),
        call_ensures(AllocationJournal::owner_id, (&claimer,), owner_id),
        call_ensures(AllocationJournal::cancel, (&canceller, id, Stored::Absent), Ok(cancellation)),
        call_ensures(AllocationJournal::execute, (&claimer, id, digest), Ok(request)),
        call_ensures(
            AllocationJournal::claim_for,
            (&claimer, request, Stored::Found(cancellation.record), sandbox_id),
            result,
        ),
    ensures
        result matches Ok(Claim::Existing(receipt)) && receipt.state is Cancelled
            && receipt.sandbox_id is None && receipt.cancel_requested,
{
    assert(cancellation.record@.receipt.request_digest is None);
}

/// The end of an operation settles its record if the operation completed, and
/// interrupts it otherwise. Nothing else of the record changes, a wish to cancel
/// it included, and a record that is gone is an error.
pub proof fn law_settlement_changes_the_state_only(
    journal: AllocationJournal,
    owner_id: u128,
    running: Running,
    id: u128,
    stored: Stored<Record>,
    completed: bool,
    result: Result<Record, JournalError>,
)
    requires
        call_ensures(AllocationJournal::owner_id, (&journal,), owner_id),
        call_ensures(Running::allocation, (&running,), id),
        call_ensures(AllocationJournal::settle, (&journal, &running, stored, completed), result),
    ensures
        stored is Absent ==> result == Err::<Record, JournalError>(JournalError::Disappeared),
        result is Ok <==> (stored matches Stored::Found(record) && well_formed(
            record,
            owner_id,
            id,
        )),
        stored matches Stored::Found(record) ==> (result matches Ok(updated) ==> {
            &&& same_request(updated.receipt, record.receipt)
            &&& updated.receipt.cancel_requested == record.receipt.cancel_requested
            &&& updated.epoch == record.epoch
            &&& completed ==> updated.receipt.state is Settled
            &&& !completed ==> updated.receipt.state is Interrupted
        }),
{
    if let Stored::Found(record) = stored {
        if let Ok(updated) = result {
            assert(updated@.receipt.request_digest == record@.receipt.request_digest);
        }
    }
}

/// A request that completed and was cancelled afterwards still holds its key: a
/// delayed replay of it is shown the settled receipt, and starts nothing.
pub proof fn law_replay_after_settlement_and_cancellation_starts_nothing(
    journal: AllocationJournal,
    owner_id: u128,
    id: u128,
    running: Running,
    claimed: Record,
    settled: Record,
    cancellation: Cancellation,
    digest: String,
    request: Unclaimed,
    sandbox_id: SandboxId,
    result: Result<Claim, JournalError>,
)
    requires
        call_ensures(AllocationJournal::owner_id, (&journal,), owner_id),
        call_ensures(Running::allocation, (&running,), id),
        call_ensures(
            AllocationJournal::settle,
            (&journal, &running, Stored::Found(claimed), true),
            Ok(settled),
        ),
        call_ensures(
            AllocationJournal::cancel,
            (&journal, id, Stored::Found(settled)),
            Ok(cancellation),
        ),
        call_ensures(AllocationJournal::execute, (&journal, id, digest), Ok(request)),
        claimed.receipt.request_digest matches Some(kept) && kept@ == digest@,
        call_ensures(
            AllocationJournal::claim_for,
            (&journal, request, Stored::Found(cancellation.record), sandbox_id),
            result,
        ),
    ensures
        result matches Ok(Claim::Existing(receipt)) && {
            &&& receipt.sandbox_id == claimed.receipt.sandbox_id
            &&& receipt.cancel_requested
            &&& receipt.state == cancellation.receipt.state
        },
        cancellation.record.receipt.state is Settled,
{
    assert(settled@.receipt.request_digest == claimed@.receipt.request_digest);
    assert(cancellation.record@.receipt.request_digest == settled@.receipt.request_digest);
}

/// Opening a store again keeps its owner: the identity that the first opening has
/// stored is accepted, and nothing is to be stored any more. An identity of
/// another version, a nil owner and bytes that are no identity are refused.
pub proof fn law_owner_survives_reopening(
    stored: Stored<JournalIdentity>,
    fresh_owner: u128,
    epoch: u128,
    result: Result<Opened, JournalError>,
    owner_id: u128,
    other_owner: u128,
    other_epoch: u128,
    again: Result<Opened, JournalError>,
    owner_again: u128,
)
    requires
        call_ensures(AllocationJournal::open_as, (stored, fresh_owner, epoch), result),
        result matches Ok(opened) ==> call_ensures(
            AllocationJournal::owner_id,
            (&opened.journal,),
            owner_id,
        ),
        result matches Ok(opened) ==> (opened.to_store matches Some(identity) ==> call_ensures(
            AllocationJournal::open_as,
            (Stored::Found(identity), other_owner, other_epoch),
            again,
        )),
        again matches Ok(opened) ==> call_ensures(
            AllocationJournal::owner_id,
            (&opened.journal,),
            owner_again,
        ),
    ensures
        match stored {
            Stored::Malformed => result == Err::<Opened, JournalError>(
                JournalError::MalformedIdentity,
            ),
            Stored::Found(identity) => if identity.version == 1 && identity.owner_id != 0 {
                result matches Ok(opened) && owner_id == identity.owner_id
                    && opened.to_store is None
            } else {
                result == Err::<Opened, JournalError>(JournalError::UnsupportedIdentity)
            },
            Stored::Absent => if fresh_owner != 0 {
                &&& result matches Ok(opened) && owner_id == fresh_owner
                    && opened.to_store == Some(JournalIdentity { version: 1, owner_id })
                &&& again matches Ok(opened) && owner_again == owner_id && opened.to_store is None
            } else {
                result is Err
            },
        },
{
}

/// Records of different keys are stored under different bytes, and none where the
/// journal keeps its identity.
pub proof fn law_store_keys_are_distinct(a: u128, b: u128, at_a: Vec<u8>, at_b: Vec<u8>, own: Vec<u8>)
    requires
        call_ensures(AllocationJournal::key, (a,), at_a),
        call_ensures(AllocationJournal::key, (b,), at_b),
        call_ensures(AllocationJournal::identity_key, (), own),
    ensures
        at_a@ == at_b@ <==> a == b,
        at_a@ != own@,
        at_a@ == vstd::utf8::encode_utf8("allocation/"@ + ident::uuid_text(a)),
        own@ == vstd::utf8::encode_utf8("format"@),
{
    crate::allocation_laws::law_keys_are_stored_apart(a, b);
}

/// Only an operation that returned has an outcome, which is its own; one that
/// broke off is an error.
pub proof fn law_outcome_is_that_of_the_operation<T>(
    completed: Option<T>,
    result: Result<AllocationResult<T>, JournalError>,
)
    requires
        call_ensures(AllocationJournal::outcome::<T>, (completed,), result),
    ensures
        completed matches Some(value) ==> result == Ok::<AllocationResult<T>, JournalError>(
            AllocationResult::Completed(value),
        ),
        completed is None ==> result == Err::<AllocationResult<T>, JournalError>(
            JournalError::Interrupted,
        ),
{
}

/// A keyed create is answered as its operation was, and as a conflict where the
/// key is taken. Nothing else of the journal is taken for the outcome of a create:
/// it is a server error that refers to the key.
pub proof fn law_keyed_create_answers_once(
    result: Result<AllocationResult<Reply<CreatedSandbox>>, Option<JournalError>>,
    reply: Reply<CreatedSandbox>,
)
    requires
        call_ensures(allocation_api::create_keyed_sandbox, (result,), reply),
    ensures
        match result {
            Ok(AllocationResult::Completed(answer)) => reply == answer,
            Ok(AllocationResult::Existing(receipt)) => reply matches Reply::Refused(status, error)
                && status is Conflict && error.code == 409 && error.message@ == "allocation "@
                + ident::uuid_text(receipt.allocation_id) + " already claimed ("@ + (
            match receipt.state {
                AllocationState::Pending => "Pending"@,
                AllocationState::Settled => "Settled"@,
                AllocationState::Cancelled => "Cancelled"@,
                AllocationState::Interrupted => "Interrupted"@,
            }) + "); query its sandbox-allocation receipt"@,
            Err(Some(JournalError::Conflict)) => reply matches Reply::Refused(status, error)
                && status is Conflict && error.code == 409 && error.message@
                == "allocation key was already used with a different request"@,
            Err(_) => reply matches Reply::Refused(status, error) && status is ServerError
                && error.code == 500 && error.message@
                == "allocation outcome unavailable; query the original allocation key"@,
        },
{
}

/// A keyed request gets to the journal exactly if it names the journal's own owner
/// and a key other than nil; then its key is the one that it names. The owner
/// comes first: 400 for one that is no UUID, 500 without a journal, 409 for
/// another owner, and 400 for the key.
pub proof fn law_only_the_owner_reaches_its_journal<T>(
    owner: &str,
    journal: Option<u128>,
    key: &str,
    result: Result<u128, Reply<T>>,
)
    requires
        call_ensures(allocation_api::admit_keyed_request::<T>, (owner, journal, key), result),
    ensures
        ({
            let named = ident::uuid_parse(owner@);
            let read = ident::uuid_parse(key@);
            &&& result is Ok <==> named is Some && named == journal && read is Some && read
                != Some(0u128)
            &&& result matches Ok(id) ==> read == Some(id)
            &&& result matches Err(reply) ==> (reply matches Reply::Refused(status, error) && if named
                is None {
                status is BadRequest && error.code == 400 && error.message@
                    == "allocation owner must be a UUID"@
            } else if journal is None {
                status is ServerError && error.code == 500 && error.message@
                    == "allocation journal unavailable"@
            } else if named != journal {
                status is Conflict && error.code == 409 && error.message@
                    == "allocation belongs to a different durable state owner"@
            } else {
                status is BadRequest && error.code == 400 && error.message@
                    == "allocation key must be a non-nil UUID"@
            })
        }),
{
}

/// Whoever may not reach the journal is refused alike by each of the checks, with
/// and without the key.
pub proof fn law_owner_checks_agree<T>(
    owner: &str,
    journal: Option<u128>,
    key: &str,
    whole: Result<u128, Reply<T>>,
    checked: Result<(), ApiError>,
    readable: Result<(), Reply<T>>,
    named: Result<u128, ApiError>,
)
    requires
        call_ensures(allocation_api::admit_keyed_request::<T>, (owner, journal, key), whole),
        call_ensures(allocation_api::owned_allocation_journal, (owner, journal), checked),
        call_ensures(allocation_api::readable_owner::<T>, (owner,), readable),
        call_ensures(allocation_api::allocation_id, (key,), named),
    ensures
        whole is Ok <==> checked is Ok && named is Ok,
        readable is Err ==> checked is Err,
        readable is Ok <==> ident::uuid_parse(owner@) is Some,
        checked is Ok <==> ident::uuid_parse(owner@) is Some && ident::uuid_parse(owner@)
            == journal,
        named is Ok <==> ident::uuid_parse(key@) is Some && ident::uuid_parse(key@) != Some(0u128),
        checked matches Err(error) ==> (whole matches Err(Reply::Refused(_, told)) && told.code
            == error.code && told.message@ == error.message@),
        readable matches Err(Reply::Refused(status, error)) ==> status is BadRequest && error.code
            == 400,
        readable is Err ==> readable->Err_0 is Refused,
        named matches Err(error) ==> error.code == 400,
        named matches Ok(id) ==> ident::uuid_parse(key@) == Some(id),
{
}

/// The receipt that a reader or a cancellation is answered with is the journal's.
pub proof fn law_receipts_are_answered_unchanged(
    read: Result<Option<AllocationReceipt>, ()>,
    read_reply: Reply<AllocationReceipt>,
    cancelled: Result<AllocationReceipt, ()>,
    cancel_reply: Reply<AllocationReceipt>,
)
    requires
        call_ensures(
            allocation_api::sandbox_allocations_allocation_id_get,
            (read,),
            read_reply,
        ),
        call_ensures(
            allocation_api::sandbox_allocations_allocation_id_delete,
            (cancelled,),
            cancel_reply,
        ),
    ensures
        match read {
            Ok(Some(receipt)) => read_reply == Reply::Success(receipt),
            Ok(None) => read_reply matches Reply::Refused(status, error) && status is NotFound
                && error.code == 404 && error.message@ == "allocation receipt not found"@,
            Err(()) => read_reply matches Reply::Refused(status, error) && status is ServerError
                && error.code == 500 && error.message@ == "allocation receipt unavailable"@,
        },
        match cancelled {
            Ok(receipt) => cancel_reply == Reply::Success(receipt),
            Err(()) => cancel_reply matches Reply::Refused(status, error) && status is ServerError
                && error.code == 500 && error.message@ == "allocation cancellation unavailable"@,
        },
{
}

/// The owner that a reply gives of this node is the one that keyed requests have
/// to name.
pub proof fn law_announced_owner_is_accepted<T>(
    journal: u128,
    reply: Reply<allocation_api::SandboxAllocationOwner>,
    owner: &str,
    key: &str,
    result: Result<u128, Reply<T>>,
    checked: Result<u128, ApiError>,
    parsed: Option<SandboxId>,
)
    requires
        call_ensures(allocation_api::sandbox_allocation_owner_get, (Some(journal),), reply),
        reply matches Reply::Success(shown) ==> owner@ == shown.owner_id@,
        call_ensures(SandboxId::parse_str, (owner,), parsed),
        call_ensures(allocation_api::allocation_id, (key,), checked),
        call_ensures(allocation_api::admit_keyed_request::<T>, (owner, Some(journal), key), result),
    ensures
        reply matches Reply::Success(shown) && shown.version == 1,
        result is Ok <==> checked is Ok,
{
    assert(owner@ == SandboxId { bits: journal }.text());
}

/// Whoever asks for the owner of a node without a journal is told of a server
/// error.
pub proof fn law_missing_owner_is_a_server_error(
    reply: Reply<allocation_api::SandboxAllocationOwner>,
)
    requires
        call_ensures(allocation_api::sandbox_allocation_owner_get, (None,), reply),
    ensures
        reply matches Reply::Refused(status, error) && status is ServerError && error.code == 500
            && error.message@ == "allocation owner unavailable"@,
{
}

/// The claim that draws a sandbox comes to what a claim for a given one does: the
/// same errors, the same receipts, and a record of the request for the sandbox
/// that was drawn.
pub proof fn law_drawn_claims_are_claims(
    journal: AllocationJournal,
    id: u128,
    digest: String,
    request: Unclaimed,
    stored: Stored<Record>,
    sandbox_id: SandboxId,
    drawn: Result<Claim, JournalError>,
    given: Result<Claim, JournalError>,
    claiming: Claiming,
    written: &Record,
    running: Running,
    run_sandbox: SandboxId,
)
    requires
        call_ensures(AllocationJournal::execute, (&journal, id, digest), Ok(request)),
        call_ensures(AllocationJournal::claim, (&journal, request, stored), drawn),
        call_ensures(
            AllocationJournal::claim_for,
            (&journal, request, stored, sandbox_id),
            given,
        ),
        drawn matches Ok(Claim::Commit(made)) ==> made == claiming,
        call_ensures(Claiming::to_write, (&claiming,), written),
        call_ensures(Claiming::committed, (claiming,), running),
        call_ensures(Running::sandbox, (&running,), run_sandbox),
    ensures
        (drawn matches Ok(Claim::Commit(_))) <==> (given matches Ok(Claim::Commit(_))),
        drawn is Err <==> given is Err,
        drawn is Err ==> drawn->Err_0 == given->Err_0,
        drawn matches Ok(Claim::Existing(receipt)) ==> (given matches Ok(Claim::Existing(other))
            && same_request(receipt, other) && receipt.state == other.state
            && receipt.cancel_requested == other.cancel_requested),
        drawn matches Ok(Claim::Commit(_)) ==> {
            &&& ident::is_v7(run_sandbox.bits)
            &&& written.receipt.sandbox_id == Some(run_sandbox)
            &&& written.receipt.allocation_id == id
            &&& written.receipt.request_digest matches Some(kept) && kept@ == digest@
            &&& written.receipt.state is Pending
            &&& !written.receipt.cancel_requested
        },
{
    if let Ok(Claim::Existing(receipt)) = drawn {
        if let Ok(Claim::Existing(other)) = given {
            assert(receipt@ == other@);
            assert(receipt@.request_digest == other@.request_digest);
        }
    }
    if let Ok(Claim::Commit(_)) = drawn {
        assert(written@.receipt.request_digest is Some);
    }
}

/// A request that was claimed, and whose operation has not ended, is shown as
/// pending by the incarnation that claimed it, and as interrupted by any other;
/// the sandbox that it was claimed for is shown by both.
pub proof fn law_claims_are_shown_to_readers(
    identity: Stored<JournalIdentity>,
    fresh_owner: u128,
    epoch: u128,
    opened: Opened,
    other_epoch: u128,
    reopened: Opened,
    id: u128,
    digest: String,
    request: Unclaimed,
    sandbox_id: SandboxId,
    claiming: Claiming,
    written: Record,
    here: Result<Option<AllocationReceipt>, JournalError>,
    there: Result<Option<AllocationReceipt>, JournalError>,
)
    requires
        epoch != other_epoch,
        call_ensures(AllocationJournal::open_as, (identity, fresh_owner, epoch), Ok(opened)),
        call_ensures(AllocationJournal::open_as, (identity, fresh_owner, other_epoch), Ok(reopened)),
        call_ensures(AllocationJournal::execute, (&opened.journal, id, digest), Ok(request)),
        call_ensures(
            AllocationJournal::claim_for,
            (&opened.journal, request, Stored::Absent, sandbox_id),
            Ok(Claim::Commit(claiming)),
        ),
        call_ensures(Claiming::to_write, (&claiming,), &written),
        call_ensures(
            AllocationJournal::get,
            (&opened.journal, id, Stored::Found(written)),
            here,
        ),
        call_ensures(
            AllocationJournal::get,
            (&reopened.journal, id, Stored::Found(written)),
            there,
        ),
    ensures
        here matches Ok(Some(receipt)) && receipt.state is Pending && receipt.sandbox_id == Some(
            sandbox_id,
        ) && !receipt.cancel_requested,
        there matches Ok(Some(receipt)) && receipt.state is Interrupted && receipt.sandbox_id
            == Some(sandbox_id) && !receipt.cancel_requested,
{
    assert(written@.receipt.request_digest is Some);
}

/// A store without an identity gets a new owner of version 7, which is to be
/// stored; a store with one keeps its owner. Every opening is an incarnation of
/// its own, of version 7.
pub proof fn law_opening_draws_an_incarnation(
    stored: Stored<JournalIdentity>,
    result: Result<Opened, JournalError>,
    owner_id: u128,
)
    requires
        call_ensures(AllocationJournal::open, (stored,), result),
        result matches Ok(opened) ==> call_ensures(
            AllocationJournal::owner_id,
            (&opened.journal,),
            owner_id,
        ),
    ensures
        stored is Absent ==> (result matches Ok(opened) && ident::is_v7(owner_id) && owner_id != 0
            && opened.to_store == Some(JournalIdentity { version: 1, owner_id })),
        stored matches Stored::Found(identity) ==> (result is Ok <==> identity.version == 1
            && identity.owner_id != 0),
        stored matches Stored::Found(identity) ==> (result matches Ok(opened) ==> owner_id
            == identity.owner_id && opened.to_store is None),
        stored is Malformed ==> result == Err::<Opened, JournalError>(
            JournalError::MalformedIdentity,
        ),
        result matches Ok(opened) ==> ident::is_v7(opened.journal@.epoch),
{
}

/// Errors of the journal are told apart by their messages.
pub proof fn law_journal_errors_are_told(error: JournalError, text: String)
    requires
        call_ensures(JournalError::message, (error,), text),
    ensures
        text@ == (match error {
            JournalError::MalformedIdentity => "decode allocation journal identity"@,
            JournalError::MalformedRecord => "decode allocation record"@,
            JournalError::UnsupportedIdentity => "unsupported allocation journal identity/version"@,
            JournalError::InvalidIdentity => "invalid allocation identity/version"@,
            JournalError::InvalidDigest => "invalid allocation digest"@,
            JournalError::InvalidState => "invalid allocation state"@,
            JournalError::InvalidRequestDigest => "invalid allocation request digest"@,
            JournalError::Conflict => "allocation key was already used with a different request"@,
            JournalError::Disappeared => "allocation record disappeared"@,
            JournalError::Interrupted => "allocation operation interrupted"@,
        }),
{
}

/// A key that was read is accepted unless it is nil, and an owner that was read
/// exactly if it is the journal's.
pub proof fn law_read_keys_and_owners_are_checked(
    read: Option<u128>,
    journal: Option<u128>,
    key: Result<u128, ApiError>,
    owner: Result<(), ApiError>,
)
    requires
        call_ensures(allocation_api::accepted_key, (read,), key),
        call_ensures(allocation_api::checked_owner, (read, journal), owner),
    ensures
        key is Ok <==> read is Some && read != Some(0u128),
        key matches Ok(id) ==> read == Some(id),
        key matches Err(error) ==> error.code == 400 && error.message@
            == "allocation key must be a non-nil UUID"@,
        owner is Ok <==> read is Some && read == journal,
        owner matches Err(error) ==> {
            &&& read is None <==> error.code == 400
            &&& read is Some && journal is None <==> error.code == 500
            &&& read is Some && journal is Some <==> error.code == 409
        },
{
}

/// Every operation reads the store alike: what one cannot read no other can, and
/// each says so by the same error.
pub proof fn law_operations_read_alike(
    journal: AllocationJournal,
    id: u128,
    digest: String,
    request: Unclaimed,
    running: Running,
    stored: Stored<Record>,
    sandbox_id: SandboxId,
    completed: bool,
    read: Result<Option<Record>, JournalError>,
    got: Result<Option<AllocationReceipt>, JournalError>,
    cancelled: Result<Cancellation, JournalError>,
    claimed: Result<Claim, JournalError>,
    settled: Result<Record, JournalError>,
)
    requires
        call_ensures(AllocationJournal::execute, (&journal, id, digest), Ok(request)),
        call_ensures(Running::allocation, (&running,), id),
        call_ensures(AllocationJournal::read, (&journal, id, stored), read),
        call_ensures(AllocationJournal::get, (&journal, id, stored), got),
        call_ensures(AllocationJournal::cancel, (&journal, id, stored), cancelled),
        call_ensures(
            AllocationJournal::claim_for,
            (&journal, request, stored, sandbox_id),
            claimed,
        ),
        call_ensures(AllocationJournal::settle, (&journal, &running, stored, completed), settled),
    ensures
        read is Err <==> got is Err,
        read is Err <==> cancelled is Err,
        read matches Err(error) ==> got->Err_0 == error && cancelled->Err_0 == error && claimed
            == Err::<Claim, JournalError>(error) && settled == Err::<Record, JournalError>(error),
        read is Ok && settled is Err ==> settled->Err_0 is Disappeared && stored is Absent,
        read is Ok && claimed is Err ==> claimed->Err_0 is Conflict,
{
}

} // verus!
