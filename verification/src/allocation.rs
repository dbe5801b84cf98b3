//! Durable ownership of keyed create requests, separate from paused sandboxes.
//!
//! A settled request cannot create another guest. It does not prove that the
//! assigned guest has been deleted. A different server incarnation must
//! reconcile host resources before treating absence from its in-memory
//! inventory as deletion.
//!
//! The journal decides; whoever drives it holds the mutation lock, reads and
//! writes the durable store and runs the operation. A value of one of the stage
//! types ([`Unclaimed`], [`Claiming`], [`Running`]) is handed out only where the
//! step before it has been taken.

use vstd::prelude::*;

use crate::digest;
use crate::digest::valid_digest;
use crate::ident;
use crate::ident::{fresh_uuid, uuid_to_string, SandboxId};

verus! {

/// The format that the journal writes and the only one that it reads.
pub const FORMAT_VERSION: u32 = 1;

/// How far a keyed request has come.
#[derive(Debug, Clone, Copy, PartialEq, Eq, Structural)]
pub enum AllocationState {
    /// The original handler has not published settlement.
    Pending,
    /// The handler returned and cannot start more create work.
    Settled,
    /// Cancellation won before any create claim.
    Cancelled,
    /// The operation broke off, or the record belongs to an earlier server
    /// incarnation.
    Interrupted,
}

/// What is known of a keyed request.
#[derive(Debug)]
pub struct AllocationReceipt {
    pub version: u32,
    pub owner_id: u128,
    pub allocation_id: u128,
    pub sandbox_id: Option<SandboxId>,
    pub request_digest: Option<String>,
    pub state: AllocationState,
    pub cancel_requested: bool,
}

/// What an [`AllocationReceipt`] says.
pub struct ReceiptView {
    pub version: u32,
    pub owner_id: u128,
    pub allocation_id: u128,
    pub sandbox_id: Option<SandboxId>,
    pub request_digest: Option<Seq<char>>,
    pub state: AllocationState,
    pub cancel_requested: bool,
}

impl View for AllocationReceipt {
    type V = ReceiptView;

    open spec fn view(&self) -> ReceiptView {
        ReceiptView {
            version: self.version,
            owner_id: self.owner_id,
            allocation_id: self.allocation_id,
            sandbox_id: self.sandbox_id,
            request_digest: match self.request_digest {
                Some(digest) => Some(digest@),
                None => None,
            },
            state: self.state,
            cancel_requested: self.cancel_requested,
        }
    }
}

impl Clone for AllocationReceipt {
    fn clone(&self) -> (copy: Self)
        ensures
            copy == *self,
    {
        AllocationReceipt {
            version: self.version,
            owner_id: self.owner_id,
            allocation_id: self.allocation_id,
            sandbox_id: self.sandbox_id,
            request_digest: match &self.request_digest {
                Some(digest) => Some(digest.clone()),
                None => None,
            },
            state: self.state,
            cancel_requested: self.cancel_requested,
        }
    }
}

/// A receipt as the store keeps it, with the incarnation that wrote it first.
#[derive(Debug)]
pub struct Record {
    pub receipt: AllocationReceipt,
    pub epoch: u128,
}

/// What a [`Record`] says.
pub struct RecordView {
    pub receipt: ReceiptView,
    pub epoch: u128,
}

impl View for Record {
    type V = RecordView;

    open spec fn view(&self) -> RecordView {
        RecordView { receipt: self.receipt@, epoch: self.epoch }
    }
}

/// What the store holds under a key, as far as it could be decoded.
#[derive(Debug)]
pub enum Stored<T> {
    /// Nothing.
    Absent,
    /// Bytes that could not be decoded.
    Malformed,
    Found(T),
}

/// What the record under a key says, where there is one.
pub open spec fn stored_view(stored: Stored<Record>) -> Option<RecordView> {
    match stored {
        Stored::Found(record) => Some(record@),
        _ => None,
    }
}

/// The identity of a journal, kept beside its records.
#[derive(Debug, Clone, Copy, PartialEq, Eq, Structural)]
pub struct JournalIdentity {
    pub version: u32,
    pub owner_id: u128,
}

/// Why the journal refused.
#[derive(Debug, Clone, Copy, PartialEq, Eq, Structural)]
pub enum JournalError {
    /// The stored identity of the journal could not be decoded.
    MalformedIdentity,
    /// A record could not be decoded.
    MalformedRecord,
    /// The stored journal has another version, or a nil owner.
    UnsupportedIdentity,
    /// A record has another version, key or owner.
    InvalidIdentity,
    /// A record holds a malformed digest.
    InvalidDigest,
    /// A record holds a combination of fields that the journal never writes.
    InvalidState,
    /// The request came with a malformed digest.
    InvalidRequestDigest,
    /// The key was already used with a different request.
    Conflict,
    /// The record of a running operation is gone.
    Disappeared,
    /// The operation broke off.
    Interrupted,
}

impl JournalError {
    /// The message of the error.
    pub open spec fn text(self) -> Seq<char> {
        match self {
            JournalError::MalformedIdentity => "decode allocation journal identity"@,
            JournalError::MalformedRecord => "decode allocation record"@,
            JournalError::UnsupportedIdentity => "unsupported allocation journal identity/version"@,
            JournalError::InvalidIdentity => "invalid allocation identity/version"@,
            JournalError::InvalidDigest => "invalid allocation digest"@,
            JournalError::InvalidState => "invalid allocation state"@,
            JournalError::InvalidRequestDigest => "invalid allocation request digest"@,
            JournalError::Conflict => "allocation key was already used with a different request"@,
            JournalError::Disappeared => "allocation record disappeared"@,
            JournalError::Interrupted => "allocation operation interrupted"@,
        }
    }

    /// Renders the error.
    pub fn message(self) -> (text: String)
        ensures
            text@ == self.text(),
    {
        match self {
            JournalError::MalformedIdentity => "decode allocation journal identity".to_owned(),
            JournalError::MalformedRecord => "decode allocation record".to_owned(),
            JournalError::UnsupportedIdentity => "unsupported allocation journal identity/version".to_owned(),
            JournalError::InvalidIdentity => "invalid allocation identity/version".to_owned(),
            JournalError::InvalidDigest => "invalid allocation digest".to_owned(),
            JournalError::InvalidState => "invalid allocation state".to_owned(),
            JournalError::InvalidRequestDigest => "invalid allocation request digest".to_owned(),
            JournalError::Conflict => "allocation key was already used with a different request".to_owned(),
            JournalError::Disappeared => "allocation record disappeared".to_owned(),
            JournalError::Interrupted => "allocation operation interrupted".to_owned(),
        }
    }
}

/// What a journal is: the durable owner and this server incarnation.
pub struct JournalView {
    pub owner_id: u128,
    pub epoch: u128,
}

/// Whether a record is a cancellation that came before any create claim.
pub open spec fn is_tombstone(receipt: ReceiptView) -> bool {
    &&& receipt.sandbox_id is None
    &&& receipt.request_digest is None
    &&& receipt.state == AllocationState::Cancelled
    &&& receipt.cancel_requested
}

/// Whether a record has the fields of a request that was assigned a sandbox.
pub open spec fn is_assigned(receipt: ReceiptView) -> bool {
    &&& receipt.sandbox_id is Some
    &&& receipt.request_digest is Some
    &&& receipt.state != AllocationState::Cancelled
}

impl JournalView {
    /// What is wrong with a record found under a key, or nothing.
    pub open spec fn fault(self, id: u128, receipt: ReceiptView) -> Option<JournalError> {
        if receipt.version != FORMAT_VERSION || receipt.allocation_id != id || receipt.owner_id
            != self.owner_id {
            Some(JournalError::InvalidIdentity)
        } else if is_tombstone(receipt) {
            None
        } else if !is_assigned(receipt) {
            Some(JournalError::InvalidState)
        } else if !digest::is_digest(receipt.request_digest->0) {
            Some(JournalError::InvalidDigest)
        } else {
            None
        }
    }

    /// What is wrong with what the store holds under a key, or nothing.
    pub open spec fn stored_fault(self, id: u128, stored: Stored<Record>) -> Option<JournalError> {
        match stored {
            Stored::Absent => None,
            Stored::Malformed => Some(JournalError::MalformedRecord),
            Stored::Found(record) => self.fault(id, record@.receipt),
        }
    }

    /// The receipt that this incarnation shows of a record. An assigned record
    /// of an earlier incarnation is interrupted, whatever it says.
    pub open spec fn shown(self, record: RecordView) -> ReceiptView {
        if record.epoch != self.epoch && record.receipt.sandbox_id is Some {
            ReceiptView { state: AllocationState::Interrupted, ..record.receipt }
        } else {
            record.receipt
        }
    }

    /// The record of a cancellation that came before any create claim.
    pub open spec fn tombstone(self, id: u128) -> RecordView {
        RecordView {
            receipt: ReceiptView {
                version: FORMAT_VERSION,
                owner_id: self.owner_id,
                allocation_id: id,
                sandbox_id: None,
                request_digest: None,
                state: AllocationState::Cancelled,
                cancel_requested: true,
            },
            epoch: self.epoch,
        }
    }

    /// The record of a new claim.
    pub open spec fn claim(self, id: u128, digest: Seq<char>, sandbox_id: SandboxId) -> RecordView {
        RecordView {
            receipt: ReceiptView {
                version: FORMAT_VERSION,
                owner_id: self.owner_id,
                allocation_id: id,
                sandbox_id: Some(sandbox_id),
                request_digest: Some(digest),
                state: AllocationState::Pending,
                cancel_requested: false,
            },
            epoch: self.epoch,
        }
    }

    /// The record that cancellation leaves, given the one before it.
    pub open spec fn cancelled(self, id: u128, stored: Option<RecordView>) -> RecordView {
        match stored {
            Some(record) => RecordView {
                receipt: ReceiptView { cancel_requested: true, ..record.receipt },
                ..record
            },
            None => self.tombstone(id),
        }
    }
}

/// The record that the end of an operation leaves. A callback that broke off is
/// interrupted, never settled.
pub open spec fn settled(record: RecordView, completed: bool) -> RecordView {
    RecordView {
        receipt: ReceiptView {
            state: if completed {
                AllocationState::Settled
            } else {
                AllocationState::Interrupted
            },
            ..record.receipt
        },
        ..record
    }
}

/// The key of the journal's identity in the store.
pub open spec fn format_key() -> Seq<u8> {
    vstd::utf8::encode_utf8("format"@)
}

/// The key of a record in the store.
pub open spec fn record_key(id: u128) -> Seq<u8> {
    vstd::utf8::encode_utf8("allocation/"@ + ident::uuid_text(id))
}

/// The decisions of the allocation journal of one durable owner.
#[derive(Debug)]
pub struct AllocationJournal {
    owner_id: u128,
    epoch: u128,
}

/// An opened journal, and the identity that has to be stored first where the
/// store had none.
#[derive(Debug)]
pub struct Opened {
    pub journal: AllocationJournal,
    pub to_store: Option<JournalIdentity>,
}

/// A request with a well-formed digest that has not claimed its key.
#[derive(Debug)]
pub struct Unclaimed {
    id: u128,
    digest: String,
}

/// A claim whose record has to be written before anything else happens.
#[derive(Debug)]
pub struct Claiming {
    record: Record,
    sandbox_id: SandboxId,
}

/// An operation that may run: its claim is durable.
#[derive(Debug)]
pub struct Running {
    id: u128,
    sandbox_id: SandboxId,
}

/// What comes of a claim.
#[derive(Debug)]
pub enum Claim {
    /// The key is taken. The operation must not run.
    Existing(AllocationReceipt),
    /// The key was free.
    Commit(Claiming),
}

/// The outcome of a keyed request.
#[derive(Debug)]
pub enum AllocationResult<T> {
    Completed(T),
    Existing(AllocationReceipt),
}

/// A cancellation: the record to write, and the receipt to show once it is
/// written.
#[derive(Debug)]
pub struct Cancellation {
    pub record: Record,
    pub receipt: AllocationReceipt,
}

impl Unclaimed {
    /// The key of the request.
    pub closed spec fn id(self) -> u128 {
        self.id
    }

    /// The digest of the request.
    pub closed spec fn digest(self) -> Seq<char> {
        self.digest@
    }
}

impl Claiming {
    /// The record to write.
    pub closed spec fn record(self) -> RecordView {
        self.record@
    }

    /// The sandbox that the claim assigns.
    pub closed spec fn sandbox_id(self) -> SandboxId {
        self.sandbox_id
    }

    /// The record to write.
    pub fn to_write(&self) -> (record: &Record)
        ensures
            record@ == self.record(),
    {
        &self.record
    }

    /// Takes note that the record has been written. Only now may the operation
    /// run, with the sandbox that the record assigns.
    pub fn committed(self) -> (running: Running)
        ensures
            running.id() == self.record().receipt.allocation_id,
            running.sandbox_id() == self.sandbox_id(),
    {
        Running { id: self.record.receipt.allocation_id, sandbox_id: self.sandbox_id }
    }
}

impl Running {
    /// The key of the request.
    pub closed spec fn id(self) -> u128 {
        self.id
    }

    /// The sandbox that the operation may create.
    pub closed spec fn sandbox_id(self) -> SandboxId {
        self.sandbox_id
    }

    /// The key of the request.
    pub fn allocation(&self) -> (id: u128)
        ensures
            id == self.id(),
    {
        self.id
    }

    /// The sandbox that the operation may create.
    pub fn sandbox(&self) -> (sandbox_id: SandboxId)
        ensures
            sandbox_id == self.sandbox_id(),
    {
        self.sandbox_id
    }
}

impl View for AllocationJournal {
    type V = JournalView;

    closed spec fn view(&self) -> JournalView {
        JournalView { owner_id: self.owner_id, epoch: self.epoch }
    }
}

impl AllocationJournal {
    /// Opens the journal over what the store holds as its identity. A store
    /// without one gets a new owner.
    pub fn open(stored: Stored<JournalIdentity>) -> (result: Result<Opened, JournalError>)
        ensures
            match stored {
                Stored::Absent => result matches Ok(opened) && {
                    &&& ident::is_v7(opened.journal@.epoch)
                    &&& ident::is_v7(opened.journal@.owner_id)
                    &&& opened.journal@.owner_id != 0
                    &&& opened.to_store == Some(
                        JournalIdentity {
                            version: FORMAT_VERSION,
                            owner_id: opened.journal@.owner_id,
                        },
                    )
                },
                Stored::Malformed => result == Err::<Opened, JournalError>(
                    JournalError::MalformedIdentity,
                ),
                Stored::Found(identity) => if identity.version == FORMAT_VERSION
                    && identity.owner_id != 0 {
                    result matches Ok(opened) && {
                        &&& ident::is_v7(opened.journal@.epoch)
                        &&& opened.journal@.owner_id == identity.owner_id
                        &&& opened.to_store is None
                    }
                } else {
                    result == Err::<Opened, JournalError>(JournalError::UnsupportedIdentity)
                },
            },
    {
        let fresh_owner = fresh_uuid();
        let epoch = fresh_uuid();
        AllocationJournal::open_as(stored, fresh_owner, epoch)
    }

    /// Opens the journal as a given incarnation, with a given owner for a store
    /// that has none.
    pub fn open_as(stored: Stored<JournalIdentity>, fresh_owner: u128, epoch: u128) -> (result: Result<
        Opened,
        JournalError,
    >)
        ensures
            if stored is Malformed {
                result == Err::<Opened, JournalError>(JournalError::MalformedIdentity)
            } else {
                let identity = match stored {
                    Stored::Found(identity) => identity,
                    _ => JournalIdentity { version: FORMAT_VERSION, owner_id: fresh_owner },
                };
                if identity.version == FORMAT_VERSION && identity.owner_id != 0 {
                    result matches Ok(opened) && opened.journal@ == (JournalView {
                        owner_id: identity.owner_id,
                        epoch,
                    }) && opened.to_store == (if stored is Absent {
                        Some(identity)
                    } else {
                        None
                    })
                } else {
                    result == Err::<Opened, JournalError>(JournalError::UnsupportedIdentity)
                }
            },
    {
        let (identity, to_store) = match stored {
            Stored::Found(identity) => (identity, None),
            Stored::Absent => {
                let identity = JournalIdentity { version: FORMAT_VERSION, owner_id: fresh_owner };
                (identity, Some(identity))
            },
            Stored::Malformed => {
                return Err(JournalError::MalformedIdentity);
            },
        };
        if identity.version != FORMAT_VERSION || identity.owner_id == 0 {
            return Err(JournalError::UnsupportedIdentity);
        }
        Ok(Opened { journal: AllocationJournal { owner_id: identity.owner_id, epoch }, to_store })
    }

    /// The durable owner of the journal.
    pub fn owner_id(&self) -> (owner_id: u128)
        ensures
            owner_id == self@.owner_id,
    {
        self.owner_id
    }

    /// The store key of the journal's identity.
    pub fn identity_key() -> (key: Vec<u8>)
        ensures
            key@ == format_key(),
    {
        "format".as_bytes_vec()
    }

    /// The store key of a record.
    pub fn key(id: u128) -> (key: Vec<u8>)
        ensures
            key@ == record_key(id),
    {
        let text = "allocation/".to_owned().concat(uuid_to_string(id).as_str());
        text.as_str().as_bytes_vec()
    }

    /// Checks what the store holds under a key.
    pub fn read(&self, id: u128, stored: Stored<Record>) -> (result: Result<
        Option<Record>,
        JournalError,
    >)
        ensures
            match self@.stored_fault(id, stored) {
                Some(error) => result == Err::<Option<Record>, JournalError>(error),
                None => result == Ok::<Option<Record>, JournalError>(
                    match stored {
                        Stored::Found(record) => Some(record),
                        _ => None,
                    },
                ),
            },
    {
        let record = match stored {
            Stored::Found(record) => record,
            Stored::Absent => {
                return Ok(None);
            },
            Stored::Malformed => {
                return Err(JournalError::MalformedRecord);
            },
        };
        let receipt = &record.receipt;
        if receipt.version != FORMAT_VERSION || receipt.allocation_id != id || receipt.owner_id
            != self.owner_id {
            return Err(JournalError::InvalidIdentity);
        }
        match (&receipt.sandbox_id, &receipt.request_digest) {
            (None, None) => {
                if receipt.state != AllocationState::Cancelled || !receipt.cancel_requested {
                    return Err(JournalError::InvalidState);
                }
            },
            (Some(_), Some(found)) => {
                if receipt.state == AllocationState::Cancelled {
                    return Err(JournalError::InvalidState);
                }
                if !valid_digest(found.as_str()) {
                    return Err(JournalError::InvalidDigest);
                }
            },
            _ => {
                return Err(JournalError::InvalidState);
            },
        }
        Ok(Some(record))
    }

    /// The receipt that this incarnation shows of a record.
    pub fn receipt(&self, record: Record) -> (receipt: AllocationReceipt)
        ensures
            receipt@ == self@.shown(record@),
    {
        let mut receipt = record.receipt;
        if record.epoch != self.epoch && receipt.sandbox_id.is_some() {
            receipt.state = AllocationState::Interrupted;
        }
        receipt
    }

    /// The receipt of a key.
    pub fn get(&self, id: u128, stored: Stored<Record>) -> (result: Result<
        Option<AllocationReceipt>,
        JournalError,
    >)
        ensures
            match self@.stored_fault(id, stored) {
                Some(error) => result == Err::<Option<AllocationReceipt>, JournalError>(error),
                None => match stored {
                    Stored::Found(record) => result matches Ok(Some(receipt)) && receipt@
                        == self@.shown(record@),
                    _ => result == Ok::<Option<AllocationReceipt>, JournalError>(None),
                },
            },
    {
        match self.read(id, stored) {
            Ok(Some(record)) => Ok(Some(self.receipt(record))),
            Ok(None) => Ok(None),
            Err(error) => Err(error),
        }
    }

    /// Fences a key, even for a request that has not arrived yet. Once claimed,
    /// the owned operation is allowed to settle; the caller must wait before
    /// guest cleanup.
    pub fn cancel(&self, id: u128, stored: Stored<Record>) -> (result: Result<
        Cancellation,
        JournalError,
    >)
        ensures
            match self@.stored_fault(id, stored) {
                Some(error) => result == Err::<Cancellation, JournalError>(error),
                None => result matches Ok(cancellation) && {
                    &&& cancellation.record@ == self@.cancelled(id, stored_view(stored))
                    &&& cancellation.receipt@ == self@.shown(cancellation.record@)
                },
            },
    {
        let mut record = match self.read(id, stored) {
            Ok(Some(record)) => record,
            Ok(None) => Record {
                receipt: AllocationReceipt {
                    version: FORMAT_VERSION,
                    owner_id: self.owner_id,
                    allocation_id: id,
                    sandbox_id: None,
                    request_digest: None,
                    state: AllocationState::Cancelled,
                    cancel_requested: true,
                },
                epoch: self.epoch,
            },
            Err(error) => {
                return Err(error);
            },
        };
        record.receipt.cancel_requested = true;
        let shown = Record { receipt: record.receipt.clone(), epoch: record.epoch };
        let receipt = self.receipt(shown);
        Ok(Cancellation { record, receipt })
    }

    /// Admits a keyed request if its digest is well formed.
    pub fn execute(&self, id: u128, digest: String) -> (result: Result<Unclaimed, JournalError>)
        ensures
            match result {
                Ok(request) => digest::is_digest(digest@) && request.id() == id && request.digest()
                    == digest@,
                Err(error) => !digest::is_digest(digest@) && error
                    == JournalError::InvalidRequestDigest,
            },
    {
        if valid_digest(digest.as_str()) {
            Ok(Unclaimed { id, digest })
        } else {
            Err(JournalError::InvalidRequestDigest)
        }
    }

    /// Claims the key of a request for a newly drawn sandbox, unless it is taken.
    pub fn claim(&self, request: Unclaimed, stored: Stored<Record>) -> (result: Result<
        Claim,
        JournalError,
    >)
        ensures
            self.claim_outcome(request, stored, result),
            result matches Ok(Claim::Commit(claiming)) ==> ident::is_v7(claiming.sandbox_id().bits),
            (result matches Ok(Claim::Commit(_))) <==> stored is Absent,
    {
        let sandbox_id = SandboxId::new();
        self.claim_for(request, stored, sandbox_id)
    }

    /// What a claim comes to, whichever sandbox was drawn for it.
    pub open spec fn claim_outcome(
        &self,
        request: Unclaimed,
        stored: Stored<Record>,
        result: Result<Claim, JournalError>,
    ) -> bool {
        match self@.stored_fault(request.id(), stored) {
            Some(error) => result == Err::<Claim, JournalError>(error),
            None => match stored {
                Stored::Found(record) => if record@.receipt.request_digest is Some
                    && record@.receipt.request_digest->0 != request.digest() {
                    result == Err::<Claim, JournalError>(JournalError::Conflict)
                } else {
                    result matches Ok(Claim::Existing(receipt)) && receipt@ == self@.shown(record@)
                },
                _ => result matches Ok(Claim::Commit(claiming)) && claiming.record()
                    == self@.claim(request.id(), request.digest(), claiming.sandbox_id()),
            },
        }
    }

    /// Claims the key of a request for a given sandbox, unless it is taken.
    pub fn claim_for(&self, request: Unclaimed, stored: Stored<Record>, sandbox_id: SandboxId) -> (result:
        Result<Claim, JournalError>)
        ensures
            self.claim_outcome(request, stored, result),
            result matches Ok(Claim::Commit(claiming)) ==> claiming.sandbox_id() == sandbox_id,
            (result matches Ok(Claim::Commit(_))) <==> stored is Absent,
    {
        let Unclaimed { id, digest } = request;
        match self.read(id, stored) {
            Err(error) => Err(error),
            Ok(Some(record)) => {
                let differs = match &record.receipt.request_digest {
                    Some(old_digest) => *old_digest != digest,
                    None => false,
                };
                if differs {
                    Err(JournalError::Conflict)
                } else {
                    Ok(Claim::Existing(self.receipt(record)))
                }
            },
            Ok(None) => {
                let record = Record {
                    receipt: AllocationReceipt {
                        version: FORMAT_VERSION,
                        owner_id: self.owner_id,
                        allocation_id: id,
                        sandbox_id: Some(sandbox_id),
                        request_digest: Some(digest),
                        state: AllocationState::Pending,
                        cancel_requested: false,
                    },
                    epoch: self.epoch,
                };
                Ok(Claim::Commit(Claiming { record, sandbox_id }))
            },
        }
    }

    /// The record that the end of an operation leaves. An operation that broke
    /// off is interrupted, never settled.
    pub fn settle(&self, running: &Running, stored: Stored<Record>, completed: bool) -> (result:
        Result<Record, JournalError>)
        ensures
            match self@.stored_fault(running.id(), stored) {
                Some(error) => result == Err::<Record, JournalError>(error),
                None => match stored {
                    Stored::Found(record) => result matches Ok(updated) && updated@ == settled(
                        record@,
                        completed,
                    ),
                    _ => result == Err::<Record, JournalError>(JournalError::Disappeared),
                },
            },
    {
        match self.read(running.id, stored) {
            Err(error) => Err(error),
            Ok(None) => Err(JournalError::Disappeared),
            Ok(Some(record)) => {
                let mut record = record;
                record.receipt.state = if completed {
                    AllocationState::Settled
                } else {
                    AllocationState::Interrupted
                };
                Ok(record)
            },
        }
    }

    /// The outcome of a keyed request whose settlement has been written.
    pub fn outcome<T>(completed: Option<T>) -> (result: Result<AllocationResult<T>, JournalError>)
        ensures
            match completed {
                Some(value) => result == Ok::<AllocationResult<T>, JournalError>(
                    AllocationResult::Completed(value),
                ),
                None => result == Err::<AllocationResult<T>, JournalError>(JournalError::Interrupted),
            },
    {
        match completed {
            Some(value) => Ok(AllocationResult::Completed(value)),
            None => Err(JournalError::Interrupted),
        }
    }
}

} // verus!
