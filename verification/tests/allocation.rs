use std::collections::{HashMap, HashSet};

use agentenv::allocation::{
    AllocationJournal, AllocationReceipt, AllocationResult, AllocationState, Claim, JournalError,
    JournalIdentity, Record, Running, Stored,
};
use agentenv::allocation_api::{
    admit_keyed_request, create_keyed_sandbox, sandbox_allocations_allocation_id_delete,
    sandbox_allocations_allocation_id_get,
};
use agentenv::api::{refuse, Reply, Status};
use agentenv::create::CreatedSandbox;
use agentenv::digest::request_digest;
use agentenv::ident::{fresh_uuid, SandboxId};
use agentenv::json::Json;

fn digest() -> String {
    "a".repeat(64)
}

fn copy(record: &Record) -> Record {
    Record {
        receipt: record.receipt.clone(),
        epoch: record.epoch,
    }
}

/// A store that outlives the journals opened on it.
#[derive(Default)]
struct Store {
    identity: Option<JournalIdentity>,
    identity_malformed: bool,
    records: HashMap<Vec<u8>, Record>,
    malformed: HashSet<Vec<u8>>,
}

impl Store {
    fn open(&mut self) -> Result<AllocationJournal, JournalError> {
        let opened = AllocationJournal::open(match self.identity {
            _ if self.identity_malformed => Stored::Malformed,
            Some(identity) => Stored::Found(identity),
            None => Stored::Absent,
        })?;
        if let Some(identity) = opened.to_store {
            self.identity = Some(identity);
        }
        Ok(opened.journal)
    }

    fn read(&self, id: u128) -> Option<Record> {
        self.records.get(&AllocationJournal::key(id)).map(copy)
    }

    /// What a journal is told of a key.
    fn stored(&self, id: u128) -> Stored<Record> {
        if self.malformed.contains(&AllocationJournal::key(id)) {
            return Stored::Malformed;
        }
        match self.read(id) {
            Some(record) => Stored::Found(record),
            None => Stored::Absent,
        }
    }

    fn write(&mut self, record: &Record) {
        let key = AllocationJournal::key(record.receipt.allocation_id);
        self.records.insert(key, copy(record));
    }

    fn get(&self, journal: &AllocationJournal, id: u128) -> Option<AllocationReceipt> {
        journal.get(id, self.stored(id)).unwrap()
    }

    fn cancel(
        &mut self,
        journal: &AllocationJournal,
        id: u128,
    ) -> Result<AllocationReceipt, JournalError> {
        let cancellation = journal.cancel(id, self.stored(id))?;
        self.write(&cancellation.record);
        Ok(cancellation.receipt)
    }

    /// Claims a key: the operation that may run, or the receipt of the key.
    fn claim(
        &mut self,
        journal: &AllocationJournal,
        id: u128,
        digest: String,
    ) -> Result<Result<Running, AllocationReceipt>, JournalError> {
        let request = journal.execute(id, digest)?;
        match journal.claim(request, self.stored(id))? {
            Claim::Existing(receipt) => Ok(Err(receipt)),
            Claim::Commit(claiming) => {
                self.write(claiming.to_write());
                Ok(Ok(claiming.committed()))
            }
        }
    }

    fn settle<T>(
        &mut self,
        journal: &AllocationJournal,
        running: Running,
        completed: Option<T>,
    ) -> Result<AllocationResult<T>, JournalError> {
        let stored = self.stored(running.allocation());
        let record = journal.settle(&running, stored, completed.is_some())?;
        self.write(&record);
        AllocationJournal::outcome(completed)
    }

    /// A whole keyed request.
    fn execute<T>(
        &mut self,
        journal: &AllocationJournal,
        id: u128,
        digest: String,
        operation: impl FnOnce(SandboxId) -> Option<T>,
    ) -> Result<AllocationResult<T>, JournalError> {
        match self.claim(journal, id, digest)? {
            Err(receipt) => Ok(AllocationResult::Existing(receipt)),
            Ok(running) => {
                let completed = operation(running.sandbox());
                self.settle(journal, running, completed)
            }
        }
    }
}

#[test]
fn cancellation_before_create_fences_delayed_requests_across_restart() {
    let mut store = Store::default();
    let id = fresh_uuid();
    let journal = store.open().unwrap();
    assert!(store.get(&journal, id).is_none());
    let receipt = store.cancel(&journal, id).unwrap();
    let owner = journal.owner_id();
    assert_eq!(receipt.state, AllocationState::Cancelled);
    assert!(receipt.sandbox_id.is_none());
    drop(journal);
    let journal = store.open().unwrap();
    assert_eq!(journal.owner_id(), owner);
    let result = store
        .execute::<()>(&journal, id, digest(), |_| panic!("late request allocated"))
        .unwrap();
    assert!(matches!(
        result,
        AllocationResult::Existing(AllocationReceipt {
            state: AllocationState::Cancelled,
            sandbox_id: None,
            ..
        })
    ));
}

#[test]
fn lost_caller_and_cancel_wait_for_original_operation_to_settle() {
    let mut store = Store::default();
    let journal = store.open().unwrap();
    let id = fresh_uuid();
    let running = store.claim(&journal, id, digest()).unwrap().unwrap();
    let sandbox_id = running.sandbox();
    let persisted = store.get(&journal, id).unwrap();
    assert_eq!(persisted.sandbox_id, Some(sandbox_id));
    assert_eq!(persisted.state, AllocationState::Pending);

    let stopped = store.cancel(&journal, id).unwrap();
    assert_eq!(stopped.sandbox_id, Some(sandbox_id));
    assert_eq!(stopped.state, AllocationState::Pending);
    assert!(stopped.cancel_requested);
    let repeat = store
        .execute::<()>(&journal, id, digest(), |_| panic!("duplicate create"))
        .unwrap();
    assert!(matches!(repeat, AllocationResult::Existing(_)));
    let changed =
        store.execute::<()>(&journal, id, "b".repeat(64), |_| panic!("changed create"));
    assert_eq!(changed.err().unwrap(), JournalError::Conflict);
    // A slow operation does not keep another key from being claimed.
    let other = store
        .execute(&journal, fresh_uuid(), digest(), |_| Some(7))
        .unwrap();
    assert!(matches!(other, AllocationResult::Completed(7)));

    store.settle(&journal, running, Some(())).unwrap();
    let receipt = store.get(&journal, id).unwrap();
    assert_eq!(receipt.sandbox_id, Some(sandbox_id));
    assert!(receipt.cancel_requested);
    assert_eq!(receipt.state, AllocationState::Settled);
}

#[test]
fn concurrent_duplicates_execute_once_and_failure_does_not_reset_identity() {
    let mut store = Store::default();
    let journal = store.open().unwrap();
    let id = fresh_uuid();
    let mut calls = 0;
    let mut completed = 0;
    for _ in 0..16 {
        let result = store
            .execute(&journal, id, digest(), |_| {
                calls += 1;
                Some(Err::<(), _>("controlled create failure"))
            })
            .unwrap();
        if let AllocationResult::Completed(result) = result {
            assert_eq!(result, Err("controlled create failure"));
            completed += 1;
        }
    }
    assert_eq!(completed, 1);
    assert_eq!(calls, 1);
    let original = store.get(&journal, id).unwrap();
    assert_eq!(original.state, AllocationState::Settled);
    drop(journal);
    let reopened = store.open().unwrap();
    let receipt = store.get(&reopened, id).unwrap();
    assert_eq!(receipt.sandbox_id, original.sandbox_id);
    assert_eq!(receipt.state, AllocationState::Interrupted);
    assert!(matches!(
        store
            .execute::<()>(&reopened, id, digest(), |_| panic!("restart retried create"))
            .unwrap(),
        AllocationResult::Existing(_)
    ));
}

#[test]
fn callback_panic_is_interrupted_and_cannot_be_retried() {
    let mut store = Store::default();
    let journal = store.open().unwrap();
    let id = fresh_uuid();
    let broken = store.execute::<()>(&journal, id, digest(), |_| None);
    assert_eq!(broken.unwrap_err(), JournalError::Interrupted);
    let receipt = store.get(&journal, id).unwrap();
    assert_eq!(receipt.state, AllocationState::Interrupted);
    assert!(receipt.sandbox_id.is_some());
    assert!(matches!(
        store
            .execute::<()>(&journal, id, digest(), |_| panic!("panic retried"))
            .unwrap(),
        AllocationResult::Existing(_)
    ));
}

#[test]
fn malformed_record_or_future_version_refuses_create() {
    let mut store = Store::default();
    let journal = store.open().unwrap();
    let id = fresh_uuid();
    // The bytes `{}` are no record.
    store.malformed.insert(AllocationJournal::key(id));
    assert_eq!(
        store
            .execute::<()>(&journal, id, digest(), |_| panic!("corruption allocated"))
            .unwrap_err(),
        JournalError::MalformedRecord
    );
    assert_eq!(
        store.cancel(&journal, id).unwrap_err(),
        JournalError::MalformedRecord
    );
    // The bytes `2` are no identity.
    store.identity_malformed = true;
    drop(journal);
    assert_eq!(store.open().unwrap_err(), JournalError::MalformedIdentity);
}

#[test]
fn a_record_or_journal_of_another_version_refuses_create() {
    let mut store = Store::default();
    let journal = store.open().unwrap();
    let id = fresh_uuid();
    store.cancel(&journal, id).unwrap();
    let mut record = store.read(id).unwrap();
    record.receipt.version = 2;
    store.write(&record);
    assert_eq!(
        store
            .execute::<()>(&journal, id, digest(), |_| panic!("corruption allocated"))
            .unwrap_err(),
        JournalError::InvalidIdentity
    );
    assert!(store.cancel(&journal, id).is_err());
    store.identity = Some(JournalIdentity {
        version: 2,
        owner_id: journal.owner_id(),
    });
    drop(journal);
    assert_eq!(store.open().unwrap_err(), JournalError::UnsupportedIdentity);
}

#[test]
fn sigkill_preserves_original_id_and_never_reallocates() {
    let mut store = Store::default();
    let id = fresh_uuid();
    let journal = store.open().unwrap();
    let running = store.claim(&journal, id, digest()).unwrap().unwrap();
    let sandbox_id = running.sandbox();
    // The process is killed while the operation runs.
    drop(running);
    drop(journal);
    let journal = store.open().unwrap();
    let receipt = store.get(&journal, id).unwrap();
    assert_eq!(receipt.sandbox_id, Some(sandbox_id));
    assert_eq!(receipt.state, AllocationState::Interrupted);
    assert_eq!(receipt.request_digest.as_deref(), Some(digest().as_str()));
    assert!(matches!(
        store
            .execute::<()>(&journal, id, digest(), |_| panic!("SIGKILL retried create"))
            .unwrap(),
        AllocationResult::Existing(_)
    ));
    let cancelled = store.cancel(&journal, id).unwrap();
    assert!(cancelled.cancel_requested);
    assert_eq!(cancelled.state, AllocationState::Interrupted);
    assert_eq!(cancelled.sandbox_id, Some(sandbox_id));
}

/// A value of the library for a value of the JSON crate.
fn json(value: &serde_json::Value) -> Json {
    match value {
        serde_json::Value::Null => Json::Null,
        serde_json::Value::Bool(b) => Json::Bool(*b),
        serde_json::Value::Number(n) => Json::Number(n.clone()),
        serde_json::Value::String(s) => Json::Text(s.clone()),
        serde_json::Value::Array(items) => Json::Array(items.iter().map(json).collect()),
        serde_json::Value::Object(fields) => Json::Object(
            fields
                .iter()
                .map(|(name, value)| (name.clone(), json(value)))
                .collect(),
        ),
    }
}

fn hashed(value: &serde_json::Value) -> String {
    request_digest(json(value)).unwrap()
}

#[test]
fn request_hash_includes_nested_values_and_ignores_object_order() {
    let first: serde_json::Value = serde_json::from_str(
        r#"{"envVars":{"A":"secret","B":"second"},"templateID":"base","secure":true}"#,
    )
    .unwrap();
    let reordered: serde_json::Value = serde_json::from_str(
        r#"{"secure":true,"templateID":"base","envVars":{"B":"second","A":"secret"}}"#,
    )
    .unwrap();
    assert_eq!(hashed(&first), hashed(&reordered));
    let mut changed = first.clone();
    changed["envVars"]["A"] = "changed".into();
    assert_ne!(hashed(&first), hashed(&changed));
}

fn text(s: &str) -> Json {
    Json::Text(s.to_string())
}

#[test]
fn the_digest_is_that_of_the_compact_text_with_sorted_names() {
    let listed_backwards = Json::Object(vec![
        ("templateID".to_string(), text("base")),
        ("secure".to_string(), Json::Bool(true)),
        (
            "envVars".to_string(),
            Json::Object(vec![
                ("B".to_string(), text("second")),
                ("A".to_string(), text("secret")),
            ]),
        ),
    ]);
    assert_eq!(
        request_digest(listed_backwards).unwrap(),
        "d2787d91cda726dbe15bbdddb9c526fb74e06f92277a6d50aa04f21eba2cb6df"
    );
    let with_array = Json::Object(vec![
        ("b".to_string(), Json::Number(1.into())),
        (
            "a".to_string(),
            Json::Array(vec![Json::Bool(true), Json::Null]),
        ),
    ]);
    assert_eq!(
        request_digest(with_array).unwrap(),
        "51705a2c9eb3e7e410a58f696a770c3ac3885a0cf43eb7fc88f5e47c11d4d30d"
    );
}

#[test]
fn array_order_and_every_field_count() {
    let forward = Json::Array(vec![Json::Bool(true), Json::Null]);
    let backward = Json::Array(vec![Json::Null, Json::Bool(true)]);
    assert_ne!(
        request_digest(forward).unwrap(),
        request_digest(backward).unwrap()
    );
    let with_field = Json::Object(vec![("a".to_string(), Json::Null)]);
    let without = Json::Object(Vec::new());
    assert_ne!(
        request_digest(with_field).unwrap(),
        request_digest(without).unwrap()
    );
}

#[test]
fn a_record_is_stored_under_the_hyphenated_text_of_its_key() {
    assert_eq!(AllocationJournal::identity_key(), b"format".to_vec());
    assert_eq!(
        AllocationJournal::key(0x0123_4567_89ab_cdef_0123_4567_89ab_cdef),
        b"allocation/01234567-89ab-cdef-0123-456789abcdef".to_vec()
    );
}

#[test]
fn every_refusal_of_the_journal_has_its_record() {
    let opened = AllocationJournal::open_as(Stored::Absent, 5, 7).unwrap();
    let journal = opened.journal;
    assert_eq!(
        opened.to_store,
        Some(JournalIdentity {
            version: 1,
            owner_id: 5
        })
    );
    let record = |change: fn(&mut AllocationReceipt)| {
        let mut receipt = AllocationReceipt {
            version: 1,
            owner_id: 5,
            allocation_id: 9,
            sandbox_id: Some(SandboxId { bits: 3 }),
            request_digest: Some("c".repeat(64)),
            state: AllocationState::Pending,
            cancel_requested: false,
        };
        change(&mut receipt);
        Stored::Found(Record { receipt, epoch: 7 })
    };
    let fault = |change: fn(&mut AllocationReceipt)| journal.read(9, record(change)).err();
    assert_eq!(fault(|_| ()), None);
    assert_eq!(fault(|r| r.version = 2), Some(JournalError::InvalidIdentity));
    assert_eq!(fault(|r| r.owner_id = 6), Some(JournalError::InvalidIdentity));
    assert_eq!(
        fault(|r| r.allocation_id = 8),
        Some(JournalError::InvalidIdentity)
    );
    assert_eq!(fault(|r| r.sandbox_id = None), Some(JournalError::InvalidState));
    assert_eq!(
        fault(|r| r.request_digest = None),
        Some(JournalError::InvalidState)
    );
    assert_eq!(
        fault(|r| r.state = AllocationState::Cancelled),
        Some(JournalError::InvalidState)
    );
    assert_eq!(
        fault(|r| r.request_digest = Some("C".repeat(64))),
        Some(JournalError::InvalidDigest)
    );
    assert_eq!(
        fault(|r| {
            r.sandbox_id = None;
            r.request_digest = None;
            r.state = AllocationState::Cancelled;
        }),
        Some(JournalError::InvalidState)
    );
    assert_eq!(
        journal.execute(9, "xyz".to_string()).err(),
        Some(JournalError::InvalidRequestDigest)
    );
    let request = journal.execute(9, digest()).unwrap();
    let Claim::Commit(claiming) = journal.claim(request, Stored::Absent).unwrap() else {
        panic!("a free key is claimed");
    };
    let running = claiming.committed();
    assert_eq!(
        journal.settle(&running, Stored::Absent, true).err(),
        Some(JournalError::Disappeared)
    );
    assert_eq!(
        AllocationJournal::open_as(Stored::Absent, 0, 7).err(),
        Some(JournalError::UnsupportedIdentity)
    );
}

#[test]
fn messages_of_the_journal() {
    assert_eq!(
        JournalError::MalformedIdentity.message(),
        "decode allocation journal identity"
    );
    assert_eq!(
        JournalError::MalformedRecord.message(),
        "decode allocation record"
    );
    assert_eq!(
        JournalError::UnsupportedIdentity.message(),
        "unsupported allocation journal identity/version"
    );
    assert_eq!(
        JournalError::InvalidIdentity.message(),
        "invalid allocation identity/version"
    );
    assert_eq!(JournalError::InvalidDigest.message(), "invalid allocation digest");
    assert_eq!(JournalError::InvalidState.message(), "invalid allocation state");
    assert_eq!(
        JournalError::InvalidRequestDigest.message(),
        "invalid allocation request digest"
    );
    assert_eq!(
        JournalError::Conflict.message(),
        "allocation key was already used with a different request"
    );
    assert_eq!(
        JournalError::Disappeared.message(),
        "allocation record disappeared"
    );
    assert_eq!(
        JournalError::Interrupted.message(),
        "allocation operation interrupted"
    );
}

#[test]
fn identities_are_read_back_from_their_text() {
    let id = SandboxId {
        bits: 0x0193_0000_0000_7000_8000_0000_0000_00ff,
    };
    assert_eq!(id.to_text(), "01930000-0000-7000-8000-0000000000ff");
    assert_eq!(SandboxId::parse_str(&id.to_text()), Some(id));
    assert_eq!(SandboxId::parse_str("not-a-sandbox"), None);
    let fresh = SandboxId::new();
    assert_eq!(fresh.to_text().as_bytes()[14], b'7');
    assert_ne!(fresh, SandboxId::new());
}

/// A node that answers keyed requests over a store.
struct Node {
    store: Store,
    journal: AllocationJournal,
}

impl Node {
    fn new() -> Node {
        let mut store = Store::default();
        let journal = store.open().unwrap();
        Node { store, journal }
    }

    fn owner(&self) -> String {
        text_of(self.journal.owner_id())
    }

    fn admitted<T>(&self, owner: &str, key: &str) -> Result<u128, Reply<T>> {
        admit_keyed_request(owner, Some(self.journal.owner_id()), key)
    }

    fn get(&self, owner: &str, key: &str) -> Reply<AllocationReceipt> {
        match self.admitted(owner, key) {
            Ok(id) => sandbox_allocations_allocation_id_get(Ok(self.store.get(&self.journal, id))),
            Err(reply) => reply,
        }
    }

    fn delete(&mut self, owner: &str, key: &str) -> Reply<AllocationReceipt> {
        match self.admitted(owner, key) {
            Ok(id) => {
                let receipt = self.store.cancel(&self.journal, id);
                sandbox_allocations_allocation_id_delete(receipt.map_err(|_| ()))
            }
            Err(reply) => reply,
        }
    }

    fn post(
        &mut self,
        owner: &str,
        key: &str,
        body: Json,
        create: impl FnOnce(SandboxId) -> Reply<CreatedSandbox>,
    ) -> Reply<CreatedSandbox> {
        let id = match self.admitted(owner, key) {
            Ok(id) => id,
            Err(reply) => return reply,
        };
        let digest = request_digest(body).unwrap();
        let result = self
            .store
            .execute(&self.journal, id, digest, |sandbox_id| Some(create(sandbox_id)));
        create_keyed_sandbox(result.map_err(Some))
    }
}

fn text_of(bits: u128) -> String {
    SandboxId { bits }.to_text()
}

fn shown(reply: Reply<AllocationReceipt>) -> AllocationReceipt {
    match reply {
        Reply::Success(receipt) => receipt,
        other => panic!("a receipt is shown, not {other:?}"),
    }
}

fn status<T>(reply: Reply<T>) -> Status {
    match reply {
        Reply::Refused(status, error) => {
            assert!(error.code >= 400);
            status
        }
        _ => panic!("the request is refused"),
    }
}

fn body(template: &str, token: &str) -> Json {
    Json::Object(vec![
        ("templateID".to_string(), Json::Text(template.to_string())),
        ("secure".to_string(), Json::Bool(true)),
        (
            "envVars".to_string(),
            Json::Object(vec![("TOKEN".to_string(), Json::Text(token.to_string()))]),
        ),
    ])
}

#[test]
fn a_cancelled_key_refuses_a_late_create_and_keeps_its_receipt() {
    let mut node = Node::new();
    let owner = node.owner();
    let id = fresh_uuid();
    let key = text_of(id);
    assert_eq!(status(node.get(&owner, &key)), Status::NotFound);
    let receipt = shown(node.delete(&owner, &key));
    assert_eq!(receipt.version, 1);
    assert_eq!(text_of(receipt.owner_id), owner);
    assert_eq!(receipt.allocation_id, id);
    assert_eq!(receipt.sandbox_id, None);
    assert_eq!(receipt.request_digest, None);
    assert_eq!(receipt.state, AllocationState::Cancelled);
    assert!(receipt.cancel_requested);
    let late = node.post(
        &owner,
        &key,
        body("never-resolve-after-cancel", "none"),
        |_| panic!("a fenced key creates nothing"),
    );
    assert_eq!(status(late), Status::Conflict);
    let again = shown(node.get(&owner, &key));
    assert_eq!(again.state, AllocationState::Cancelled);
    assert_eq!(again.sandbox_id, None);
}

#[test]
fn allocation_http_failure_replay_and_changed_request_keep_original_id() {
    let mut node = Node::new();
    let owner = node.owner();
    let key = text_of(fresh_uuid());
    let request = || body("unsupported-by-mock", "private-fixture-value");
    let first = node.post(&owner, &key, request(), |_| {
        refuse(Status::ServerError, 500, "unsupported")
    });
    assert_eq!(status(first), Status::ServerError);
    let receipt = shown(node.get(&owner, &key));
    assert_eq!(receipt.state, AllocationState::Settled);
    assert!(receipt.sandbox_id.is_some());
    assert!(!format!("{receipt:?}").contains("private-fixture-value"));
    let replay = node.post(&owner, &key, request(), |_| panic!("a replay creates nothing"));
    assert_eq!(status(replay), Status::Conflict);
    let changed = node.post(&owner, &key, body("unsupported-by-mock", "changed"), |_| {
        panic!("a changed request creates nothing")
    });
    assert_eq!(status(changed), Status::Conflict);
    let again = shown(node.get(&owner, &key));
    assert_eq!(again.sandbox_id, receipt.sandbox_id);
    assert_eq!(again.request_digest, receipt.request_digest);
    assert_eq!(again.state, receipt.state);
}
