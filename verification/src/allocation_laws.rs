//! What holds of an allocation store over every history of keyed requests,
//! cancellations, settlements and server restarts.

use vstd::prelude::*;

use crate::allocation;
use crate::allocation::{AllocationState, JournalView, RecordView};
use crate::digest;
use crate::ident;
use crate::ident::SandboxId;

verus! {

/// A durable store together with the keys whose operation is running.
pub struct Ledger {
    pub store: Map<u128, RecordView>,
    pub running: Set<u128>,
}

/// One critical section of the journal, or the loss of an operation.
pub enum Step {
    /// A cancellation of a key.
    Cancel { journal: JournalView, id: u128 },
    /// The claim of a key by a request, with the sandbox drawn for it.
    Claim { journal: JournalView, id: u128, digest: Seq<char>, sandbox_id: SandboxId },
    /// The end of an operation.
    Settle { journal: JournalView, id: u128, completed: bool },
    /// The loss of an operation that never ends, as when the server is killed.
    Lose { id: u128 },
}

impl Step {
    /// The key that the step is about.
    pub open spec fn id(self) -> u128 {
        match self {
            Step::Cancel { id, .. } => id,
            Step::Claim { id, .. } => id,
            Step::Settle { id, .. } => id,
            Step::Lose { id } => id,
        }
    }

    /// Whether the step is taken by a journal of an owner.
    pub open spec fn of_owner(self, owner_id: u128) -> bool {
        match self {
            Step::Cancel { journal, .. } => journal.owner_id == owner_id,
            Step::Claim { journal, .. } => journal.owner_id == owner_id,
            Step::Settle { journal, .. } => journal.owner_id == owner_id,
            Step::Lose { .. } => true,
        }
    }
}

impl Ledger {
    /// The record of a key.
    pub open spec fn stored(self, id: u128) -> Option<RecordView> {
        if self.store.contains_key(id) {
            Some(self.store[id])
        } else {
            None
        }
    }

    /// Whether a step lets an operation run: a claim of a free key with a
    /// well-formed digest.
    pub open spec fn starts(self, step: Step) -> bool {
        step matches Step::Claim { id, digest, .. } && digest::is_digest(digest)
            && !self.store.contains_key(id)
    }

    /// The ledger after a step. A step that the journal refuses changes nothing,
    /// and only an operation that runs can end.
    pub open spec fn after(self, step: Step) -> Ledger {
        match step {
            Step::Cancel { journal, id } => {
                if self.store.contains_key(id) && journal.fault(id, self.store[id].receipt) is Some {
                    self
                } else {
                    Ledger {
                        store: self.store.insert(id, journal.cancelled(id, self.stored(id))),
                        ..self
                    }
                }
            },
            Step::Claim { journal, id, digest, sandbox_id } => {
                if self.starts(step) {
                    Ledger {
                        store: self.store.insert(id, journal.claim(id, digest, sandbox_id)),
                        running: self.running.insert(id),
                    }
                } else {
                    self
                }
            },
            Step::Settle { journal, id, completed } => {
                if self.running.contains(id) && self.store.contains_key(id) && journal.fault(
                    id,
                    self.store[id].receipt,
                ) is None {
                    Ledger {
                        store: self.store.insert(id, allocation::settled(self.store[id], completed)),
                        running: self.running.remove(id),
                    }
                } else {
                    self
                }
            },
            Step::Lose { id } => Ledger { running: self.running.remove(id), ..self },
        }
    }

    /// The ledger after a history.
    pub open spec fn after_all(self, steps: Seq<Step>) -> Ledger
        decreases steps.len(),
    {
        if steps.len() == 0 {
            self
        } else {
            self.after_all(steps.drop_last()).after(steps.last())
        }
    }

    /// How many operations a history lets run for a key.
    pub open spec fn starts_of(self, id: u128, steps: Seq<Step>) -> nat
        decreases steps.len(),
    {
        if steps.len() == 0 {
            0
        } else {
            let before = self.after_all(steps.drop_last());
            let last: nat = if before.starts(steps.last()) && steps.last().id() == id {
                1
            } else {
                0
            };
            self.starts_of(id, steps.drop_last()) + last
        }
    }

    /// Whether every record is one that a journal of the owner accepts, and every
    /// running operation has an assigned record.
    pub open spec fn valid(self, owner_id: u128) -> bool {
        &&& forall|id: u128, journal: JournalView|
            self.store.contains_key(id) && journal.owner_id == owner_id
                ==> #[trigger] journal.fault(id, self.store[id].receipt) is None
        &&& forall|id: u128| #[trigger]
            self.running.contains(id) ==> self.store.contains_key(id) && allocation::is_assigned(
                self.store[id].receipt,
            )
    }
}

/// Whether every step of a history is taken by a journal of the owner.
pub open spec fn of_owner(steps: Seq<Step>, owner_id: u128) -> bool {
    forall|i: int| 0 <= i < steps.len() ==> (#[trigger] steps[i]).of_owner(owner_id)
}

/// A journal accepts every record that a journal of the same owner has left,
/// over every history and every restart.
pub proof fn law_records_stay_valid(ledger: Ledger, owner_id: u128, steps: Seq<Step>)
    requires
        ledger.valid(owner_id),
        of_owner(steps, owner_id),
    ensures
        ledger.after_all(steps).valid(owner_id),
    decreases steps.len(),
{
    if steps.len() > 0 {
        assert(of_owner(steps.drop_last(), owner_id)) by {
            assert forall|i: int| 0 <= i < steps.drop_last().len() implies (
            #[trigger] steps.drop_last()[i]).of_owner(owner_id) by {
                assert(steps[i].of_owner(owner_id));
            }
        }
        law_records_stay_valid(ledger, owner_id, steps.drop_last());
        assert(steps[steps.len() - 1].of_owner(owner_id));
        let before = ledger.after_all(steps.drop_last());
        let after = before.after(steps.last());
        assert forall|id: u128, journal: JournalView|
            after.store.contains_key(id) && journal.owner_id
                == owner_id implies #[trigger] journal.fault(id, after.store[id].receipt) is None by {
            if before.store.contains_key(id) {
                assert(journal.fault(id, before.store[id].receipt) is None);
            }
        }
        assert forall|id: u128| #[trigger] after.running.contains(id) implies after.store.contains_key(
            id,
        ) && allocation::is_assigned(after.store[id].receipt) by {
            if before.running.contains(id) {
                let journal = JournalView { owner_id, epoch: 0 };
                assert(journal.fault(id, before.store[id].receipt) is None);
            }
        }
    }
}

/// A record is never removed, and what it was first written with never changes:
/// its key, owner, incarnation, sandbox and request digest. A recorded
/// cancellation request stays recorded.
pub proof fn law_identity_is_permanent(ledger: Ledger, steps: Seq<Step>, id: u128)
    requires
        ledger.store.contains_key(id),
    ensures
        ({
            let was = ledger.store[id];
            let now = ledger.after_all(steps).store[id];
            &&& ledger.after_all(steps).store.contains_key(id)
            &&& now.epoch == was.epoch
            &&& now.receipt.version == was.receipt.version
            &&& now.receipt.owner_id == was.receipt.owner_id
            &&& now.receipt.allocation_id == was.receipt.allocation_id
            &&& now.receipt.sandbox_id == was.receipt.sandbox_id
            &&& now.receipt.request_digest == was.receipt.request_digest
            &&& was.receipt.cancel_requested ==> now.receipt.cancel_requested
        }),
    decreases steps.len(),
{
    if steps.len() > 0 {
        law_identity_is_permanent(ledger, steps.drop_last(), id);
    }
}

/// A key lets at most one operation run, over every history, and none once the
/// key has a record: neither a failure nor a restart resets it.
pub proof fn law_operation_runs_at_most_once(ledger: Ledger, steps: Seq<Step>, id: u128)
    ensures
        ledger.starts_of(id, steps) <= 1,
        ledger.store.contains_key(id) ==> ledger.starts_of(id, steps) == 0,
        ledger.starts_of(id, steps) == 1 ==> ledger.after_all(steps).store.contains_key(id),
    decreases steps.len(),
{
    if steps.len() > 0 {
        law_operation_runs_at_most_once(ledger, steps.drop_last(), id);
        if ledger.store.contains_key(id) {
            law_identity_is_permanent(ledger, steps.drop_last(), id);
        }
    }
}

/// The claim of an operation is durable, pending and assigned to its sandbox
/// when the operation starts.
pub proof fn law_claim_precedes_operation(ledger: Ledger, step: Step)
    requires
        ledger.starts(step),
    ensures
        ({
            let after = ledger.after(step);
            &&& after.running.contains(step.id())
            &&& after.store.contains_key(step.id())
            &&& after.store[step.id()].receipt.state == AllocationState::Pending
            &&& after.store[step.id()].receipt.sandbox_id == Some(step->sandbox_id)
        }),
{
}

/// A cancellation that comes before any claim fences the key for ever: no later
/// request runs, and every later reader is shown a cancelled receipt without a
/// sandbox, whatever the incarnation.
pub proof fn law_early_cancellation_fences(
    ledger: Ledger,
    owner_id: u128,
    canceller: JournalView,
    id: u128,
    steps: Seq<Step>,
    reader: JournalView,
)
    requires
        ledger.valid(owner_id),
        canceller.owner_id == owner_id,
        !ledger.store.contains_key(id),
        of_owner(steps, owner_id),
    ensures
        ({
            let fenced = ledger.after(Step::Cancel { journal: canceller, id });
            let later = fenced.after_all(steps);
            &&& fenced.starts_of(id, steps) == 0
            &&& later.store.contains_key(id)
            &&& allocation::is_tombstone(reader.shown(later.store[id]))
        }),
{
    let cancel = Step::Cancel { journal: canceller, id };
    let fenced = ledger.after(cancel);
    let single = seq![cancel];
    assert(single.drop_last() =~= Seq::<Step>::empty());
    assert(ledger.after_all(single.drop_last()) == ledger);
    assert(ledger.after_all(single) == fenced);
    law_records_stay_valid(ledger, owner_id, single);
    law_records_stay_valid(fenced, owner_id, steps);
    law_identity_is_permanent(fenced, steps, id);
    law_operation_runs_at_most_once(fenced, steps, id);
    let later = fenced.after_all(steps);
    let journal = JournalView { owner_id, epoch: 0 };
    assert(journal.fault(id, later.store[id].receipt) is None);
}

/// Once the operation of a key has ended, its state never changes.
pub proof fn law_settlement_is_final(ledger: Ledger, steps: Seq<Step>, id: u128)
    requires
        ledger.store.contains_key(id),
        !ledger.running.contains(id),
    ensures
        ledger.after_all(steps).store[id].receipt.state == ledger.store[id].receipt.state,
        !ledger.after_all(steps).running.contains(id),
    decreases steps.len(),
{
    if steps.len() > 0 {
        law_settlement_is_final(ledger, steps.drop_last(), id);
        law_identity_is_permanent(ledger, steps.drop_last(), id);
    }
}

/// The end of an operation settles its key if the operation returned, and
/// interrupts it otherwise; either way the operation runs no more.
pub proof fn law_end_is_recorded(ledger: Ledger, journal: JournalView, id: u128, completed: bool)
    requires
        ledger.valid(journal.owner_id),
        ledger.running.contains(id),
    ensures
        ({
            let after = ledger.after(Step::Settle { journal, id, completed });
            &&& !after.running.contains(id)
            &&& after.store[id].receipt.state == (if completed {
                AllocationState::Settled
            } else {
                AllocationState::Interrupted
            })
        }),
{
    assert(journal.fault(id, ledger.store[id].receipt) is None);
}

/// A step on one key leaves the record of every other key alone.
pub proof fn law_keys_are_independent(ledger: Ledger, step: Step, other: u128)
    requires
        step.id() != other,
    ensures
        ledger.after(step).stored(other) == ledger.stored(other),
        ledger.after(step).running.contains(other) == ledger.running.contains(other),
{
}

/// Another incarnation is shown an interrupted receipt for every assigned record,
/// with the original sandbox and digest.
pub proof fn law_restart_interrupts(journal: JournalView, id: u128, record: RecordView)
    requires
        journal.fault(id, record.receipt) is None,
        record.epoch != journal.epoch,
        record.receipt.state != AllocationState::Cancelled,
    ensures
        journal.shown(record).state == AllocationState::Interrupted,
        journal.shown(record).sandbox_id == record.receipt.sandbox_id,
        journal.shown(record).request_digest == record.receipt.request_digest,
        journal.shown(record).cancel_requested == record.receipt.cancel_requested,
{
}

/// Two keys are stored under the same bytes only if they are the same key, and
/// no key is stored where the journal keeps its identity.
pub proof fn law_keys_are_stored_apart(a: u128, b: u128)
    ensures
        allocation::record_key(a) == allocation::record_key(b) ==> a == b,
        allocation::record_key(a) != allocation::format_key(),
{
    let prefix = "allocation/"@;
    let first = prefix + ident::uuid_text(a);
    let second = prefix + ident::uuid_text(b);
    vstd::utf8::encode_utf8_decode_utf8(first);
    vstd::utf8::encode_utf8_decode_utf8(second);
    vstd::utf8::encode_utf8_decode_utf8("format"@);
    reveal_strlit("allocation/");
    reveal_strlit("format");
    assert(first.len() == 47);
    if allocation::record_key(a) == allocation::record_key(b) {
        assert(first == second);
        assert(ident::uuid_text(a) =~= first.skip(prefix.len() as int));
        assert(ident::uuid_text(b) =~= second.skip(prefix.len() as int));
        ident::law_text_identifies(SandboxId { bits: a }, SandboxId { bits: b });
    }
}

} // verus!
