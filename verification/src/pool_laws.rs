//! What holds of a whole pass over entries and of a whole publication, entry by
//! entry, while nothing else touches the pool.

use vstd::prelude::*;

use crate::pool;
use crate::pool::{PoolView, WarmFirecracker, WarmResources};
use crate::pool_runs;

verus! {

/// How the cleanup of one entry ended.
pub enum CleanupEnd<S, I, D> {
    /// Every action succeeded.
    Cleaned,
    /// An action failed: what the entry still owned, and the message.
    Failed(WarmResources<S, I, D>, Seq<char>),
}

/// The pool when the cleanup of a held entry has ended.
pub open spec fn after_cleanup<S, I, D>(
    pool: PoolView<S, I, D>,
    end: CleanupEnd<S, I, D>,
) -> PoolView<S, I, D> {
    match end {
        CleanupEnd::Cleaned => pool.released(),
        CleanupEnd::Failed(left, _) => pool.abandoned(Some(left)),
    }
}

/// The message of a cleanup that failed.
pub open spec fn message_of<S, I, D>(end: CleanupEnd<S, I, D>) -> Seq<Seq<char>> {
    match end {
        CleanupEnd::Cleaned => Seq::empty(),
        CleanupEnd::Failed(_, message) => seq![message],
    }
}

/// The messages of the cleanups that failed, in order.
pub open spec fn messages_of<S, I, D>(ends: Seq<CleanupEnd<S, I, D>>) -> Seq<Seq<char>>
    decreases ends.len(),
{
    if ends.len() == 0 {
        Seq::empty()
    } else {
        message_of(ends[0]) + messages_of(ends.skip(1))
    }
}

/// What the entries still own whose cleanup failed, in order.
pub open spec fn owed_after<S, I, D>(ends: Seq<CleanupEnd<S, I, D>>) -> Seq<WarmResources<S, I, D>>
    decreases ends.len(),
{
    if ends.len() == 0 {
        Seq::empty()
    } else {
        match ends[0] {
            CleanupEnd::Cleaned => owed_after(ends.skip(1)),
            CleanupEnd::Failed(left, _) => seq![left] + owed_after(ends.skip(1)),
        }
    }
}

/// How many cleanups succeeded.
pub open spec fn cleaned_count<S, I, D>(ends: Seq<CleanupEnd<S, I, D>>) -> nat
    decreases ends.len(),
{
    if ends.len() == 0 {
        0
    } else {
        cleaned_count(ends.skip(1)) + (if ends[0] is Cleaned {
            1nat
        } else {
            0nat
        })
    }
}

/// A pass with the pool that it works on, and the entries that it has visited.
pub struct PassView<S, I, D> {
    pub pool: PoolView<S, I, D>,
    pub unvisited: Seq<WarmResources<S, I, D>>,
    pub visited: Seq<WarmResources<S, I, D>>,
    pub failures: Seq<Seq<char>>,
}

impl<S, I, D> PassView<S, I, D> {
    /// The pass of a shutdown that starts on a pool.
    pub open spec fn shutdown(pool: PoolView<S, I, D>) -> Self {
        PassView {
            pool: pool.after(pool::PoolStep::TakeAll),
            unvisited: pool.ready + pool.pending,
            visited: Seq::empty(),
            failures: Seq::empty(),
        }
    }

    /// The pass over the entries whose cleanup is owed.
    pub open spec fn pending(pool: PoolView<S, I, D>) -> Self {
        PassView {
            pool: pool.after(pool::PoolStep::TakePending),
            unvisited: pool.pending,
            visited: Seq::empty(),
            failures: Seq::empty(),
        }
    }

    /// The pass when the next entry has been cleaned up, or could not be. A
    /// failure is recorded.
    pub open spec fn after(self, end: CleanupEnd<S, I, D>) -> Self {
        if self.unvisited.len() == 0 {
            self
        } else {
            PassView {
                pool: after_cleanup(self.pool, end),
                unvisited: self.unvisited.skip(1),
                visited: self.visited.push(self.unvisited[0]),
                failures: self.failures + message_of(end),
            }
        }
    }

    /// The pass after several entries.
    pub open spec fn after_all(self, ends: Seq<CleanupEnd<S, I, D>>) -> Self
        decreases ends.len(),
    {
        if ends.len() == 0 {
            self
        } else {
            self.after(ends[0]).after_all(ends.skip(1))
        }
    }
}

/// A pass that is over has visited every entry once, in order. The entries whose
/// cleanup failed, with what they still own, have joined those that were owed
/// already, and nothing else has; the others have left the pool. Every failure is
/// recorded.
pub proof fn law_pass_leaves_exactly_what_failed<S, I, D>(
    pass: PassView<S, I, D>,
    ends: Seq<CleanupEnd<S, I, D>>,
)
    requires
        pass.pool.wf(),
        pass.pool.held >= pass.unvisited.len(),
        ends.len() == pass.unvisited.len(),
    ensures
        ({
            let over = pass.after_all(ends);
            &&& over.unvisited.len() == 0
            &&& over.visited == pass.visited + pass.unvisited
            &&& over.failures == pass.failures + messages_of(ends)
            &&& over.pool.wf()
            &&& over.pool == (PoolView {
                pending: pass.pool.pending + owed_after(ends),
                outstanding: (pass.pool.outstanding - cleaned_count(ends)) as nat,
                held: (pass.pool.held - ends.len()) as nat,
                ..pass.pool
            })
        }),
        cleaned_count(ends) + owed_after(ends).len() == ends.len(),
    decreases ends.len(),
{
    if ends.len() == 0 {
        assert(pass.visited + pass.unvisited =~= pass.visited);
        assert(pass.failures + messages_of(ends) =~= pass.failures);
        assert(pass.pool.pending + owed_after(ends) =~= pass.pool.pending);
    } else {
        let next = pass.after(ends[0]);
        law_pass_leaves_exactly_what_failed(next, ends.skip(1));
        let over = pass.after_all(ends);
        assert(over.visited =~= pass.visited + pass.unvisited);
        assert(over.failures =~= pass.failures + messages_of(ends));
        assert(over.pool.pending =~= pass.pool.pending + owed_after(ends));
    }
}

/// An entry is owed after a pass exactly if its cleanup failed: every failed
/// cleanup leaves its entry, and every entry left is that of a failed cleanup.
pub proof fn law_owed_means_failed<S, I, D>(ends: Seq<CleanupEnd<S, I, D>>)
    ensures
        forall|i: int|
            0 <= i < ends.len() ==> (#[trigger] ends[i] matches CleanupEnd::Failed(left, _)
                ==> owed_after(ends).contains(left)),
        forall|left: WarmResources<S, I, D>| #[trigger]
            owed_after(ends).contains(left) ==> exists|i: int|
                0 <= i < ends.len() && (#[trigger] ends[i] matches CleanupEnd::Failed(kept, _)
                    && kept == left),
    decreases ends.len(),
{
    if ends.len() > 0 {
        let rest = ends.skip(1);
        let owed = owed_after(ends);
        law_owed_means_failed(rest);
        let shift: int = owed.len() - owed_after(rest).len();
        assert forall|i: int| 0 <= i < ends.len() implies (
        #[trigger] ends[i] matches CleanupEnd::Failed(left, _) ==> owed.contains(left)) by {
            if let CleanupEnd::Failed(left, _) = ends[i] {
                if i == 0 {
                    assert(owed[0] == left);
                } else {
                    assert(rest[i - 1] == ends[i]);
                    assert(owed_after(rest).contains(left));
                    let k = choose|k: int|
                        0 <= k < owed_after(rest).len() && owed_after(rest)[k] == left;
                    assert(owed[k + shift] == left);
                }
            }
        }
        assert forall|left: WarmResources<S, I, D>| #[trigger] owed.contains(left) implies exists|
            i: int,
        |
            0 <= i < ends.len() && (#[trigger] ends[i] matches CleanupEnd::Failed(kept, _) && kept
                == left) by {
            let k = choose|k: int| 0 <= k < owed.len() && owed[k] == left;
            if k < shift {
                assert(ends[0] matches CleanupEnd::Failed(kept, _) && kept == left);
            } else {
                assert(owed_after(rest)[k - shift] == left);
                assert(owed_after(rest).contains(left));
                let i = choose|i: int|
                    0 <= i < rest.len() && (#[trigger] rest[i] matches CleanupEnd::Failed(kept, _)
                        && kept == left);
                assert(ends[i + 1] == rest[i]);
            }
        }
    }
}

/// A whole shutdown leaves a closed pool without ready entries, in which exactly
/// the entries are owed whose cleanup failed. It is confirmed exactly if every
/// cleanup succeeded and nobody else held an entry.
pub proof fn law_shutdown_leaves_exactly_what_failed<S, I, D>(
    pool: PoolView<S, I, D>,
    ends: Seq<CleanupEnd<S, I, D>>,
)
    requires
        pool.wf(),
        ends.len() == pool.ready.len() + pool.pending.len(),
    ensures
        ({
            let over = PassView::shutdown(pool).after_all(ends);
            &&& over.unvisited.len() == 0
            &&& over.visited == pool.ready + pool.pending
            &&& over.pool.closed
            &&& over.pool.ready.len() == 0
            &&& over.pool.pending == owed_after(ends)
            &&& over.pool.held == pool.held
            &&& pool_runs::cleanup_report(
                pool_runs::shutdown_failures(over.failures, over.pool.outstanding),
            ) is None <==> cleaned_count(ends) == ends.len() && pool.held == 0
        }),
{
    let pass = PassView::shutdown(pool);
    assert(pass.pool.wf());
    law_pass_leaves_exactly_what_failed(pass, ends);
    lemma_messages(ends);
    let over = pass.after_all(ends);
    assert(over.visited =~= pool.ready + pool.pending);
    assert(over.pool.pending =~= owed_after(ends));
    assert(over.failures =~= messages_of(ends));
    pool_runs::law_shutdown_confirms_absence(over.failures, over.pool.outstanding);
}

proof fn lemma_messages<S, I, D>(ends: Seq<CleanupEnd<S, I, D>>)
    ensures
        messages_of(ends).len() == owed_after(ends).len(),
    decreases ends.len(),
{
    if ends.len() > 0 {
        lemma_messages(ends.skip(1));
    }
}

/// What became of one result of a batch of creations.
pub enum Fate<S, I, D> {
    /// The entry can be acquired.
    Ready(WarmResources<S, I, D>),
    /// The entry was cleaned up and has left the pool.
    Cleaned,
    /// The cleanup of the entry failed: what it still owned.
    Owed(WarmResources<S, I, D>),
    /// The creation had failed.
    NotCreated(Seq<char>),
}

/// What became of an entry that was cleaned up, or could not be.
pub open spec fn fate_after<S, I, D>(end: CleanupEnd<S, I, D>) -> Fate<S, I, D> {
    match end {
        CleanupEnd::Cleaned => Fate::Cleaned,
        CleanupEnd::Failed(left, _) => Fate::Owed(left),
    }
}

/// What became of each result of a batch: entries are ready as long as there is
/// room, and the others are cleaned up, each with the end given at its place.
pub open spec fn fates<S, I, D>(
    room: int,
    results: Seq<Result<WarmFirecracker<S, I, D>, String>>,
    ends: Seq<CleanupEnd<S, I, D>>,
) -> Seq<Fate<S, I, D>>
    decreases results.len(),
{
    if results.len() == 0 {
        Seq::empty()
    } else {
        match results[0] {
            Err(message) => seq![Fate::NotCreated(message@)] + fates(
                room,
                results.skip(1),
                ends.skip(1),
            ),
            Ok(warm) => if room > 0 {
                seq![Fate::Ready(warm.contents()->0)] + fates(
                    room - 1,
                    results.skip(1),
                    ends.skip(1),
                )
            } else {
                seq![fate_after(ends[0])] + fates(room, results.skip(1), ends.skip(1))
            },
        }
    }
}

/// The entries that became ready, in order.
pub open spec fn became_ready<S, I, D>(fates: Seq<Fate<S, I, D>>) -> Seq<WarmResources<S, I, D>>
    decreases fates.len(),
{
    if fates.len() == 0 {
        Seq::empty()
    } else {
        match fates[0] {
            Fate::Ready(resources) => seq![resources] + became_ready(fates.skip(1)),
            _ => became_ready(fates.skip(1)),
        }
    }
}

/// The entries whose cleanup is owed, in order.
pub open spec fn became_owed<S, I, D>(fates: Seq<Fate<S, I, D>>) -> Seq<WarmResources<S, I, D>>
    decreases fates.len(),
{
    if fates.len() == 0 {
        Seq::empty()
    } else {
        match fates[0] {
            Fate::Owed(left) => seq![left] + became_owed(fates.skip(1)),
            _ => became_owed(fates.skip(1)),
        }
    }
}

/// How many entries were cleaned up.
pub open spec fn became_clean<S, I, D>(fates: Seq<Fate<S, I, D>>) -> nat
    decreases fates.len(),
{
    if fates.len() == 0 {
        0
    } else {
        became_clean(fates.skip(1)) + (if fates[0] is Cleaned {
            1nat
        } else {
            0nat
        })
    }
}

/// A publication with the pool that it works on.
pub struct PublicationView<S, I, D> {
    pub pool: PoolView<S, I, D>,
    pub unvisited: Seq<Result<WarmFirecracker<S, I, D>, String>>,
    pub saw_failure: bool,
    pub failures: Seq<Seq<char>>,
}

impl<S, I, D> PublicationView<S, I, D> {
    /// How many more entries the pool takes.
    pub open spec fn room(self) -> int {
        self.pool.limits.high_watermark - self.pool.ready.len()
    }

    /// The publication when the next result has been dealt with. The end is that
    /// of the cleanup, where there is one.
    pub open spec fn after(self, end: CleanupEnd<S, I, D>) -> Self {
        if self.unvisited.len() == 0 {
            self
        } else {
            let rest = PublicationView { unvisited: self.unvisited.skip(1), ..self };
            match self.unvisited[0] {
                Err(message) => PublicationView {
                    saw_failure: true,
                    failures: self.failures.push(message@),
                    ..rest
                },
                Ok(warm) => if self.pool.ready.len() < self.pool.limits.high_watermark {
                    PublicationView {
                        pool: self.pool.after(pool::PoolStep::Publish(warm.contents()->0)),
                        ..rest
                    }
                } else {
                    PublicationView {
                        pool: after_cleanup(self.pool, end),
                        failures: self.failures + message_of(end),
                        ..rest
                    }
                },
            }
        }
    }

    /// The publication after several results.
    pub open spec fn after_all(self, ends: Seq<CleanupEnd<S, I, D>>) -> Self
        decreases ends.len(),
    {
        if ends.len() == 0 {
            self
        } else {
            self.after(ends[0]).after_all(ends.skip(1))
        }
    }
}

/// A publication that is over has dealt with every result. The entries that became
/// ready follow those that were, the entries whose cleanup failed follow those that
/// were owed, the cleaned ones have left the pool, and no other entry has moved. A
/// failure is reported exactly if a creation had failed.
pub proof fn law_publication_loses_no_entry<S, I, D>(
    publication: PublicationView<S, I, D>,
    ends: Seq<CleanupEnd<S, I, D>>,
)
    requires
        publication.pool.wf(),
        pool_runs::all_intact(publication.unvisited),
        publication.pool.held >= pool_runs::entry_count(publication.unvisited),
        ends.len() == publication.unvisited.len(),
    ensures
        ({
            let over = publication.after_all(ends);
            let fates = fates(publication.room(), publication.unvisited, ends);
            let pool = publication.pool;
            &&& over.unvisited.len() == 0
            &&& over.saw_failure == (publication.saw_failure || exists|i: int|
                0 <= i < publication.unvisited.len() && #[trigger] publication.unvisited[i] is Err)
            &&& over.pool.wf()
            &&& over.pool == (PoolView {
                ready: pool.ready + became_ready(fates),
                pending: pool.pending + became_owed(fates),
                outstanding: (pool.outstanding - became_clean(fates)) as nat,
                held: (pool.held - pool_runs::entry_count(publication.unvisited)) as nat,
                ..pool
            })
            &&& became_ready(fates).len() + became_owed(fates).len() + became_clean(fates)
                == pool_runs::entry_count(publication.unvisited)
        }),
    decreases ends.len(),
{
    let pool = publication.pool;
    let results = publication.unvisited;
    let all = fates(publication.room(), results, ends);
    let over = publication.after_all(ends);
    if ends.len() == 0 {
        assert(pool.ready + became_ready(all) =~= pool.ready);
        assert(pool.pending + became_owed(all) =~= pool.pending);
    } else {
        let next = publication.after(ends[0]);
        let rest = fates(next.room(), next.unvisited, ends.skip(1));
        assert forall|i: int| 0 <= i < next.unvisited.len() implies (
        #[trigger] next.unvisited[i] matches Ok(warm) ==> warm.contents() is Some && (
        warm.contents()->0).slot is Some) by {
            assert(next.unvisited[i] == results[i + 1]);
        }
        assert(results[0] matches Ok(warm) ==> warm.contents() is Some);
        law_publication_loses_no_entry(next, ends.skip(1));
        assert(all.skip(1) =~= rest);
        assert(over.pool.ready =~= pool.ready + became_ready(all));
        assert(over.pool.pending =~= pool.pending + became_owed(all));
        if exists|i: int| 0 <= i < results.len() && #[trigger] results[i] is Err {
            let i = choose|i: int| 0 <= i < results.len() && #[trigger] results[i] is Err;
            if i > 0 {
                assert(next.unvisited[i - 1] is Err);
            }
        }
        if exists|i: int| 0 <= i < next.unvisited.len() && #[trigger] next.unvisited[i] is Err {
            let i = choose|i: int|
                0 <= i < next.unvisited.len() && #[trigger] next.unvisited[i] is Err;
            assert(results[i + 1] is Err);
        }
    }
}

/// Every entry of a batch is ready, cleaned up or owed once it is published: a
/// ready one as it was created, and an owed one with what its cleanup left.
pub proof fn law_every_created_entry_has_its_fate<S, I, D>(
    room: int,
    results: Seq<Result<WarmFirecracker<S, I, D>, String>>,
    ends: Seq<CleanupEnd<S, I, D>>,
    i: int,
)
    requires
        ends.len() == results.len(),
        0 <= i < results.len(),
    ensures
        ({
            let all = fates(room, results, ends);
            &&& all.len() == results.len()
            &&& match results[i] {
                Err(message) => all[i] == Fate::<S, I, D>::NotCreated(message@),
                Ok(warm) => {
                    ||| all[i] == Fate::Ready(warm.contents()->0) && became_ready(all).contains(
                        warm.contents()->0,
                    )
                    ||| all[i] is Cleaned && ends[i] is Cleaned
                    ||| ends[i] matches CleanupEnd::Failed(left, _) && all[i] == Fate::Owed(left)
                        && became_owed(all).contains(left)
                },
            }
        }),
    decreases results.len(),
{
    let all = fates(room, results, ends);
    let left_room = if results[0] is Ok && room > 0 {
        room - 1
    } else {
        room
    };
    let rest = fates(left_room, results.skip(1), ends.skip(1));
    assert(all.skip(1) =~= rest);
    lemma_fates_len(room, results, ends);
    if i > 0 {
        law_every_created_entry_has_its_fate(left_room, results.skip(1), ends.skip(1), i - 1);
        assert(all[i] == rest[i - 1]);
        let ready_shift: int = became_ready(all).len() - became_ready(rest).len();
        let owed_shift: int = became_owed(all).len() - became_owed(rest).len();
        if let Ok(warm) = results[i] {
            let made = warm.contents()->0;
            if became_ready(rest).contains(made) {
                let k = choose|k: int|
                    0 <= k < became_ready(rest).len() && became_ready(rest)[k] == made;
                assert(became_ready(all)[k + ready_shift] == made);
            }
            if let CleanupEnd::Failed(left, _) = ends[i] {
                if became_owed(rest).contains(left) {
                    let k = choose|k: int|
                        0 <= k < became_owed(rest).len() && became_owed(rest)[k] == left;
                    assert(became_owed(all)[k + owed_shift] == left);
                }
            }
        }
    } else if let Ok(warm) = results[0] {
        if room > 0 {
            assert(became_ready(all)[0] == warm.contents()->0);
        } else if let CleanupEnd::Failed(left, _) = ends[0] {
            assert(became_owed(all)[0] == left);
        }
    }
}

proof fn lemma_fates_len<S, I, D>(
    room: int,
    results: Seq<Result<WarmFirecracker<S, I, D>, String>>,
    ends: Seq<CleanupEnd<S, I, D>>,
)
    ensures
        fates(room, results, ends).len() == results.len(),
    decreases results.len(),
{
    if results.len() > 0 {
        let left_room = if results[0] is Ok && room > 0 {
            room - 1
        } else {
            room
        };
        lemma_fates_len(left_room, results.skip(1), ends.skip(1));
    }
}

} // verus!
