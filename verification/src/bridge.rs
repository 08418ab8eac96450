//! The completion bridge as a whole: the token, its waker cell, the task
//! that polls and the backend thread that calls back, with every order in
//! which their steps can fall.
//!
//! The steps are those of `crate::io`: a poll is `AioCompletion::poll`, the
//! callback is `aio_callback`, letting go is `AioCompletion::release`.
//! Continuations are numbered in the order in which the task hands them to
//! the token.

use crate::io::{spec_callback, spec_poll, spec_release, Poll};
use vstd::prelude::*;

verus! {

/// One step in the life of a completion token.
pub ghost enum Event {
    /// The native operation finishes.
    Complete,
    /// The backend's callback thread runs the callback.
    Fire,
    /// The task polls. It has asked the native layer whether the operation
    /// is complete, and `sees_complete` is the answer it got, which the
    /// operation may have overtaken since.
    Poll { sees_complete: bool },
    /// The task lets go of the token.
    Release,
}

/// The state of a completion token and of all that surrounds it.
pub ghost struct Bridge {
    /// The content of the waker cell.
    pub cell: Option<nat>,
    /// The native operation has finished.
    pub complete: bool,
    /// The callback has run.
    pub fired: bool,
    /// The task has let go of the token.
    pub released: bool,
    /// How often the task has been handed the terminal result.
    pub resolved: nat,
    /// How many continuations the task has handed to the token. Each is
    /// put into the cell, or, where the callback has run, handed straight
    /// back to be invoked.
    pub installed: nat,
    /// The continuations that have been invoked, in order.
    pub woken: Seq<nat>,
    /// The continuations that have been dropped without being invoked.
    pub dropped: Seq<nat>,
}

impl Bridge {
    /// A token that has just been made and handed to a native operation.
    pub open spec fn init() -> Bridge {
        Bridge {
            cell: None,
            complete: false,
            fired: false,
            released: false,
            resolved: 0,
            installed: 0,
            woken: Seq::empty(),
            dropped: Seq::empty(),
        }
    }

    /// How many parties still hold the waker cell: the token until it is
    /// released, the callback until it has run.
    pub open spec fn owners(self) -> nat {
        (if self.released {
            0nat
        } else {
            1nat
        }) + (if self.fired {
            0nat
        } else {
            1nat
        })
    }

    /// Whether `event` can happen in this state.
    ///
    /// An operation finishes once, and the callback runs once, after that.
    /// The task polls only while it holds the token and has not been handed
    /// the result, and the native layer never reports an unfinished
    /// operation as complete. The token is let go once.
    pub open spec fn enabled(self, event: Event) -> bool {
        match event {
            Event::Complete => !self.complete,
            Event::Fire => self.complete && !self.fired,
            Event::Poll { sees_complete } => {
                &&& !self.released
                &&& self.resolved == 0
                &&& sees_complete ==> self.complete
            },
            Event::Release => !self.released,
        }
    }

    /// `woken` with `waker` added, if there is one.
    pub open spec fn with(woken: Seq<nat>, waker: Option<nat>) -> Seq<nat> {
        match waker {
            Some(w) => woken.push(w),
            None => woken,
        }
    }

    /// The state after `event`.
    pub open spec fn next(self, event: Event) -> Bridge {
        match event {
            Event::Complete => Bridge { complete: true, ..self },
            Event::Fire => {
                let after = spec_callback(self.cell);
                Bridge {
                    cell: after.0,
                    fired: true,
                    woken: Self::with(self.woken, after.1),
                    ..self
                }
            },
            Event::Poll { sees_complete } => {
                let finished = if sees_complete {
                    Some(())
                } else {
                    None
                };
                let after = spec_poll(self.cell, self.fired, finished, self.installed);
                Bridge {
                    cell: after.1,
                    resolved: if after.0 is Ready {
                        self.resolved + 1
                    } else {
                        self.resolved
                    },
                    installed: if after.0 is Ready {
                        self.installed
                    } else {
                        self.installed + 1
                    },
                    woken: Self::with(self.woken, after.2),
                    ..self
                }
            },
            Event::Release => {
                let after = spec_release(self.cell);
                Bridge {
                    cell: after.0,
                    released: true,
                    dropped: Self::with(self.dropped, after.1),
                    ..self
                }
            },
        }
    }

    /// The state after the events of `trace`, in order.
    pub open spec fn run(self, trace: Seq<Event>) -> Bridge
        decreases trace.len(),
    {
        if trace.len() == 0 {
            self
        } else {
            self.run(trace.drop_last()).next(trace.last())
        }
    }

    /// Every event of `trace` can happen where it stands.
    pub open spec fn valid(self, trace: Seq<Event>) -> bool {
        forall|i: int| 0 <= i < trace.len() ==> self.run(#[trigger] trace.take(i)).enabled(trace[i])
    }

    /// Continuation `id` is in exactly one place: in the cell, among the
    /// invoked, or among the dropped; and it occurs there once.
    pub open spec fn placed_once(self, id: nat) -> bool {
        let in_cell: nat = if self.cell == Some(id) {
            1
        } else {
            0
        };
        in_cell + count(self.woken, id) + count(self.dropped, id) == 1
    }

    /// What holds in every state that can be reached.
    pub open spec fn inv(self) -> bool {
        &&& forall|id: nat| id < self.installed ==> self.placed_once(id)
        &&& forall|id: nat|
            id >= self.installed ==> self.cell != Some(id) && count(self.woken, id) == 0 && count(
                self.dropped,
                id,
            ) == 0
        &&& self.resolved <= 1
        &&& self.resolved == 1 ==> self.complete
        &&& self.fired ==> self.complete
        &&& self.fired ==> self.cell is None
        &&& self.released ==> self.cell is None
    }
}

/// How often `id` occurs in `ids`.
pub open spec fn count(ids: Seq<nat>, id: nat) -> nat
    decreases ids.len(),
{
    if ids.len() == 0 {
        0
    } else {
        count(ids.drop_last(), id) + if ids.last() == id {
            1nat
        } else {
            0nat
        }
    }
}

proof fn lemma_count_with(ids: Seq<nat>, waker: Option<nat>, id: nat)
    ensures
        count(Bridge::with(ids, waker), id) == count(ids, id) + if waker == Some(id) {
            1nat
        } else {
            0nat
        },
{
    if let Some(w) = waker {
        assert(ids.push(w).drop_last() == ids);
    }
}

proof fn lemma_next_keeps_inv(s: Bridge, event: Event)
    requires
        s.inv(),
        s.enabled(event),
    ensures
        s.next(event).inv(),
{
    let t = s.next(event);
    assert forall|id: nat| id < t.installed implies t.placed_once(id) by {
        lemma_count_with(s.woken, s.cell, id);
        lemma_count_with(s.woken, Some(s.installed), id);
        lemma_count_with(s.dropped, s.cell, id);
        if id < s.installed {
            assert(s.placed_once(id));
        }
    }
    assert forall|id: nat| id >= t.installed implies t.cell != Some(id) && count(t.woken, id) == 0
        && count(t.dropped, id) == 0 by {
        lemma_count_with(s.woken, s.cell, id);
        lemma_count_with(s.woken, Some(s.installed), id);
        lemma_count_with(s.dropped, s.cell, id);
    }
}

proof fn lemma_valid_prefix(s: Bridge, trace: Seq<Event>)
    requires
        s.valid(trace),
        trace.len() > 0,
    ensures
        s.valid(trace.drop_last()),
        s.run(trace.drop_last()).enabled(trace.last()),
{
    let front = trace.drop_last();
    assert forall|i: int| 0 <= i < front.len() implies s.run(#[trigger] front.take(i)).enabled(
        front[i],
    ) by {
        assert(front.take(i) == trace.take(i));
    }
}

proof fn lemma_run_keeps_inv(trace: Seq<Event>)
    requires
        Bridge::init().valid(trace),
    ensures
        Bridge::init().run(trace).inv(),
    decreases trace.len(),
{
    if trace.len() > 0 {
        lemma_valid_prefix(Bridge::init(), trace);
        lemma_run_keeps_inv(trace.drop_last());
        lemma_next_keeps_inv(Bridge::init().run(trace.drop_last()), trace.last());
    }
}

/// In every order of completion, callback, polls and release, each
/// continuation is handed on exactly once, no wake is lost, and the result
/// is observed at most once.
///
/// Whatever the order of the events, and whether or not the answer that a
/// poll acts on has been overtaken by the callback: a continuation that
/// has been installed is in exactly one place, either still in the cell,
/// or invoked once, or dropped once at the release; so none is invoked
/// twice, and none is invoked after it was dropped. Once the callback has
/// run the cell is empty and stays so: every continuation that was
/// installed has been invoked, unless the task let go of the token and it
/// was dropped. The task is handed the terminal result at most once, and
/// only after the operation has finished; while it holds the token of a
/// finished operation and has not been handed the result, its next poll
/// hands it over.
pub proof fn lemma_woken_exactly_once(trace: Seq<Event>)
    requires
        Bridge::init().valid(trace),
    ensures
        ({
            let s = Bridge::init().run(trace);
            &&& forall|id: nat| id < s.installed ==> s.placed_once(id)
            &&& forall|id: nat| count(s.woken, id) <= 1
            &&& forall|id: nat| count(s.woken, id) == 1 ==> count(s.dropped, id) == 0
            &&& s.fired ==> s.cell is None
            &&& s.fired && !s.released ==> forall|id: nat|
                id < s.installed ==> count(s.woken, id) == 1
            &&& s.resolved <= 1
            &&& s.resolved == 1 ==> s.complete
            &&& s.complete && !s.released && s.resolved == 0 ==> s.enabled(
                Event::Poll { sees_complete: true },
            ) && s.next(Event::Poll { sees_complete: true }).resolved == 1
        }),
{
    let s = Bridge::init().run(trace);
    lemma_run_keeps_inv(trace);
    assert forall|id: nat| count(s.woken, id) <= 1 by {
        if id < s.installed {
            assert(s.placed_once(id));
        }
    }
    assert forall|id: nat| count(s.woken, id) == 1 implies count(s.dropped, id) == 0 by {
        if id < s.installed {
            assert(s.placed_once(id));
        }
    }
    if s.fired && !s.released {
        lemma_nothing_dropped(trace);
        assert forall|id: nat| id < s.installed implies count(s.woken, id) == 1 by {
            assert(s.placed_once(id));
        }
    }
}

proof fn lemma_nothing_dropped(trace: Seq<Event>)
    requires
        Bridge::init().valid(trace),
    ensures
        !Bridge::init().run(trace).released ==> Bridge::init().run(trace).dropped.len() == 0,
    decreases trace.len(),
{
    if trace.len() > 0 {
        lemma_valid_prefix(Bridge::init(), trace);
        lemma_nothing_dropped(trace.drop_last());
    }
}

proof fn lemma_after_release(trace: Seq<Event>, at: int, upto: int)
    requires
        Bridge::init().valid(trace),
        0 <= at < upto <= trace.len(),
        trace[at] == Event::Release,
    ensures
        ({
            let before = Bridge::init().run(trace.take(at));
            let s = Bridge::init().run(trace.take(upto));
            &&& s.released
            &&& s.cell is None
            &&& s.woken == before.woken
            &&& s.dropped == Bridge::with(before.dropped, before.cell)
            &&& s.installed == before.installed
        }),
    decreases upto,
{
    let prefix = trace.take(upto);
    assert(prefix.drop_last() == trace.take(upto - 1));
    if upto - 1 > at {
        lemma_after_release(trace, at, upto - 1);
    }
}

/// Letting go of a token whose operation has not finished is safe.
///
/// Let the task let go of the token at step `at`, before the operation has
/// finished, and let anything follow. Then the continuation that was
/// installed at that moment has been dropped and is never invoked; nothing
/// at all is invoked from then on, so a callback that arrives later finds
/// the cell empty and does nothing. The cell stays held for as long as the
/// callback can still arrive, and once the callback has run nobody holds
/// it and nothing is left in it.
pub proof fn lemma_release_before_completion(trace: Seq<Event>, at: int)
    requires
        Bridge::init().valid(trace),
        0 <= at < trace.len(),
        trace[at] == Event::Release,
        !Bridge::init().run(trace.take(at)).complete,
    ensures
        ({
            let before = Bridge::init().run(trace.take(at));
            let s = Bridge::init().run(trace);
            &&& before.cell matches Some(waker) ==> count(s.dropped, waker) == 1 && count(
                s.woken,
                waker,
            ) == 0
            &&& s.woken == before.woken
            &&& s.cell is None
            &&& !s.fired ==> s.owners() == 1
            &&& s.fired ==> s.owners() == 0
        }),
{
    lemma_after_release(trace, at, trace.len() as int);
    assert(trace.take(trace.len() as int) == trace);
    lemma_run_keeps_inv(trace);
    let before = Bridge::init().run(trace.take(at));
    let s = Bridge::init().run(trace);
    if let Some(waker) = before.cell {
        lemma_count_with(before.dropped, before.cell, waker);
        assert forall|i: int| 0 <= i < trace.take(at).len() implies Bridge::init().run(
            #[trigger] trace.take(at).take(i),
        ).enabled(trace.take(at)[i]) by {
            assert(trace.take(at).take(i) == trace.take(i));
        }
        lemma_run_keeps_inv(trace.take(at));
        assert(s.placed_once(waker));
    }
}

} // verus!
