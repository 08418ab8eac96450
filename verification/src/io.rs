//! Pool contexts, completion tokens, and the bridge from the backend's
//! completion callback to a suspended task.

use crate::errors::{Error, ErrorView};
use crate::native::{Call, CallView, Op, Reply, ReplyView, Step, StepView, rest};
use crate::rados::Rados;
use crate::utils::{encode_name, encoded};
use vstd::prelude::*;

verus! {

/// A handle scoped to one pool of one session. It is made for a single
/// operation and given back when the operation ends.
#[derive(Clone, Copy, Debug)]
pub struct IoCtx {
    /// The native context handle.
    pub ptr: u64,
}

impl DeepView for IoCtx {
    type V = IoCtx;

    open spec fn deep_view(&self) -> IoCtx {
        *self
    }
}

impl IoCtx {
    /// How `new` stands after `replies`.
    pub open spec fn spec_new(rados: Rados, pool_name: Seq<char>, replies: Seq<ReplyView>)
        -> StepView<IoCtx> {
        match encoded(pool_name) {
            Err(at) => StepView::Done(Err(ErrorView::NulError(at))),
            Ok(pool) => {
                if replies.len() == 0 {
                    StepView::Call(CallView::on(Op::OpenContext, rados.ptr).with_key(pool))
                } else if replies[0].failed() {
                    StepView::Done(Err(replies[0].failure()))
                } else {
                    StepView::Done(Ok(IoCtx { ptr: replies[0].value(0) }))
                }
            },
        }
    }

    /// The call that gives the context back.
    pub fn release(&self) -> (call: Call)
        ensures
            call@ == CallView::on(Op::DestroyContext, self.ptr),
    {
        Call::on(Op::DestroyContext, self.ptr)
    }

    /// Opens a context on the pool named `pool_name`. A name with a zero
    /// byte is refused before any call is made.
    pub fn new(rados: &Rados, pool_name: &str, replies: &[Reply]) -> (step: Step<IoCtx>)
        ensures
            step.deep_view() == Self::spec_new(*rados, pool_name@, replies.deep_view()),
    {
        let pool = match encode_name(pool_name) {
            Ok(bytes) => bytes,
            Err(at) => return Step::Done(Err(Error::NulError(at))),
        };
        if replies.len() == 0 {
            return Step::Call(Call::on(Op::OpenContext, rados.ptr).with_key(pool));
        }
        match replies[0].check() {
            Err(e) => Step::Done(Err(e)),
            Ok(()) => Step::Done(Ok(IoCtx { ptr: replies[0].value(0) })),
        }
    }
}

/// One asynchronous native operation in flight.
#[derive(Clone, Copy, Debug)]
pub struct AioCompletion {
    /// The native completion handle.
    pub ptr: u64,
}

impl DeepView for AioCompletion {
    type V = AioCompletion;

    open spec fn deep_view(&self) -> AioCompletion {
        *self
    }
}

impl AioCompletion {
    /// How `new` stands after `replies`.
    pub open spec fn spec_new(replies: Seq<ReplyView>) -> StepView<AioCompletion> {
        if replies.len() == 0 {
            StepView::Call(CallView::on(Op::CreateCompletion, 0))
        } else if replies[0].failed() {
            StepView::Done(Err(replies[0].failure()))
        } else {
            StepView::Done(Ok(AioCompletion { ptr: replies[0].value(0) }))
        }
    }

    /// Allocates a completion token. It fails with the backend's error
    /// where the native layer cannot allocate its tracking state.
    pub fn new(replies: &[Reply]) -> (step: Step<AioCompletion>)
        ensures
            step.deep_view() == Self::spec_new(replies.deep_view()),
    {
        if replies.len() == 0 {
            return Step::Call(Call::on(Op::CreateCompletion, 0));
        }
        match replies[0].check() {
            Err(e) => Step::Done(Err(e)),
            Ok(()) => Step::Done(Ok(AioCompletion { ptr: replies[0].value(0) })),
        }
    }

    /// The terminal result that a resolved operation's return value stands
    /// for.
    pub open spec fn spec_get_return_value(reply: ReplyView) -> Result<usize, ErrorView> {
        if reply.failed() {
            Err(reply.failure())
        } else {
            Ok(reply.code as usize)
        }
    }

    /// Reads the terminal result off the return value of the resolved
    /// operation: a byte count, or the backend's error.
    pub fn get_return_value(reply: &Reply) -> (res: Result<usize, Error>)
        ensures
            res matches Ok(n) ==> Self::spec_get_return_value(reply@) == Ok::<usize, ErrorView>(n),
            res matches Err(e) ==> Self::spec_get_return_value(reply@) == Err::<usize, ErrorView>(
                e@,
            ),
            res is Err <==> reply@.failed(),
    {
        match reply.check() {
            Err(e) => Err(e),
            Ok(()) => Ok(reply.code as usize),
        }
    }

    /// How an operation that has been handed to the native layer as `call`
    /// stands after `replies`: it is submitted, then awaited, and ends with
    /// the reply to the wait, whose code is the operation's return value.
    pub open spec fn spec_submit(self, call: CallView, replies: Seq<ReplyView>) -> StepView<
        ReplyView,
    > {
        if replies.len() == 0 {
            StepView::Call(call)
        } else if replies[0].failed() {
            StepView::Done(Err(replies[0].failure()))
        } else if replies.len() == 1 {
            StepView::Call(CallView::on(Op::Await, 0).with_completion(self.ptr))
        } else {
            StepView::Done(Ok(replies[1]))
        }
    }

    /// Hands `call` to the native layer and waits for it to resolve. A
    /// submission that is refused ends the operation at once, and the token
    /// is never awaited. Otherwise the operation ends with the reply to the
    /// wait, which `get_return_value` reads the terminal result off.
    pub fn submit<'a>(&self, call: Call, replies: &'a [Reply]) -> (step: Step<&'a Reply>)
        ensures
            step.deep_view() == self.spec_submit(call@, replies.deep_view()),
    {
        if replies.len() == 0 {
            return Step::Call(call);
        }
        if let Err(e) = replies[0].check() {
            return Step::Done(Err(e));
        }
        if replies.len() == 1 {
            return Step::Call(Call::on(Op::Await, 0).with_completion(self.ptr));
        }
        Step::Done(Ok(&replies[1]))
    }
}

/// The single slot through which a suspended task hands its continuation
/// to the backend's callback thread, with a mark that the callback leaves
/// behind. Every access is one exchange of the slot's content, so that a
/// continuation put in is taken out by exactly one party; and once the
/// callback has run nothing is put in any more.
#[derive(Debug)]
pub struct WakerCell<W> {
    slot: Option<W>,
    fired: bool,
}

impl<W> View for WakerCell<W> {
    type V = Option<W>;

    closed spec fn view(&self) -> Option<W> {
        self.slot
    }
}

impl<W> WakerCell<W> {
    #[verifier::type_invariant]
    spec fn wf(self) -> bool {
        self.fired ==> self.slot is None
    }

    /// The callback has run.
    pub closed spec fn fired(&self) -> bool {
        self.fired
    }

    /// An empty cell that no callback has touched.
    pub fn new() -> (cell: Self)
        ensures
            cell@ is None,
            !cell.fired(),
    {
        WakerCell { slot: None, fired: false }
    }

    /// Whether the callback has run.
    pub fn has_fired(&self) -> (fired: bool)
        ensures
            fired == self.fired(),
            fired ==> self@ is None,
    {
        proof {
            use_type_invariant(self);
        }
        self.fired
    }

    /// Empties the slot, leaves the mark as `fired`, and hands out what
    /// was in the slot.
    fn empty(&mut self, fired: bool) -> (before: Option<W>)
        ensures
            final(self)@ is None,
            final(self).fired() == fired,
            before == old(self)@,
    {
        let mut before = WakerCell { slot: None, fired };
        core::mem::swap(self, &mut before);
        before.slot
    }

    /// Puts `waker` into the slot of a cell that the callback has not
    /// touched, and hands out what was there.
    fn put(&mut self, waker: W) -> (before: Option<W>)
        requires
            !old(self).fired(),
        ensures
            final(self)@ == Some(waker),
            !final(self).fired(),
            before == old(self)@,
    {
        let mut before = WakerCell { slot: Some(waker), fired: false };
        core::mem::swap(self, &mut before);
        before.slot
    }
}

/// Whether a polled operation has resolved.
#[derive(Debug)]
pub enum Poll<T> {
    /// It has, with this terminal value.
    Ready(T),
    /// It has not; the task will be woken.
    Pending,
}

/// What installing `waker` does to a cell that holds `cell`: the content of
/// the cell afterwards, and the continuation that the caller has to
/// invoke. Before the callback has run, `waker` goes in and what it
/// supersedes comes out. After the callback has run nobody would take
/// `waker` out again, so it comes straight back.
pub open spec fn spec_set_waker<W>(cell: Option<W>, fired: bool, waker: W) -> (
    Option<W>,
    Option<W>,
) {
    if fired {
        (None, Some(waker))
    } else {
        (Some(waker), cell)
    }
}

/// What one poll does: the outcome, the content of the cell afterwards, and
/// the continuation that the caller has to invoke.
pub open spec fn spec_poll<W, T>(cell: Option<W>, fired: bool, finished: Option<T>, waker: W) -> (
    Poll<T>,
    Option<W>,
    Option<W>,
) {
    match finished {
        Some(value) => (Poll::Ready(value), cell, None),
        None => (
            Poll::Pending,
            spec_set_waker(cell, fired, waker).0,
            spec_set_waker(cell, fired, waker).1,
        ),
    }
}

/// What the callback does: the content of the cell afterwards, and the
/// continuation that is to be invoked.
pub open spec fn spec_callback<W>(cell: Option<W>) -> (Option<W>, Option<W>) {
    (None, cell)
}

/// What letting go of the token does: the content of the cell afterwards,
/// and the continuation that is dropped without being invoked.
pub open spec fn spec_release<W>(cell: Option<W>) -> (Option<W>, Option<W>) {
    (None, cell)
}

impl AioCompletion {
    /// Installs `waker` as the continuation to invoke when the operation
    /// completes, and hands out the continuation that the caller has to
    /// invoke now. That is the one that `waker` supersedes; or, where the
    /// callback has run already and would never come for it, `waker`
    /// itself, and the cell stays empty.
    pub fn set_waker<W>(&self, cell: &mut WakerCell<W>, waker: W) -> (invoke: Option<W>)
        ensures
            (final(cell)@, invoke) == spec_set_waker(old(cell)@, old(cell).fired(), waker),
            final(cell).fired() == old(cell).fired(),
    {
        if cell.has_fired() {
            Some(waker)
        } else {
            cell.put(waker)
        }
    }

    /// Polls the token once.
    ///
    /// `finished` is the terminal value where the native layer has
    /// reported the operation complete. Then the poll is ready with that
    /// value, and the cell is left alone. Otherwise the poll is pending,
    /// and `waker` is installed as `set_waker` says: no callback that has
    /// run between the report and the poll goes unnoticed.
    pub fn poll<W, T>(&self, cell: &mut WakerCell<W>, finished: Option<T>, waker: W) -> (res: (
        Poll<T>,
        Option<W>,
    ))
        ensures
            (res.0, final(cell)@, res.1) == spec_poll(
                old(cell)@,
                old(cell).fired(),
                finished,
                waker,
            ),
            final(cell).fired() == old(cell).fired(),
            finished is Some ==> *final(cell) == *old(cell),
            finished is None && old(cell).fired() ==> res.0 is Pending && final(cell)@ is None
                && res.1 == Some(waker),
    {
        match finished {
            Some(value) => (Poll::Ready(value), None),
            None => {
                let invoke = self.set_waker(cell, waker);
                (Poll::Pending, invoke)
            },
        }
    }

    /// Lets go of the token: the continuation that is still installed, if
    /// any, is dropped without being invoked, and the call that releases
    /// the native tracking state is handed out.
    pub fn release<W>(&self, cell: &mut WakerCell<W>) -> (call: Call)
        ensures
            final(cell)@ == spec_release(old(cell)@).0,
            final(cell).fired() == old(cell).fired(),
            call@ == CallView::on(Op::ReleaseCompletion, 0).with_completion(self.ptr),
    {
        let fired = cell.has_fired();
        let _ = cell.empty(fired);
        Call::on(Op::ReleaseCompletion, 0).with_completion(self.ptr)
    }
}

/// What the backend's callback thread does once the operation has
/// finished: it takes whatever continuation is installed, hands it out to
/// be invoked, and leaves its mark in the cell. With none installed it
/// invokes nothing; a poll that comes later is either told of the
/// completion or finds the mark.
pub fn aio_callback<W>(cell: &mut WakerCell<W>) -> (taken: Option<W>)
    ensures
        (final(cell)@, taken) == spec_callback(old(cell)@),
        final(cell).fired(),
{
    cell.empty(true)
}

} // verus!
