//! The vocabulary shared with the driver: the calls the crate asks for and
//! the replies it is given.
//!
//! A driver owns the native handles. It performs each `Call` it is handed,
//! reports the outcome as a `Reply`, and asks the operation again with the
//! replies gathered so far. When the operation is `Done`, or when the task
//! that runs it is abandoned, the driver gives back what the operation's
//! calls have taken: it makes the calls of `held`.

use crate::errors::{check_error, failure, Error, ErrorView};
use vstd::prelude::*;

verus! {

/// The native entry point a `Call` is made to.
#[derive(Clone, Copy, Debug, PartialEq, Eq, Structural)]
pub enum Op {
    /// Make a cluster handle for cluster `key` and user `name`. The reply's
    /// first value is the handle.
    Create,
    /// Read the configuration file at path `key` into cluster `handle`.
    ReadConfig,
    /// Connect cluster `handle`.
    Connect,
    /// Shut cluster `handle` down.
    Shutdown,
    /// Look pool `key` up on cluster `handle`.
    PoolLookup,
    /// Create pool `key` on cluster `handle`.
    PoolCreate,
    /// Delete pool `key` on cluster `handle`.
    PoolDelete,
    /// List the pools of cluster `handle` into a buffer of `size` bytes.
    /// The reply's code is the length the listing needs, its data the
    /// buffer.
    PoolList,
    /// Open a context on pool `key` of cluster `handle`. The reply's first
    /// value is the context.
    OpenContext,
    /// Allocate a completion token. The reply's first value is the token.
    CreateCompletion,
    /// Suspend until `completion` has resolved. The reply's code is the
    /// operation's return value.
    Await,
    /// Start a stat of object `key` in context `handle`. Once resolved, the
    /// values of the `Await` reply are size, seconds and nanoseconds.
    Stat,
    /// Start a read of `size` bytes at `offset` of object `key`. Once
    /// resolved, the data of the `Await` reply is what was read.
    Read,
    /// Start a write of `data` at `offset` of object `key`.
    Write,
    /// Start replacing object `key` by `data`.
    WriteFull,
    /// Start appending `data` to object `key`.
    Append,
    /// Start fetching attribute `name` of object `key` into a buffer of
    /// `size` bytes. Once resolved, the data of the `Await` reply is the
    /// buffer.
    GetXattr,
    /// Start opening an iterator over the attributes of object `key`. Once
    /// resolved, the first value of the `Await` reply is the iterator.
    GetXattrs,
    /// Start setting attribute `name` of object `key` to `data`.
    SetXattr,
    /// Start removing object `key`.
    Remove,
    /// Resize object `key` to `offset` bytes.
    Truncate,
    /// Advance attribute iterator `handle`. The reply's name and data are
    /// the attribute; a reply without a name ends the iteration.
    XattrsNext,
    /// Release attribute iterator `handle`.
    XattrsEnd,
    /// Open a cursor over the objects of context `handle`. The reply's
    /// first value is the cursor.
    ListOpen,
    /// Advance cursor `handle`. The reply's name is the entry.
    ListNext,
    /// Release cursor `handle`.
    ListClose,
    /// Read the usage counters of the pool of context `handle` into the
    /// reply's values.
    PoolStat,
    /// Create snapshot `name` of the pool of context `handle`.
    SnapCreate,
    /// Remove snapshot `name`.
    SnapRemove,
    /// Roll object `key` back to snapshot `name`.
    SnapRollback,
    /// List snapshot ids into a buffer of `size` ids. The reply's code is
    /// their number, its values the ids.
    SnapList,
    /// Look snapshot `name` up. The reply's first value is its id.
    SnapLookup,
    /// Fetch the name of snapshot `offset` into a buffer of `size` bytes.
    /// The reply's data is the buffer.
    SnapGetName,
    /// Destroy context `handle`.
    DestroyContext,
    /// Release completion token `completion`.
    ReleaseCompletion,
}

/// One call into the native client library, with every argument in the
/// form the library takes. Which fields a call reads is said at its `Op`;
/// the others are empty or zero.
#[derive(Clone, Debug)]
pub struct Call {
    pub op: Op,
    /// The cluster, context, iterator or cursor the call is made on.
    pub handle: u64,
    /// The completion token of an asynchronous call.
    pub completion: u64,
    /// The terminated name of what the call acts on.
    pub key: Vec<u8>,
    /// A second terminated name: an attribute, a snapshot, a user.
    pub name: Vec<u8>,
    /// The bytes to store.
    pub data: Vec<u8>,
    /// A position in an object, an object size or a snapshot id.
    pub offset: u64,
    /// A number of bytes to read or the capacity of the output buffer.
    pub size: usize,
}

/// A `Call` as a mathematical value.
pub ghost struct CallView {
    pub op: Op,
    pub handle: u64,
    pub completion: u64,
    pub key: Seq<u8>,
    pub name: Seq<u8>,
    pub data: Seq<u8>,
    pub offset: u64,
    pub size: usize,
}

impl View for Call {
    type V = CallView;

    open spec fn view(&self) -> CallView {
        CallView {
            op: self.op,
            handle: self.handle,
            completion: self.completion,
            key: self.key@,
            name: self.name@,
            data: self.data@,
            offset: self.offset,
            size: self.size,
        }
    }
}

impl DeepView for Call {
    type V = CallView;

    open spec fn deep_view(&self) -> CallView {
        self@
    }
}

impl CallView {
    /// A call that takes nothing but a handle.
    pub open spec fn on(op: Op, handle: u64) -> CallView {
        CallView {
            op,
            handle,
            completion: 0,
            key: Seq::empty(),
            name: Seq::empty(),
            data: Seq::empty(),
            offset: 0,
            size: 0,
        }
    }

    /// The call with this completion token.
    pub open spec fn with_completion(self, completion: u64) -> CallView {
        CallView { completion, ..self }
    }

    /// The call with this name of what it acts on.
    pub open spec fn with_key(self, key: Seq<u8>) -> CallView {
        CallView { key, ..self }
    }

    /// The call with this second name.
    pub open spec fn with_name(self, name: Seq<u8>) -> CallView {
        CallView { name, ..self }
    }

    /// The call with these bytes to store.
    pub open spec fn with_data(self, data: Seq<u8>) -> CallView {
        CallView { data, ..self }
    }

    /// The call with this position, size or id.
    pub open spec fn with_offset(self, offset: u64) -> CallView {
        CallView { offset, ..self }
    }

    /// The call with this length or capacity.
    pub open spec fn with_size(self, size: usize) -> CallView {
        CallView { size, ..self }
    }
}

impl CallView {
    /// The call that gives back what this call, answered by `reply`, has
    /// put into the driver's hands for the time of the operation: a pool
    /// context, a completion token, or the attribute iterator that is
    /// handed out by a wait for the opening of one. `before` is the entry
    /// point of the call made just before this one.
    pub open spec fn release_after(self, before: Option<Op>, reply: ReplyView) -> Option<CallView> {
        if reply.failed() {
            None
        } else if self.op == Op::OpenContext {
            Some(CallView::on(Op::DestroyContext, reply.value(0)))
        } else if self.op == Op::CreateCompletion {
            Some(CallView::on(Op::ReleaseCompletion, 0).with_completion(reply.value(0)))
        } else if self.op == Op::Await && before == Some(Op::GetXattrs) && reply.value(0) != 0 {
            Some(CallView::on(Op::XattrsEnd, reply.value(0)))
        } else {
            None
        }
    }

    /// How a stage that consists of this one call stands after `replies`:
    /// the call is asked for, and the stage ends with the reply to it
    /// unless the backend refused.
    pub open spec fn ask(self, replies: Seq<ReplyView>) -> StepView<ReplyView> {
        if replies.len() == 0 {
            StepView::Call(self)
        } else if replies[0].failed() {
            StepView::Done(Err(replies[0].failure()))
        } else {
            StepView::Done(Ok(replies[0]))
        }
    }
}

impl Call {
    /// The call that gives back what this call, answered by `reply`, has
    /// put into the driver's hands for the time of the operation.
    pub fn release_after(&self, before: Option<Op>, reply: &Reply) -> (back: Option<Call>)
        ensures
            back.deep_view() == self@.release_after(before, reply@),
    {
        if reply.code < 0 {
            return None;
        }
        match self.op {
            Op::OpenContext => Some(Call::on(Op::DestroyContext, reply.value(0))),
            Op::CreateCompletion => Some(
                Call::on(Op::ReleaseCompletion, 0).with_completion(reply.value(0)),
            ),
            Op::Await => match before {
                Some(Op::GetXattrs) => if reply.value(0) != 0 {
                    Some(Call::on(Op::XattrsEnd, reply.value(0)))
                } else {
                    None
                },
                _ => None,
            },
            _ => None,
        }
    }

    /// A stage that consists of this one call.
    pub fn ask<'a>(self, replies: &'a [Reply]) -> (step: Step<&'a Reply>)
        ensures
            step.deep_view() == self@.ask(replies.deep_view()),
    {
        if replies.len() == 0 {
            return Step::Call(self);
        }
        match replies[0].check() {
            Err(e) => Step::Done(Err(e)),
            Ok(()) => Step::Done(Ok(&replies[0])),
        }
    }

    /// A call that takes nothing but a handle.
    pub fn on(op: Op, handle: u64) -> (call: Call)
        ensures
            call@ == CallView::on(op, handle),
    {
        Call {
            op,
            handle,
            completion: 0,
            key: Vec::new(),
            name: Vec::new(),
            data: Vec::new(),
            offset: 0,
            size: 0,
        }
    }

    /// The call with this completion token.
    pub fn with_completion(self, completion: u64) -> (call: Call)
        ensures
            call@ == self@.with_completion(completion),
    {
        Call { completion, ..self }
    }

    /// The call with this name of what it acts on.
    pub fn with_key(self, key: Vec<u8>) -> (call: Call)
        ensures
            call@ == self@.with_key(key@),
    {
        Call { key, ..self }
    }

    /// The call with this second name.
    pub fn with_name(self, name: Vec<u8>) -> (call: Call)
        ensures
            call@ == self@.with_name(name@),
    {
        Call { name, ..self }
    }

    /// The call with these bytes to store.
    pub fn with_data(self, data: Vec<u8>) -> (call: Call)
        ensures
            call@ == self@.with_data(data@),
    {
        Call { data, ..self }
    }

    /// The call with this position, size or id.
    pub fn with_offset(self, offset: u64) -> (call: Call)
        ensures
            call@ == self@.with_offset(offset),
    {
        Call { offset, ..self }
    }

    /// The call with this length or capacity.
    pub fn with_size(self, size: usize) -> (call: Call)
        ensures
            call@ == self@.with_size(size),
    {
        Call { size, ..self }
    }
}

/// What the native layer answered to one call.
#[derive(Clone, Debug, Default)]
pub struct Reply {
    /// The call's return value, negative on failure. For `Op::Await` it is
    /// the return value of the operation awaited.
    pub code: i32,
    /// The backend's description of the failure, as the bytes of its C
    /// string. Read only where `code` is negative.
    pub message: Vec<u8>,
    /// The name the call handed out.
    pub name: Vec<u8>,
    /// What the call left in its output buffer.
    pub data: Vec<u8>,
    /// The call's numeric out-parameters, in the order of the native
    /// signature. One that the call did not write reads as zero.
    pub values: Vec<u64>,
}

/// A `Reply` as a mathematical value.
pub ghost struct ReplyView {
    pub code: i32,
    pub message: Seq<u8>,
    pub name: Seq<u8>,
    pub data: Seq<u8>,
    pub values: Seq<u64>,
}

impl View for Reply {
    type V = ReplyView;

    open spec fn view(&self) -> ReplyView {
        ReplyView {
            code: self.code,
            message: self.message@,
            name: self.name@,
            data: self.data@,
            values: self.values@,
        }
    }
}

impl DeepView for Reply {
    type V = ReplyView;

    open spec fn deep_view(&self) -> ReplyView {
        self@
    }
}

impl ReplyView {
    /// The `i`-th numeric out-parameter; zero where the call wrote none.
    pub open spec fn value(self, i: int) -> u64 {
        if 0 <= i < self.values.len() {
            self.values[i]
        } else {
            0
        }
    }
}

impl ReplyView {
    /// The call was refused.
    pub open spec fn failed(self) -> bool {
        self.code < 0
    }

    /// The error that a refused call is reported as.
    pub open spec fn failure(self) -> ErrorView {
        failure(self.code as int, self.message)
    }
}

impl Reply {
    /// Classifies the reply's status code.
    pub fn check(&self) -> (res: Result<(), Error>)
        ensures
            res is Err <==> self@.failed(),
            res matches Err(e) ==> e@ == self@.failure(),
    {
        check_error(self.code, self.message.as_slice())
    }

    /// The `i`-th numeric out-parameter; zero where the call wrote none.
    pub fn value(&self, i: usize) -> (v: u64)
        ensures
            v == self@.value(i as int),
    {
        if i < self.values.len() {
            self.values[i]
        } else {
            0
        }
    }
}

/// Where an operation stands after the replies it has been shown.
#[derive(Debug)]
pub enum Step<T> {
    /// The driver is to make this call and come back with its reply added.
    Call(Call),
    /// The operation has ended, with this result.
    Done(Result<T, Error>),
}

/// A `Step` as a mathematical value.
pub ghost enum StepView<V> {
    Call(CallView),
    Done(Result<V, ErrorView>),
}

impl<T: DeepView> DeepView for Step<T> {
    type V = StepView<T::V>;

    open spec fn deep_view(&self) -> StepView<T::V> {
        match self {
            Step::Call(call) => StepView::Call(call@),
            Step::Done(Ok(value)) => StepView::Done(Ok(value.deep_view())),
            Step::Done(Err(e)) => StepView::Done(Err(e@)),
        }
    }
}

impl<V> StepView<V> {
    /// Goes on with `next` once this stage has ended well; otherwise the
    /// operation stands where this stage stands.
    pub open spec fn and_then<W>(self, next: spec_fn(V) -> StepView<W>) -> StepView<W> {
        match self {
            StepView::Call(call) => StepView::Call(call),
            StepView::Done(Err(e)) => StepView::Done(Err(e)),
            StepView::Done(Ok(value)) => next(value),
        }
    }
}

impl<T> Step<T> {
    /// Splits off the value of a stage that has ended well. Any other stage
    /// is where the whole operation stands.
    pub(crate) fn stage<U>(self) -> (res: Result<T, Step<U>>)
        ensures
            match self {
                Step::Call(call) => res == Err::<T, Step<U>>(Step::Call(call)),
                Step::Done(Err(e)) => res == Err::<T, Step<U>>(Step::Done(Err(e))),
                Step::Done(Ok(value)) => res == Ok::<T, Step<U>>(value),
            },
    {
        match self {
            Step::Call(call) => Err(Step::Call(call)),
            Step::Done(Err(e)) => Err(Step::Done(Err(e))),
            Step::Done(Ok(value)) => Ok(value),
        }
    }
}

/// What the first `n` of `calls`, answered by the first `n` of `replies`,
/// have left in the driver's hands, as the calls that give it back, the
/// newest first.
pub open spec fn held_after(calls: Seq<CallView>, replies: Seq<ReplyView>, n: nat) -> Seq<
    CallView,
>
    decreases n,
{
    if n == 0 || n > calls.len() || n > replies.len() {
        Seq::empty()
    } else {
        let before = if n >= 2 {
            Some(calls[n - 2].op)
        } else {
            None
        };
        let older = held_after(calls, replies, (n - 1) as nat);
        match calls[n - 1].release_after(before, replies[n - 1]) {
            Some(back) => seq![back] + older,
            None => older,
        }
    }
}

/// What `calls`, answered in order by `replies`, have left in the driver's
/// hands. A call that has not been answered has left nothing.
pub open spec fn spec_held(calls: Seq<CallView>, replies: Seq<ReplyView>) -> Seq<CallView> {
    if calls.len() <= replies.len() {
        held_after(calls, replies, calls.len())
    } else {
        held_after(calls, replies, replies.len())
    }
}

/// The calls that `operation` asks for while it is shown `replies` one by
/// one: the `i`-th is what it asks for after the first `i` replies. Where
/// it has ended by then, the entry says nothing.
pub open spec fn asked<V>(
    operation: spec_fn(Seq<ReplyView>) -> StepView<V>,
    replies: Seq<ReplyView>,
) -> Seq<CallView> {
    Seq::new(
        replies.len(),
        |i: int|
            match operation(replies.take(i)) {
                StepView::Call(call) => call,
                StepView::Done(_) => arbitrary(),
            },
    )
}

/// The calls that give back what an operation has taken, the newest
/// first.
///
/// `calls` are the calls the operation has asked for so far, `replies` the
/// answers to them. Each pool context and each completion token that was
/// granted, and each attribute iterator that was opened, is given back by
/// one call; nothing else is. The driver makes these calls when the
/// operation is done and when the operation is abandoned half way.
pub fn held(calls: &[Call], replies: &[Reply]) -> (back: Vec<Call>)
    ensures
        back.deep_view() == spec_held(calls.deep_view(), replies.deep_view()),
{
    let n: usize = if calls.len() <= replies.len() {
        calls.len()
    } else {
        replies.len()
    };
    let mut back: Vec<Call> = Vec::new();
    let mut i: usize = 0;
    // after `i` rounds, `back` holds what the first `i` calls have left, the
    // oldest first; it is turned round at the end
    while i < n
        invariant
            i <= n,
            n <= calls@.len(),
            n <= replies@.len(),
            back.deep_view().reverse() == held_after(
                calls.deep_view(),
                replies.deep_view(),
                i as nat,
            ),
        decreases n - i,
    {
        let before = if i >= 1 {
            Some(calls[i - 1].op)
        } else {
            None
        };
        if let Some(call) = calls[i].release_after(before, &replies[i]) {
            back.push(call);
        }
        i += 1;
    }
    let ghost forward = back.deep_view();
    let mut turned: Vec<Call> = Vec::new();
    while back.len() > 0
        invariant
            back@.len() <= forward.len(),
            back.deep_view() == forward.take(back@.len() as int),
            turned.deep_view() == forward.skip(back@.len() as int).reverse(),
        decreases back@.len(),
    {
        let ghost rest = back.deep_view();
        let call = back.pop().unwrap();
        assert(call@ == rest.last());
        turned.push(call);
        assert(forward.skip(back@.len() as int).reverse() == forward.skip(
            back@.len() as int + 1,
        ).reverse().push(forward[back@.len() as int]));
    }
    turned
}

/// The deep view of a byte vector is its view.
pub broadcast proof fn lemma_bytes_deep_view(bytes: Vec<u8>)
    ensures
        #[trigger] bytes.deep_view() == bytes@,
{
}

/// The deep view of a vector of numbers is its view.
pub broadcast proof fn lemma_values_deep_view(values: Vec<u64>)
    ensures
        #[trigger] values.deep_view() == values@,
{
}

/// The replies from the `from`-th on.
pub(crate) fn rest(replies: &[Reply], from: usize) -> (out: &[Reply])
    requires
        from <= replies@.len(),
    ensures
        out@ == replies@.skip(from as int),
        out.deep_view() == replies.deep_view().skip(from as int),
{
    let out = vstd::slice::slice_subrange(replies, from, replies.len());
    out
}

} // verus!
