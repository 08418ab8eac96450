//! Operations on one object of a pool.

use crate::buffer::{
    doubled, doublings, lemma_buf_size_range, lemma_doubled_grows, lemma_doublings_bounded,
    shortfall, INITIAL_BUF_SIZE, MAX_BUF_SIZE,
};
use crate::errors::{Error, ErrorView};
use crate::io::{AioCompletion, IoCtx};
use crate::native::{
    asked, held_after, spec_held, Call, CallView, Op, Reply, ReplyView, Step, StepView,
    lemma_bytes_deep_view, rest,
};
use crate::rados::Rados;
use crate::utils::{encode_name, encoded, overlaid, overlay, truncate_to, truncated};
use crate::xattr::{lemma_drain_asks_for_the_next, RadosXattrsIter, Xattrs};
use vstd::prelude::*;

verus! {

broadcast use lemma_bytes_deep_view;

/// A named object in a pool.
#[derive(Debug)]
pub struct Object {
    name: String,
    pool_name: String,
    rados: Rados,
}

/// An `Object` as a mathematical value.
pub ghost struct ObjectView {
    pub name: Seq<char>,
    pub pool_name: Seq<char>,
    pub rados: Rados,
}

impl View for Object {
    type V = ObjectView;

    closed spec fn view(&self) -> ObjectView {
        ObjectView { name: self.name@, pool_name: self.pool_name@, rados: self.rados }
    }
}

impl DeepView for Object {
    type V = ObjectView;

    open spec fn deep_view(&self) -> ObjectView {
        self@
    }
}

/// What is known of an object's state: its size in bytes and when it was
/// last modified, in seconds and nanoseconds.
#[derive(Debug)]
pub struct Stat {
    pub size: u64,
    pub mtime: (u64, u64),
}

impl DeepView for Stat {
    type V = Stat;

    open spec fn deep_view(&self) -> Stat {
        *self
    }
}

/// The message of the error with which `get_xattr` gives up on a value that
/// outgrows `MAX_BUF_SIZE`.
pub open spec fn too_large() -> Seq<char> {
    "attribute value too large"@
}

impl ObjectView {
    /// The first stages of an operation that needs a context and then the
    /// object's name.
    pub open spec fn open(self, replies: Seq<ReplyView>) -> StepView<(IoCtx, Seq<u8>)> {
        IoCtx::spec_new(self.rados, self.pool_name, replies).and_then(
            |ctx: IoCtx|
                match encoded(self.name) {
                    Err(at) => StepView::Done(Err(ErrorView::IoError(at))),
                    Ok(key) => StepView::Done(Ok((ctx, key))),
                },
        )
    }

    /// The first stages of an asynchronous operation that needs a context,
    /// then a completion token, then the object's name.
    pub open spec fn begin(self, replies: Seq<ReplyView>) -> StepView<
        (IoCtx, AioCompletion, Seq<u8>),
    > {
        IoCtx::spec_new(self.rados, self.pool_name, replies).and_then(
            |ctx: IoCtx|
                AioCompletion::spec_new(replies.skip(1)).and_then(
                    |comp: AioCompletion|
                        match encoded(self.name) {
                            Err(at) => StepView::Done(Err(ErrorView::IoError(at))),
                            Ok(key) => StepView::Done(Ok((ctx, comp, key))),
                        },
                ),
        )
    }

    /// The call that an asynchronous operation `op` on this object submits.
    pub open spec fn call(op: Op, ctx: IoCtx, comp: AioCompletion, key: Seq<u8>) -> CallView {
        CallView::on(op, ctx.ptr).with_completion(comp.ptr).with_key(key)
    }

    /// How `stat` stands after `replies`.
    pub open spec fn stat(self, replies: Seq<ReplyView>) -> StepView<Stat> {
        self.begin(replies).and_then(
            |p: (IoCtx, AioCompletion, Seq<u8>)|
                p.1.spec_submit(Self::call(Op::Stat, p.0, p.1, p.2), replies.skip(2)).and_then(
                    |r: ReplyView|
                        match AioCompletion::spec_get_return_value(r) {
                            Err(e) => StepView::Done(Err(e)),
                            Ok(_) => StepView::Done(
                                Ok(Stat { size: r.value(0), mtime: (r.value(1), r.value(2)) }),
                            ),
                        },
                ),
        )
    }

    /// How `read` stands after `replies`.
    pub open spec fn read(self, pos: u64, len: usize, replies: Seq<ReplyView>) -> StepView<usize> {
        if len == 0 {
            StepView::Done(Ok(0))
        } else {
            self.begin(replies).and_then(
                |p: (IoCtx, AioCompletion, Seq<u8>)|
                    p.1.spec_submit(
                        Self::call(Op::Read, p.0, p.1, p.2).with_size(len).with_offset(pos),
                        replies.skip(2),
                    ).and_then(|r: ReplyView| StepView::Done(AioCompletion::spec_get_return_value(r))),
            )
        }
    }

    /// What `read` leaves in the caller's buffer after `replies`: once the
    /// read has ended well, what the backend has read, written over the
    /// start of the buffer; until then, and where it fails, what was there.
    pub open spec fn read_into(self, pos: u64, buffer: Seq<u8>, replies: Seq<ReplyView>) -> Seq<
        u8,
    > {
        match self.read(pos, buffer.len() as usize, replies) {
            StepView::Done(Ok(n)) => if buffer.len() > 0 {
                overlaid(buffer, replies[3].data, n as int)
            } else {
                buffer
            },
            _ => buffer,
        }
    }

    /// How `write` stands after `replies`.
    pub open spec fn write(self, pos: u64, buf: Seq<u8>, replies: Seq<ReplyView>) -> StepView<
        usize,
    > {
        self.begin(replies).and_then(
            |p: (IoCtx, AioCompletion, Seq<u8>)|
                p.1.spec_submit(
                    Self::call(Op::Write, p.0, p.1, p.2).with_data(buf).with_offset(pos),
                    replies.skip(2),
                ).and_then(
                    |r: ReplyView|
                        match AioCompletion::spec_get_return_value(r) {
                            Err(e) => StepView::Done(Err(e)),
                            Ok(_) => StepView::Done(Ok(buf.len() as usize)),
                        },
                ),
        )
    }

    /// How `write_full` stands after `replies`.
    pub open spec fn write_full(self, data: Seq<u8>, replies: Seq<ReplyView>) -> StepView<usize> {
        self.begin(replies).and_then(
            |p: (IoCtx, AioCompletion, Seq<u8>)|
                p.1.spec_submit(
                    Self::call(Op::WriteFull, p.0, p.1, p.2).with_data(data),
                    replies.skip(2),
                ).and_then(
                    |r: ReplyView|
                        match AioCompletion::spec_get_return_value(r) {
                            Err(e) => StepView::Done(Err(e)),
                            Ok(_) => StepView::Done(Ok(data.len() as usize)),
                        },
                ),
        )
    }

    /// How `append` stands after `replies`.
    pub open spec fn append(self, data: Seq<u8>, replies: Seq<ReplyView>) -> StepView<usize> {
        self.begin(replies).and_then(
            |p: (IoCtx, AioCompletion, Seq<u8>)|
                p.1.spec_submit(
                    Self::call(Op::Append, p.0, p.1, p.2).with_data(data),
                    replies.skip(2),
                ).and_then(
                    |r: ReplyView|
                        match AioCompletion::spec_get_return_value(r) {
                            Err(e) => StepView::Done(Err(e)),
                            Ok(_) => StepView::Done(Ok(data.len() as usize)),
                        },
                ),
        )
    }

    /// How the fetching of attribute `name` stands after `replies`, when
    /// the next attempt is to be made with a buffer of `capacity` bytes.
    ///
    /// An attempt takes a fresh completion token, the submission and the
    /// wait. It ends the fetch unless the backend reports that the buffer
    /// was too small while `capacity` is below `MAX_BUF_SIZE`: then the
    /// next attempt is made with twice the capacity.
    pub open spec fn fetch(
        ctx: IoCtx,
        key: Seq<u8>,
        name: Seq<u8>,
        capacity: usize,
        replies: Seq<ReplyView>,
    ) -> StepView<Seq<u8>>
        decreases replies.len(),
    {
        if replies.len() == 0 {
            StepView::Call(CallView::on(Op::CreateCompletion, 0))
        } else if replies[0].failed() {
            StepView::Done(Err(replies[0].failure()))
        } else if replies.len() == 1 {
            StepView::Call(
                CallView::on(Op::GetXattr, ctx.ptr).with_completion(replies[0].value(0)).with_key(
                    key,
                ).with_name(name).with_size(capacity),
            )
        } else if replies[1].failed() {
            StepView::Done(Err(replies[1].failure()))
        } else if replies.len() == 2 {
            StepView::Call(CallView::on(Op::Await, 0).with_completion(replies[0].value(0)))
        } else {
            match AioCompletion::spec_get_return_value(replies[2]) {
                Ok(size) => StepView::Done(Ok(truncated(replies[2].data, size as int))),
                Err(e) => if !e.is_overflow() {
                    StepView::Done(Err(e))
                } else if capacity < MAX_BUF_SIZE {
                    Self::fetch(ctx, key, name, (capacity * 2) as usize, replies.skip(3))
                } else {
                    StepView::Done(Err(ErrorView::OtherError(too_large())))
                },
            }
        }
    }

    /// How `get_xattr` stands after `replies`.
    pub open spec fn get_xattr(self, name: Seq<char>, replies: Seq<ReplyView>) -> StepView<
        Seq<u8>,
    > {
        self.open(replies).and_then(
            |p: (IoCtx, Seq<u8>)|
                match encoded(name) {
                    Err(at) => StepView::Done(Err(ErrorView::IoError(at))),
                    Ok(attr) => Self::fetch(p.0, p.1, attr, INITIAL_BUF_SIZE, replies.skip(1)),
                },
        )
    }

    /// How `get_xattrs` stands after `replies`.
    pub open spec fn get_xattrs(self, replies: Seq<ReplyView>) -> StepView<
        Map<Seq<char>, Seq<u8>>,
    > {
        self.open(replies).and_then(
            |p: (IoCtx, Seq<u8>)|
                AioCompletion::spec_new(replies.skip(1)).and_then(
                    |comp: AioCompletion|
                        comp.spec_submit(
                            Self::call(Op::GetXattrs, p.0, comp, p.1),
                            replies.skip(2),
                        ).and_then(
                            |r: ReplyView|
                                match AioCompletion::spec_get_return_value(r) {
                                    Err(e) => StepView::Done(Err(e)),
                                    Ok(_) => Xattrs::spec_from_iter(
                                        RadosXattrsIter { ptr: r.value(0) },
                                        replies.skip(4),
                                    ),
                                },
                        ),
                ),
        )
    }

    /// How `set_xattr` stands after `replies`.
    pub open spec fn set_xattr(self, name: Seq<char>, value: Seq<u8>, replies: Seq<ReplyView>)
        -> StepView<()> {
        self.open(replies).and_then(
            |p: (IoCtx, Seq<u8>)|
                match encoded(name) {
                    Err(at) => StepView::Done(Err(ErrorView::IoError(at))),
                    Ok(attr) => AioCompletion::spec_new(replies.skip(1)).and_then(
                        |comp: AioCompletion|
                            comp.spec_submit(
                                Self::call(Op::SetXattr, p.0, comp, p.1).with_name(attr).with_data(
                                    value,
                                ),
                                replies.skip(2),
                            ).and_then(
                                |r: ReplyView|
                                    match AioCompletion::spec_get_return_value(r) {
                                        Err(e) => StepView::Done(Err(e)),
                                        Ok(_) => StepView::Done(Ok(())),
                                    },
                            ),
                    ),
                },
        )
    }

    /// How `truncate` stands after `replies`.
    pub open spec fn truncate(self, size: u64, replies: Seq<ReplyView>) -> StepView<()> {
        self.open(replies).and_then(
            |p: (IoCtx, Seq<u8>)|
                if replies.len() == 1 {
                    StepView::Call(CallView::on(Op::Truncate, p.0.ptr).with_key(p.1).with_offset(size))
                } else if replies[1].failed() {
                    StepView::Done(Err(replies[1].failure()))
                } else {
                    StepView::Done(Ok(()))
                },
        )
    }
}

/// The replies of a backend that holds `value` for the attribute asked
/// for, from an attempt with `capacity` bytes on: each attempt gets its
/// token and is accepted; one whose buffer is too small for `value`
/// resolves with the overflow status and is followed by the next, with
/// twice the capacity; the first whose buffer is large enough resolves
/// with the length of `value` and leaves `value` in the buffer, and is the
/// last.
pub open spec fn serves(replies: Seq<ReplyView>, value: Seq<u8>, capacity: nat) -> bool
    decreases shortfall(capacity, value.len()),
{
    &&& replies.len() >= 3
    &&& !replies[0].failed()
    &&& !replies[1].failed()
    &&& if 0 < capacity < value.len() {
        &&& replies[2].failed()
        &&& replies[2].failure().is_overflow()
        &&& serves(replies.skip(3), value, 2 * capacity)
    } else {
        &&& replies.len() == 3
        &&& replies[2].code == value.len()
        &&& truncated(replies[2].data, value.len() as int) == value
    }
}

proof fn lemma_fetch_fits(
    ctx: IoCtx,
    key: Seq<u8>,
    name: Seq<u8>,
    capacity: usize,
    value: Seq<u8>,
    replies: Seq<ReplyView>,
)
    requires
        0 < capacity,
        capacity <= MAX_BUF_SIZE || capacity >= value.len(),
        value.len() <= MAX_BUF_SIZE,
        serves(replies, value, capacity as nat),
    ensures
        ObjectView::fetch(ctx, key, name, capacity, replies) == StepView::Done(
            Ok::<Seq<u8>, ErrorView>(value),
        ),
        replies.len() == 3 * (doublings(capacity as nat, value.len()) + 1),
    decreases shortfall(capacity as nat, value.len()),
{
    if capacity < value.len() {
        lemma_fetch_fits(ctx, key, name, (capacity * 2) as usize, value, replies.skip(3));
    }
}

/// An attribute value that needs more than the first buffer is fetched
/// whole after a bounded number of doublings.
///
/// Let the object's names and the attribute's name be representable, let
/// the context be granted, and let the backend hold `value`, of at most
/// `MAX_BUF_SIZE` bytes, answering as `serves` says. Then the fetch ends
/// with exactly `value`. It makes one attempt more than the capacity has
/// to be doubled to hold `value`, which is at most twenty times, and at
/// least once where `value` is longer than `INITIAL_BUF_SIZE`.
pub proof fn lemma_get_xattr_grows_until_it_fits(
    obj: ObjectView,
    name: Seq<char>,
    value: Seq<u8>,
    replies: Seq<ReplyView>,
)
    requires
        encoded(obj.pool_name) is Ok,
        encoded(obj.name) is Ok,
        encoded(name) is Ok,
        value.len() <= MAX_BUF_SIZE,
        replies.len() >= 1,
        !replies[0].failed(),
        serves(replies.skip(1), value, INITIAL_BUF_SIZE as nat),
    ensures
        obj.get_xattr(name, replies) == StepView::Done(Ok::<Seq<u8>, ErrorView>(value)),
        replies.len() == 1 + 3 * (doublings(INITIAL_BUF_SIZE as nat, value.len()) + 1),
        doublings(INITIAL_BUF_SIZE as nat, value.len()) <= 20,
        value.len() > INITIAL_BUF_SIZE ==> doublings(INITIAL_BUF_SIZE as nat, value.len()) >= 1,
{
    let ctx = IoCtx { ptr: replies[0].value(0) };
    lemma_fetch_fits(
        ctx,
        encoded(obj.name)->Ok_0,
        encoded(name)->Ok_0,
        INITIAL_BUF_SIZE,
        value,
        replies.skip(1),
    );
    lemma_buf_size_range();
    lemma_doublings_bounded(INITIAL_BUF_SIZE as nat, value.len(), 20);
}

/// The replies of a backend that finds the buffer too small in each of
/// `attempts` attempts: each attempt gets its token, is accepted, and
/// resolves with the overflow status.
pub open spec fn overflows(replies: Seq<ReplyView>, attempts: nat) -> bool
    decreases attempts,
{
    if attempts == 0 {
        replies.len() == 0
    } else {
        &&& replies.len() >= 3
        &&& !replies[0].failed()
        &&& !replies[1].failed()
        &&& replies[2].failed()
        &&& replies[2].failure().is_overflow()
        &&& overflows(replies.skip(3), (attempts - 1) as nat)
    }
}

proof fn lemma_fetch_gives_up(
    ctx: IoCtx,
    key: Seq<u8>,
    name: Seq<u8>,
    capacity: usize,
    replies: Seq<ReplyView>,
    attempts: nat,
)
    requires
        0 < capacity,
        attempts >= 1,
        doubled(capacity as nat, (attempts - 1) as nat) == MAX_BUF_SIZE,
        overflows(replies, attempts),
    ensures
        ObjectView::fetch(ctx, key, name, capacity, replies) == StepView::Done(
            Err::<Seq<u8>, ErrorView>(ErrorView::OtherError(too_large())),
        ),
    decreases attempts,
{
    lemma_doubled_grows(capacity as nat, (attempts - 1) as nat);
    if attempts > 1 {
        lemma_fetch_gives_up(
            ctx,
            key,
            name,
            (capacity * 2) as usize,
            replies.skip(3),
            (attempts - 1) as nat,
        );
    }
}

/// An attribute value that outgrows the largest buffer is given up on.
///
/// Let the object's names and the attribute's name be representable, let
/// the context be granted, and let the backend find the buffer too small
/// in each of twenty-one attempts. Then the fetch has tried every
/// capacity from `INITIAL_BUF_SIZE` to `MAX_BUF_SIZE` and ends with the
/// error that says the value is too large.
pub proof fn lemma_get_xattr_gives_up_at_the_ceiling(
    obj: ObjectView,
    name: Seq<char>,
    replies: Seq<ReplyView>,
)
    requires
        encoded(obj.pool_name) is Ok,
        encoded(obj.name) is Ok,
        encoded(name) is Ok,
        replies.len() >= 1,
        !replies[0].failed(),
        overflows(replies.skip(1), 21),
    ensures
        obj.get_xattr(name, replies) == StepView::Done(
            Err::<Seq<u8>, ErrorView>(ErrorView::OtherError(too_large())),
        ),
{
    lemma_buf_size_range();
    lemma_fetch_gives_up(
        IoCtx { ptr: replies[0].value(0) },
        encoded(obj.name)->Ok_0,
        encoded(name)->Ok_0,
        INITIAL_BUF_SIZE,
        replies.skip(1),
        21,
    );
}

/// The shorter of two lengths.
pub open spec fn shorter(a: nat, b: nat) -> nat {
    if a < b {
        a
    } else {
        b
    }
}

/// What is written is what is read back.
///
/// Let `stored` be the replies to a full overwrite with `data` and
/// `fetched` those to a read from the start into `buffer`, all granted,
/// and let the backend keep what it is given: it resolves the read with
/// the bytes of `data`, as many as `buffer` has room for. Then the
/// overwrite submits `data` itself under the object's name and ends with
/// the length of `data`; the read asks for as many bytes as `buffer` holds,
/// at offset zero, and ends with the number of bytes that the backend
/// kept, cut to the room in `buffer`; and `buffer` then starts with those
/// bytes. With room for all of `data`, the read returns the length of
/// `data` and `buffer` starts with `data`.
pub proof fn lemma_write_full_then_read(
    obj: ObjectView,
    data: Seq<u8>,
    buffer: Seq<u8>,
    stored: Seq<ReplyView>,
    fetched: Seq<ReplyView>,
)
    requires
        encoded(obj.pool_name) is Ok,
        encoded(obj.name) is Ok,
        data.len() <= i32::MAX,
        0 < buffer.len() <= usize::MAX,
        stored.len() == 4,
        fetched.len() == 4,
        forall|i: int| 0 <= i < 4 ==> !stored[i].failed() && !fetched[i].failed(),
        fetched[3].code == shorter(data.len(), buffer.len()),
        fetched[3].data == data.take(shorter(data.len(), buffer.len()) as int),
    ensures
        obj.write_full(data, stored.take(2)) matches StepView::Call(call) && call.op
            == Op::WriteFull && call.data == data && call.key == encoded(obj.name)->Ok_0,
        obj.write_full(data, stored) == StepView::Done(
            Ok::<usize, ErrorView>(data.len() as usize),
        ),
        obj.read(0, buffer.len() as usize, fetched.take(2)) matches StepView::Call(call)
            && call.op == Op::Read && call.size == buffer.len() && call.offset == 0 && call.key
            == encoded(obj.name)->Ok_0,
        obj.read(0, buffer.len() as usize, fetched) == StepView::Done(
            Ok::<usize, ErrorView>(shorter(data.len(), buffer.len()) as usize),
        ),
        obj.read_into(0, buffer, fetched).take(shorter(data.len(), buffer.len()) as int)
            == data.take(shorter(data.len(), buffer.len()) as int),
        obj.read_into(0, buffer, fetched).len() == buffer.len(),
        buffer.len() >= data.len() ==> obj.read_into(0, buffer, fetched).take(data.len() as int)
            == data,
{
    let n = shorter(data.len(), buffer.len());
    assert(obj.read_into(0, buffer, fetched).take(n as int) =~= data.take(n as int));
    if buffer.len() >= data.len() {
        assert(data.take(data.len() as int) == data);
    }
}

/// A write that the backend completes reports the bytes written.
///
/// Let the object's names be representable and let all four replies to a
/// write, a full overwrite or an append be grants, whatever number the
/// backend resolves the operation with. Then the operation has submitted
/// exactly the caller's bytes and ends with their number.
pub proof fn lemma_writes_report_the_bytes_written(
    obj: ObjectView,
    pos: u64,
    data: Seq<u8>,
    replies: Seq<ReplyView>,
)
    requires
        encoded(obj.pool_name) is Ok,
        encoded(obj.name) is Ok,
        data.len() <= usize::MAX,
        replies.len() == 4,
        forall|i: int| 0 <= i < 4 ==> !replies[i].failed(),
    ensures
        obj.write(pos, data, replies.take(2)) matches StepView::Call(call) && call.op == Op::Write
            && call.data == data && call.offset == pos,
        obj.append(data, replies.take(2)) matches StepView::Call(call) && call.op == Op::Append
            && call.data == data,
        obj.write(pos, data, replies) == StepView::Done(Ok::<usize, ErrorView>(data.len() as usize)),
        obj.write_full(data, replies) == StepView::Done(
            Ok::<usize, ErrorView>(data.len() as usize),
        ),
        obj.append(data, replies) == StepView::Done(Ok::<usize, ErrorView>(data.len() as usize)),
{
}

/// An operation ends with the first refusal.
///
/// A stat, a read, a write, a full overwrite and an append each go through
/// four calls: for the context, for the token, the submission and the
/// wait. Let the object's names be representable and let the reply at `at`
/// be the first of the four that reports a refusal. Then each of these
/// operations has ended, its error is that refusal, and nothing that the
/// backend is asked or answers afterwards changes it.
pub proof fn lemma_first_refusal_ends_the_operation(
    obj: ObjectView,
    pos: u64,
    len: usize,
    data: Seq<u8>,
    replies: Seq<ReplyView>,
    at: int,
)
    requires
        encoded(obj.pool_name) is Ok,
        encoded(obj.name) is Ok,
        len > 0,
        0 <= at < 4,
        at < replies.len(),
        replies[at].failed(),
        forall|i: int| 0 <= i < at ==> !replies[i].failed(),
    ensures
        obj.stat(replies) == StepView::Done(Err::<Stat, ErrorView>(replies[at].failure())),
        obj.read(pos, len, replies) == StepView::Done(
            Err::<usize, ErrorView>(replies[at].failure()),
        ),
        obj.write(pos, data, replies) == StepView::Done(
            Err::<usize, ErrorView>(replies[at].failure()),
        ),
        obj.write_full(data, replies) == StepView::Done(
            Err::<usize, ErrorView>(replies[at].failure()),
        ),
        obj.append(data, replies) == StepView::Done(
            Err::<usize, ErrorView>(replies[at].failure()),
        ),
{
}

/// A read gives back the context and the token that it was granted, and
/// nothing else.
///
/// Let the object's names be representable and let a read be shown up to
/// four replies, of which all but the last are grants. Then what the read
/// has left in the driver's hands, newest first, is the token if the
/// second reply granted one, then the context if the first reply granted
/// one.
pub proof fn lemma_read_gives_back_what_it_took(
    obj: ObjectView,
    pos: u64,
    len: usize,
    replies: Seq<ReplyView>,
)
    requires
        encoded(obj.pool_name) is Ok,
        encoded(obj.name) is Ok,
        len > 0,
        replies.len() <= 4,
        forall|i: int| 0 <= i < replies.len() - 1 ==> !replies[i].failed(),
    ensures
        spec_held(asked(|r: Seq<ReplyView>| obj.read(pos, len, r), replies), replies) == (
        if replies.len() >= 2 && !replies[1].failed() {
            seq![CallView::on(Op::ReleaseCompletion, 0).with_completion(replies[1].value(0))]
        } else {
            Seq::<CallView>::empty()
        }) + (if replies.len() >= 1 && !replies[0].failed() {
            seq![CallView::on(Op::DestroyContext, replies[0].value(0))]
        } else {
            Seq::<CallView>::empty()
        }),
{
    let calls = asked(|r: Seq<ReplyView>| obj.read(pos, len, r), replies);
    reveal_with_fuel(held_after, 5);
    assert forall|i: int| 0 <= i < replies.len() implies (#[trigger] calls[i]).op == (if i == 0 {
        Op::OpenContext
    } else if i == 1 {
        Op::CreateCompletion
    } else if i == 2 {
        Op::Read
    } else {
        Op::Await
    }) by {
        let shown = replies.take(i);
        if i >= 1 {
            assert(shown[0] == replies[0]);
        }
        if i >= 2 {
            assert(shown.skip(1)[0] == replies[1]);
        }
        if i >= 3 {
            assert(shown.skip(2)[0] == replies[2]);
        }
    }
}

proof fn lemma_get_xattrs_calls(obj: ObjectView, replies: Seq<ReplyView>, i: int)
    requires
        encoded(obj.pool_name) is Ok,
        encoded(obj.name) is Ok,
        0 <= i <= replies.len(),
        forall|k: int| 0 <= k < 4 && k < i ==> !replies[k].failed(),
        i >= 4 ==> replies[3].value(0) != 0,
        obj.get_xattrs(replies.take(i)) is Call,
    ensures
        (obj.get_xattrs(replies.take(i))->Call_0).op == (if i == 0 {
            Op::OpenContext
        } else if i == 1 {
            Op::CreateCompletion
        } else if i == 2 {
            Op::GetXattrs
        } else if i == 3 {
            Op::Await
        } else {
            Op::XattrsNext
        }),
{
    let shown = replies.take(i);
    if i >= 1 {
        assert(shown[0] == replies[0]);
    }
    if i >= 2 {
        assert(shown.skip(1)[0] == replies[1]);
    }
    if i >= 3 {
        assert(shown.skip(2)[0] == replies[2]);
    }
    if i >= 4 {
        assert(shown.skip(2)[1] == replies[3]);
        lemma_drain_asks_for_the_next(Map::empty(), replies[3].value(0), shown.skip(4));
    }
}

proof fn lemma_get_xattrs_held(obj: ObjectView, replies: Seq<ReplyView>, n: nat)
    requires
        encoded(obj.pool_name) is Ok,
        encoded(obj.name) is Ok,
        4 <= n <= replies.len(),
        forall|k: int| 0 <= k < 4 ==> !replies[k].failed(),
        replies[3].value(0) != 0,
        forall|i: int| 0 <= i < replies.len() ==> obj.get_xattrs(#[trigger] replies.take(i)) is Call,
    ensures
        held_after(asked(|r: Seq<ReplyView>| obj.get_xattrs(r), replies), replies, n) == seq![
            CallView::on(Op::XattrsEnd, replies[3].value(0)),
            CallView::on(Op::ReleaseCompletion, 0).with_completion(replies[1].value(0)),
            CallView::on(Op::DestroyContext, replies[0].value(0)),
        ],
    decreases n,
{
    let calls = asked(|r: Seq<ReplyView>| obj.get_xattrs(r), replies);
    assert forall|i: int| 0 <= i < replies.len() implies (#[trigger] calls[i]).op == (if i == 0 {
        Op::OpenContext
    } else if i == 1 {
        Op::CreateCompletion
    } else if i == 2 {
        Op::GetXattrs
    } else if i == 3 {
        Op::Await
    } else {
        Op::XattrsNext
    }) by {
        lemma_get_xattrs_calls(obj, replies, i);
    }
    if n == 4 {
        reveal_with_fuel(held_after, 5);
    } else {
        lemma_get_xattrs_held(obj, replies, (n - 1) as nat);
    }
}

/// The attribute iterator is given back however the drain goes.
///
/// Let the object's names be representable, and let the fetching of all
/// attributes have been granted its context and its token and have opened
/// an iterator. Then, whatever the iterator has handed out since and
/// whether or not the drain has failed, what the operation has left in the
/// driver's hands is the iterator, the token and the context, to be given
/// back in that order, each once.
pub proof fn lemma_get_xattrs_gives_back_the_iterator(obj: ObjectView, replies: Seq<ReplyView>)
    requires
        encoded(obj.pool_name) is Ok,
        encoded(obj.name) is Ok,
        replies.len() >= 4,
        forall|k: int| 0 <= k < 4 ==> !replies[k].failed(),
        replies[3].value(0) != 0,
        forall|i: int| 0 <= i < replies.len() ==> obj.get_xattrs(#[trigger] replies.take(i)) is Call,
    ensures
        spec_held(asked(|r: Seq<ReplyView>| obj.get_xattrs(r), replies), replies) == seq![
            CallView::on(Op::XattrsEnd, replies[3].value(0)),
            CallView::on(Op::ReleaseCompletion, 0).with_completion(replies[1].value(0)),
            CallView::on(Op::DestroyContext, replies[0].value(0)),
        ],
{
    lemma_get_xattrs_held(obj, replies, replies.len());
}

impl Object {
    /// The object called `name` in the pool called `pool_name`, reached
    /// through the session `rados`.
    pub fn new(rados: &Rados, pool_name: &str, name: &str) -> (obj: Object)
        ensures
            obj@ == (ObjectView { name: name@, pool_name: pool_name@, rados: *rados }),
    {
        Object { name: name.to_owned(), pool_name: pool_name.to_owned(), rados: *rados }
    }

    /// The object's name.
    pub fn name(&self) -> (name: &str)
        ensures
            name@ == self@.name,
    {
        self.name.as_str()
    }

    fn open(&self, replies: &[Reply]) -> (step: Step<(IoCtx, Vec<u8>)>)
        ensures
            step.deep_view() == self@.open(replies.deep_view()),
            step is Done && step->Done_0 is Ok ==> replies@.len() >= 1,
    {
        let ctx = match IoCtx::new(&self.rados, self.pool_name.as_str(), replies).stage() {
            Ok(ctx) => ctx,
            Err(step) => return step,
        };
        match encode_name(self.name.as_str()) {
            Err(at) => Step::Done(Err(Error::IoError(at))),
            Ok(key) => Step::Done(Ok((ctx, key))),
        }
    }

    pub(crate) fn begin(&self, replies: &[Reply]) -> (step: Step<(IoCtx, AioCompletion, Vec<u8>)>)
        ensures
            step.deep_view() == self@.begin(replies.deep_view()),
            step is Done && step->Done_0 is Ok ==> replies@.len() >= 2,
    {
        let ctx = match IoCtx::new(&self.rados, self.pool_name.as_str(), replies).stage() {
            Ok(ctx) => ctx,
            Err(step) => return step,
        };
        let comp = match AioCompletion::new(rest(replies, 1)).stage() {
            Ok(comp) => comp,
            Err(step) => return step,
        };
        match encode_name(self.name.as_str()) {
            Err(at) => Step::Done(Err(Error::IoError(at))),
            Ok(key) => Step::Done(Ok((ctx, comp, key))),
        }
    }

    pub(crate) fn call(op: Op, ctx: IoCtx, comp: AioCompletion, key: Vec<u8>) -> (call: Call)
        ensures
            call@ == ObjectView::call(op, ctx, comp, key@),
    {
        Call::on(op, ctx.ptr).with_completion(comp.ptr).with_key(key)
    }

    /// Asks for the object's size and modification time.
    ///
    /// A context is opened, a completion token made, the query submitted
    /// and awaited. The first of these that the backend refuses ends the
    /// operation with the backend's error.
    pub fn stat(&self, replies: &[Reply]) -> (step: Step<Stat>)
        ensures
            step.deep_view() == self@.stat(replies.deep_view()),
    {
        let (ctx, comp, key) = match self.begin(replies).stage() {
            Ok(p) => p,
            Err(step) => return step,
        };
        let call = Self::call(Op::Stat, ctx, comp, key);
        let r = match comp.submit(call, rest(replies, 2)).stage() {
            Ok(r) => r,
            Err(step) => return step,
        };
        match AioCompletion::get_return_value(r) {
            Err(e) => Step::Done(Err(e)),
            Ok(_) => Step::Done(Ok(Stat { size: r.value(0), mtime: (r.value(1), r.value(2)) })),
        }
    }

    /// Reads into `buf` from offset `pos`, as many bytes as `buf` holds.
    ///
    /// With an empty buffer the operation ends at once with zero bytes and
    /// no call is made. Otherwise it ends with the number of bytes read,
    /// which is less than the buffer holds where the object ends first,
    /// and the bytes read are then at the start of `buf`. Until the read
    /// has ended well `buf` is left as it is.
    pub fn read(&self, pos: u64, buf: &mut [u8], replies: &[Reply]) -> (step: Step<usize>)
        ensures
            step.deep_view() == self@.read(pos, old(buf)@.len() as usize, replies.deep_view()),
            final(buf)@ == self@.read_into(pos, old(buf)@, replies.deep_view()),
    {
        let len: usize = buf.len();
        if len == 0 {
            return Step::Done(Ok(0));
        }
        let (ctx, comp, key) = match self.begin(replies).stage() {
            Ok(p) => p,
            Err(step) => return step,
        };
        let call = Self::call(Op::Read, ctx, comp, key).with_size(len).with_offset(pos);
        let r = match comp.submit(call, rest(replies, 2)).stage() {
            Ok(r) => r,
            Err(step) => return step,
        };
        match AioCompletion::get_return_value(r) {
            Err(e) => Step::Done(Err(e)),
            Ok(n) => {
                overlay(buf, r.data.as_slice(), n);
                Step::Done(Ok(n))
            },
        }
    }

    /// Writes `buf` at offset `pos`; once the backend has resolved the
    /// write without an error, ends with the number of bytes written, the
    /// length of `buf`.
    pub fn write(&self, pos: u64, buf: &[u8], replies: &[Reply]) -> (step: Step<usize>)
        ensures
            step.deep_view() == self@.write(pos, buf@, replies.deep_view()),
    {
        let (ctx, comp, key) = match self.begin(replies).stage() {
            Ok(p) => p,
            Err(step) => return step,
        };
        let call = Self::call(Op::Write, ctx, comp, key).with_data(
            vstd::slice::slice_to_vec(buf),
        ).with_offset(pos);
        let r = match comp.submit(call, rest(replies, 2)).stage() {
            Ok(r) => r,
            Err(step) => return step,
        };
        match AioCompletion::get_return_value(r) {
            Err(e) => Step::Done(Err(e)),
            Ok(_) => Step::Done(Ok(buf.len())),
        }
    }

    /// Replaces the object's content by `data`, resizing it to exactly
    /// that; ends with the length of `data`.
    pub fn write_full(&self, data: &[u8], replies: &[Reply]) -> (step: Step<usize>)
        ensures
            step.deep_view() == self@.write_full(data@, replies.deep_view()),
    {
        let (ctx, comp, key) = match self.begin(replies).stage() {
            Ok(p) => p,
            Err(step) => return step,
        };
        let call = Self::call(Op::WriteFull, ctx, comp, key).with_data(
            vstd::slice::slice_to_vec(data),
        );
        let r = match comp.submit(call, rest(replies, 2)).stage() {
            Ok(r) => r,
            Err(step) => return step,
        };
        match AioCompletion::get_return_value(r) {
            Err(e) => Step::Done(Err(e)),
            Ok(_) => Step::Done(Ok(data.len())),
        }
    }

    /// Appends `data` to the object; once the backend has resolved the
    /// append without an error, ends with the number of bytes appended, the
    /// length of `data`.
    pub fn append(&self, data: &[u8], replies: &[Reply]) -> (step: Step<usize>)
        ensures
            step.deep_view() == self@.append(data@, replies.deep_view()),
    {
        let (ctx, comp, key) = match self.begin(replies).stage() {
            Ok(p) => p,
            Err(step) => return step,
        };
        let call = Self::call(Op::Append, ctx, comp, key).with_data(
            vstd::slice::slice_to_vec(data),
        );
        let r = match comp.submit(call, rest(replies, 2)).stage() {
            Ok(r) => r,
            Err(step) => return step,
        };
        match AioCompletion::get_return_value(r) {
            Err(e) => Step::Done(Err(e)),
            Ok(_) => Step::Done(Ok(data.len())),
        }
    }

    /// Fetches the value of attribute `name`.
    ///
    /// The backend does not tell the value's size in advance. The first
    /// attempt offers `INITIAL_BUF_SIZE` bytes; each time the backend
    /// answers that the buffer was too small, the capacity is doubled and
    /// the fetch is tried again, with `MAX_BUF_SIZE` as the last capacity
    /// tried. Any other error ends the fetch at once. On success the value
    /// is cut to the length the backend reported.
    pub fn get_xattr(&self, name: &str, replies: &[Reply]) -> (step: Step<Vec<u8>>)
        ensures
            step.deep_view() == self@.get_xattr(name@, replies.deep_view()),
    {
        let (ctx, key) = match self.open(replies).stage() {
            Ok(p) => p,
            Err(step) => return step,
        };
        let attr = match encode_name(name) {
            Ok(attr) => attr,
            Err(at) => return Step::Done(Err(Error::IoError(at))),
        };
        let mut capacity: usize = INITIAL_BUF_SIZE;
        let mut at: usize = 1;
        assert(replies@.len() == replies.len());
        loop
            invariant
                1 <= at <= replies@.len() <= usize::MAX,
                self@.get_xattr(name@, replies.deep_view()) == ObjectView::fetch(
                    ctx,
                    key@,
                    attr@,
                    capacity,
                    replies.deep_view().skip(at as int),
                ),
            decreases replies@.len() - at,
        {
            let r = rest(replies, at);
            if r.len() == 0 {
                return Step::Call(Call::on(Op::CreateCompletion, 0));
            }
            if let Err(e) = r[0].check() {
                return Step::Done(Err(e));
            }
            let comp: u64 = r[0].value(0);
            if r.len() == 1 {
                return Step::Call(
                    Call::on(Op::GetXattr, ctx.ptr).with_completion(comp).with_key(key).with_name(
                        attr,
                    ).with_size(capacity),
                );
            }
            if let Err(e) = r[1].check() {
                return Step::Done(Err(e));
            }
            if r.len() == 2 {
                return Step::Call(Call::on(Op::Await, 0).with_completion(comp));
            }
            match AioCompletion::get_return_value(&r[2]) {
                Ok(size) => {
                    return Step::Done(Ok(truncate_to(r[2].data.as_slice(), size)));
                },
                Err(e) => {
                    if !e.is_overflow() {
                        return Step::Done(Err(e));
                    }
                    if capacity >= MAX_BUF_SIZE {
                        return Step::Done(
                            Err(Error::OtherError("attribute value too large".to_owned())),
                        );
                    }
                    assert(replies.deep_view().skip(at as int).skip(3) == replies.deep_view().skip(
                        at as int + 3,
                    ));
                    capacity = capacity * 2;
                    at = at + 3;
                },
            }
        }
    }

    /// Fetches all attributes of the object: opens the backend's iterator
    /// over them and drains it, as `Xattrs::from_iter` says.
    pub fn get_xattrs(&self, replies: &[Reply]) -> (step: Step<Xattrs>)
        ensures
            step.deep_view() == self@.get_xattrs(replies.deep_view()),
    {
        let (ctx, key) = match self.open(replies).stage() {
            Ok(p) => p,
            Err(step) => return step,
        };
        let comp = match AioCompletion::new(rest(replies, 1)).stage() {
            Ok(comp) => comp,
            Err(step) => return step,
        };
        let call = Self::call(Op::GetXattrs, ctx, comp, key);
        let r = match comp.submit(call, rest(replies, 2)).stage() {
            Ok(r) => r,
            Err(step) => return step,
        };
        if let Err(e) = AioCompletion::get_return_value(r) {
            return Step::Done(Err(e));
        }
        let iter = RadosXattrsIter::new(r.value(0));
        Xattrs::from_iter(&iter, rest(replies, 4))
    }

    /// Sets attribute `name` to `value`.
    pub fn set_xattr(&self, name: &str, value: &[u8], replies: &[Reply]) -> (step: Step<()>)
        ensures
            step.deep_view() == self@.set_xattr(name@, value@, replies.deep_view()),
    {
        let (ctx, key) = match self.open(replies).stage() {
            Ok(p) => p,
            Err(step) => return step,
        };
        let attr = match encode_name(name) {
            Ok(attr) => attr,
            Err(at) => return Step::Done(Err(Error::IoError(at))),
        };
        let comp = match AioCompletion::new(rest(replies, 1)).stage() {
            Ok(comp) => comp,
            Err(step) => return step,
        };
        let call = Self::call(Op::SetXattr, ctx, comp, key).with_name(attr).with_data(
            vstd::slice::slice_to_vec(value),
        );
        let r = match comp.submit(call, rest(replies, 2)).stage() {
            Ok(r) => r,
            Err(step) => return step,
        };
        match AioCompletion::get_return_value(r) {
            Err(e) => Step::Done(Err(e)),
            Ok(_) => Step::Done(Ok(())),
        }
    }

    /// Resizes the object to `size` bytes, with one synchronous call.
    pub fn truncate(&self, size: u64, replies: &[Reply]) -> (step: Step<()>)
        ensures
            step.deep_view() == self@.truncate(size, replies.deep_view()),
    {
        let (ctx, key) = match self.open(replies).stage() {
            Ok(p) => p,
            Err(step) => return step,
        };
        if replies.len() == 1 {
            return Step::Call(Call::on(Op::Truncate, ctx.ptr).with_key(key).with_offset(size));
        }
        match replies[1].check() {
            Err(e) => Step::Done(Err(e)),
            Ok(()) => Step::Done(Ok(())),
        }
    }
}

} // verus!
