//! Operations on one pool: its objects, its usage counters, its snapshots.

use crate::buffer::{
    doubled, doublings, lemma_doubled_grows, lemma_doublings_bounded, lemma_snap_count_range,
    shortfall, INITIAL_SNAP_COUNT, MAX_SNAP_COUNT,
};
use crate::errors::{Error, ErrorView};
use crate::io::{AioCompletion, IoCtx};
use crate::native::{
    Call, CallView, Op, Reply, ReplyView, Step, StepView, lemma_bytes_deep_view,
    lemma_values_deep_view, rest,
};
use crate::object::{Object, ObjectView};
use crate::rados::Rados;
use crate::utils::{
    c_char_ptr_to_string, encode_name, encoded, first_nul, first_nul_from, lenient, truncate_to,
    truncated,
};
use vstd::prelude::*;

verus! {

broadcast use {lemma_bytes_deep_view, lemma_values_deep_view};

/// The capacity of the buffer that a snapshot's name is fetched into.
pub const SNAP_NAME_SIZE: usize = 256;

/// A named pool of a cluster.
#[derive(Debug)]
pub struct Pool {
    name: String,
    rados: Rados,
}

/// A `Pool` as a mathematical value.
pub ghost struct PoolView {
    pub name: Seq<char>,
    pub rados: Rados,
}

impl View for Pool {
    type V = PoolView;

    closed spec fn view(&self) -> PoolView {
        PoolView { name: self.name@, rados: self.rados }
    }
}

impl DeepView for Pool {
    type V = PoolView;

    open spec fn deep_view(&self) -> PoolView {
        self@
    }
}

/// The usage counters of a pool.
#[derive(Debug, Copy, Clone, Default)]
pub struct Stat {
    pub num_bytes: u64,
    pub num_kb: u64,
    pub num_objects: u64,
    pub num_object_clones: u64,
    pub num_object_copies: u64,
    pub num_objects_missing_on_primary: u64,
    pub num_objects_unfound: u64,
    pub num_objects_degraded: u64,
    pub num_rd: u64,
    pub num_rd_kb: u64,
    pub num_wr: u64,
    pub num_wr_kb: u64,
    pub num_user_bytes: u64,
    pub compressed_bytes_orig: u64,
    pub compressed_bytes: u64,
    pub compressed_bytes_alloc: u64,
}

impl DeepView for Stat {
    type V = Stat;

    open spec fn deep_view(&self) -> Stat {
        *self
    }
}

impl Stat {
    /// The counters that a reply to `Op::PoolStat` carries, in the order of
    /// the native record.
    pub open spec fn of(reply: ReplyView) -> Stat {
        Stat {
            num_bytes: reply.value(0),
            num_kb: reply.value(1),
            num_objects: reply.value(2),
            num_object_clones: reply.value(3),
            num_object_copies: reply.value(4),
            num_objects_missing_on_primary: reply.value(5),
            num_objects_unfound: reply.value(6),
            num_objects_degraded: reply.value(7),
            num_rd: reply.value(8),
            num_rd_kb: reply.value(9),
            num_wr: reply.value(10),
            num_wr_kb: reply.value(11),
            num_user_bytes: reply.value(12),
            compressed_bytes_orig: reply.value(13),
            compressed_bytes: reply.value(14),
            compressed_bytes_alloc: reply.value(15),
        }
    }
}

/// A forward-only pass over the objects of a pool, bound to a cursor that
/// the backend holds.
#[derive(Debug)]
pub struct ListObjectResultIter {
    list_ctx: u64,
    pool_name: String,
    rados: Rados,
}

/// A `ListObjectResultIter` as a mathematical value.
pub ghost struct ListObjectResultIterView {
    pub list_ctx: u64,
    pub pool: PoolView,
}

impl View for ListObjectResultIter {
    type V = ListObjectResultIterView;

    closed spec fn view(&self) -> ListObjectResultIterView {
        ListObjectResultIterView {
            list_ctx: self.list_ctx,
            pool: PoolView { name: self.pool_name@, rados: self.rados },
        }
    }
}

impl DeepView for ListObjectResultIter {
    type V = ListObjectResultIterView;

    open spec fn deep_view(&self) -> ListObjectResultIterView {
        self@
    }
}

/// The message of the error with which `snapshot_list` gives up on a pool
/// with more than `MAX_SNAP_COUNT` snapshots.
pub open spec fn too_many() -> Seq<char> {
    "too many snapshots"@
}

/// The name in a buffer that `Op::SnapGetName` has filled: what precedes
/// the first zero byte, read leniently.
pub open spec fn snapshot_name(buffer: Seq<u8>) -> Seq<char> {
    lenient(buffer.take(first_nul(buffer)))
}

impl PoolView {
    /// The object called `name` in this pool.
    pub open spec fn object(self, name: Seq<char>) -> ObjectView {
        ObjectView { name, pool_name: self.name, rados: self.rados }
    }

    /// The first stage of every operation on the pool: a context on it.
    pub open spec fn open(self, replies: Seq<ReplyView>) -> StepView<IoCtx> {
        IoCtx::spec_new(self.rados, self.name, replies)
    }

    /// How `get_object` stands after `replies`.
    pub open spec fn get_object(self, name: Seq<char>, replies: Seq<ReplyView>) -> StepView<
        ObjectView,
    > {
        self.object(name).stat(replies).and_then(
            |s: crate::object::Stat| StepView::Done(Ok(self.object(name))),
        )
    }

    /// How `put_object` stands after `replies`.
    pub open spec fn put_object(self, name: Seq<char>, data: Seq<u8>, replies: Seq<ReplyView>)
        -> StepView<ObjectView> {
        self.object(name).write_full(data, replies).and_then(
            |n: usize| StepView::Done(Ok(self.object(name))),
        )
    }

    /// How `remove_object` stands after `replies`.
    pub open spec fn remove_object(self, name: Seq<char>, replies: Seq<ReplyView>) -> StepView<
        (),
    > {
        self.object(name).begin(replies).and_then(
            |p: (IoCtx, AioCompletion, Seq<u8>)|
                p.1.spec_submit(ObjectView::call(Op::Remove, p.0, p.1, p.2), replies.skip(2)).and_then(
                    |r: ReplyView|
                        match AioCompletion::spec_get_return_value(r) {
                            Err(e) => StepView::Done(Err(e)),
                            Ok(_) => StepView::Done(Ok(())),
                        },
                ),
        )
    }

    /// How `list_objects` stands after `replies`.
    pub open spec fn list_objects(self, replies: Seq<ReplyView>) -> StepView<
        ListObjectResultIterView,
    > {
        self.open(replies).and_then(
            |ctx: IoCtx|
                CallView::on(Op::ListOpen, ctx.ptr).ask(replies.skip(1)).and_then(
                    |r: ReplyView|
                        StepView::Done(
                            Ok(ListObjectResultIterView { list_ctx: r.value(0), pool: self }),
                        ),
                ),
        )
    }

    /// How `stat` stands after `replies`.
    pub open spec fn stat(self, replies: Seq<ReplyView>) -> StepView<Stat> {
        self.open(replies).and_then(
            |ctx: IoCtx|
                CallView::on(Op::PoolStat, ctx.ptr).ask(replies.skip(1)).and_then(
                    |r: ReplyView| StepView::Done(Ok(Stat::of(r))),
                ),
        )
    }

    /// How an operation that makes the one call `op` with a snapshot's
    /// name stands after `replies`.
    pub open spec fn snapshot_call(self, op: Op, snap_name: Seq<char>, replies: Seq<ReplyView>)
        -> StepView<ReplyView> {
        self.open(replies).and_then(
            |ctx: IoCtx|
                match encoded(snap_name) {
                    Err(at) => StepView::Done(Err(ErrorView::IoError(at))),
                    Ok(snap) => CallView::on(op, ctx.ptr).with_name(snap).ask(replies.skip(1)),
                },
        )
    }

    /// How `snapshot_create` stands after `replies`.
    pub open spec fn snapshot_create(self, snap_name: Seq<char>, replies: Seq<ReplyView>)
        -> StepView<()> {
        self.snapshot_call(Op::SnapCreate, snap_name, replies).and_then(
            |r: ReplyView| StepView::Done(Ok(())),
        )
    }

    /// How `snapshot_remove` stands after `replies`.
    pub open spec fn snapshot_remove(self, snap_name: Seq<char>, replies: Seq<ReplyView>)
        -> StepView<()> {
        self.snapshot_call(Op::SnapRemove, snap_name, replies).and_then(
            |r: ReplyView| StepView::Done(Ok(())),
        )
    }

    /// How `snapshot_lookup` stands after `replies`.
    pub open spec fn snapshot_lookup(self, snap_name: Seq<char>, replies: Seq<ReplyView>)
        -> StepView<u64> {
        self.snapshot_call(Op::SnapLookup, snap_name, replies).and_then(
            |r: ReplyView| StepView::Done(Ok(r.value(0))),
        )
    }

    /// How `snapshot_rollback_for` stands after `replies`.
    pub open spec fn snapshot_rollback_for(
        self,
        object: ObjectView,
        snap_name: Seq<char>,
        replies: Seq<ReplyView>,
    ) -> StepView<()> {
        self.open(replies).and_then(
            |ctx: IoCtx|
                match (encoded(object.name), encoded(snap_name)) {
                    (Err(at), _) => StepView::Done(Err(ErrorView::IoError(at))),
                    (Ok(_), Err(at)) => StepView::Done(Err(ErrorView::IoError(at))),
                    (Ok(key), Ok(snap)) => CallView::on(Op::SnapRollback, ctx.ptr).with_key(
                        key,
                    ).with_name(snap).ask(replies.skip(1)).and_then(
                        |r: ReplyView| StepView::Done(Ok(())),
                    ),
                },
        )
    }

    /// How the listing of snapshot ids stands after `replies`, when the
    /// next attempt is to be made with room for `capacity` ids.
    ///
    /// An attempt is one call. It ends the listing unless the backend
    /// reports that the buffer was too small while `capacity` is below
    /// `MAX_SNAP_COUNT`: then the next attempt is made with twice the
    /// capacity.
    pub open spec fn list_snapshots(ctx: IoCtx, capacity: usize, replies: Seq<ReplyView>)
        -> StepView<Seq<u64>>
        decreases replies.len(),
    {
        if replies.len() == 0 {
            StepView::Call(CallView::on(Op::SnapList, ctx.ptr).with_size(capacity))
        } else if !replies[0].failed() {
            StepView::Done(Ok(truncated(replies[0].values, replies[0].code as int)))
        } else if !replies[0].failure().is_overflow() {
            StepView::Done(Err(replies[0].failure()))
        } else if capacity < MAX_SNAP_COUNT {
            Self::list_snapshots(ctx, (capacity * 2) as usize, replies.skip(1))
        } else {
            StepView::Done(Err(ErrorView::OtherError(too_many())))
        }
    }

    /// How `snapshot_list` stands after `replies`.
    pub open spec fn snapshot_list(self, replies: Seq<ReplyView>) -> StepView<Seq<u64>> {
        self.open(replies).and_then(
            |ctx: IoCtx| Self::list_snapshots(ctx, INITIAL_SNAP_COUNT, replies.skip(1)),
        )
    }

    /// How `snapshot_get_name` stands after `replies`.
    pub open spec fn snapshot_get_name(self, snap_id: u64, replies: Seq<ReplyView>) -> StepView<
        Seq<char>,
    > {
        self.open(replies).and_then(
            |ctx: IoCtx|
                CallView::on(Op::SnapGetName, ctx.ptr).with_offset(snap_id).with_size(
                    SNAP_NAME_SIZE,
                ).ask(replies.skip(1)).and_then(
                    |r: ReplyView| StepView::Done(Ok(snapshot_name(r.data))),
                ),
        )
    }
}

impl ListObjectResultIterView {
    /// The object that a reply to `Op::ListNext` stands for: the one named
    /// by the entry, read leniently.
    pub open spec fn entry(self, reply: ReplyView) -> ObjectView {
        self.pool.object(lenient(reply.name))
    }

    /// How `next` stands after `replies`.
    pub open spec fn next(self, replies: Seq<ReplyView>) -> StepView<Option<ObjectView>> {
        if replies.len() == 0 {
            StepView::Call(CallView::on(Op::ListNext, self.list_ctx))
        } else if replies[0].failed() {
            StepView::Done(Ok(None))
        } else {
            StepView::Done(Ok(Some(self.entry(replies[0]))))
        }
    }

    /// How a pass over the whole pool stands after `replies`, with `found`
    /// listed before them.
    pub open spec fn gather(self, found: Seq<ObjectView>, replies: Seq<ReplyView>) -> StepView<
        Seq<ObjectView>,
    >
        decreases replies.len(),
    {
        if replies.len() == 0 {
            StepView::Call(CallView::on(Op::ListNext, self.list_ctx))
        } else if replies[0].failed() {
            StepView::Done(Ok(found))
        } else {
            self.gather(found.push(self.entry(replies[0])), replies.skip(1))
        }
    }

    /// How `collect` stands after `replies`.
    pub open spec fn collect(self, replies: Seq<ReplyView>) -> StepView<Seq<ObjectView>> {
        self.gather(Seq::empty(), replies)
    }

    /// The entries that the first `n` of `replies` stand for.
    pub open spec fn entries(self, replies: Seq<ReplyView>, n: nat) -> Seq<ObjectView> {
        Seq::new(n, |i: int| self.entry(replies[i]))
    }
}

/// A pass that is shown `n` entries and then the end of the pool has
/// gathered `found` and those `n`, and asks for more until it is shown the
/// end.
proof fn lemma_gather(
    iter: ListObjectResultIterView,
    found: Seq<ObjectView>,
    replies: Seq<ReplyView>,
    n: nat,
)
    requires
        n < replies.len(),
        forall|i: int| 0 <= i < n ==> !replies[i].failed(),
        replies[n as int].failed(),
    ensures
        iter.gather(found, replies) == StepView::Done(
            Ok::<Seq<ObjectView>, ErrorView>(found + iter.entries(replies, n)),
        ),
        forall|k: int|
            0 <= k <= n ==> #[trigger] iter.gather(found, replies.take(k)) == StepView::<
                Seq<ObjectView>,
            >::Call(CallView::on(Op::ListNext, iter.list_ctx)),
    decreases n,
{
    if n > 0 {
        let more = found.push(iter.entry(replies[0]));
        let tail = replies.skip(1);
        lemma_gather(iter, more, tail, (n - 1) as nat);
        assert(more + iter.entries(tail, (n - 1) as nat) == found + iter.entries(replies, n));
        assert forall|k: int| 0 <= k <= n implies #[trigger] iter.gather(found, replies.take(k))
            == StepView::<Seq<ObjectView>>::Call(CallView::on(Op::ListNext, iter.list_ctx)) by {
            if k > 0 {
                assert(replies.take(k).skip(1) == tail.take(k - 1));
                assert(iter.gather(more, tail.take(k - 1)) == StepView::<Seq<ObjectView>>::Call(
                    CallView::on(Op::ListNext, iter.list_ctx),
                ));
            }
        }
    }
}

/// Listing a pool yields one entry for each object and then ends.
///
/// Let the backend hold `n` objects: it answers the first `n` steps of the
/// cursor with an entry each and the step after them with the end of the
/// sequence. Then each of the first `n` calls of `next` yields the entry
/// it was shown, the call after them yields nothing, and a pass over the
/// whole pool asks for another step until it has been shown the end and
/// then hands out exactly those `n` entries in the backend's order. With
/// no object in the pool it hands out none.
pub proof fn lemma_listing_yields_each_entry_once(
    iter: ListObjectResultIterView,
    replies: Seq<ReplyView>,
    n: nat,
)
    requires
        n < replies.len(),
        forall|i: int| 0 <= i < n ==> !replies[i].failed(),
        replies[n as int].failed(),
    ensures
        forall|i: int|
            0 <= i < n ==> #[trigger] iter.next(seq![replies[i]]) == StepView::Done(
                Ok::<Option<ObjectView>, ErrorView>(Some(iter.entry(replies[i]))),
            ),
        iter.next(seq![replies[n as int]]) == StepView::Done(
            Ok::<Option<ObjectView>, ErrorView>(None),
        ),
        forall|k: int|
            0 <= k <= n ==> #[trigger] iter.collect(replies.take(k)) == StepView::<
                Seq<ObjectView>,
            >::Call(CallView::on(Op::ListNext, iter.list_ctx)),
        iter.collect(replies) == StepView::Done(
            Ok::<Seq<ObjectView>, ErrorView>(iter.entries(replies, n)),
        ),
        iter.entries(replies, n).len() == n,
        n == 0 ==> iter.collect(replies) == StepView::Done(
            Ok::<Seq<ObjectView>, ErrorView>(Seq::empty()),
        ),
{
    lemma_gather(iter, Seq::empty(), replies, n);
}

impl ListObjectResultIter {
    fn entry(&self, reply: &Reply) -> (obj: Object)
        ensures
            obj@ == self@.entry(reply@),
    {
        let name = c_char_ptr_to_string(reply.name.as_slice());
        Object::new(&self.rados, self.pool_name.as_str(), name.as_str())
    }

    /// The call that gives the cursor back. It is the same however far
    /// the pass has come.
    pub fn release(&self) -> (call: Call)
        ensures
            call@ == CallView::on(Op::ListClose, self@.list_ctx),
    {
        Call::on(Op::ListClose, self.list_ctx)
    }

    /// Steps the cursor once.
    ///
    /// The step yields the object that the backend's entry names. Any
    /// refusal by the backend ends the sequence: the end of the pool is not
    /// told apart from an error.
    pub fn next(&self, replies: &[Reply]) -> (step: Step<Option<Object>>)
        ensures
            step.deep_view() == self@.next(replies.deep_view()),
    {
        if replies.len() == 0 {
            return Step::Call(Call::on(Op::ListNext, self.list_ctx));
        }
        match replies[0].check() {
            Err(_) => Step::Done(Ok(None)),
            Ok(()) => Step::Done(Ok(Some(self.entry(&replies[0])))),
        }
    }

    /// Steps the cursor until the sequence ends and hands out all it
    /// yielded, in order.
    pub fn collect(&self, replies: &[Reply]) -> (step: Step<Vec<Object>>)
        ensures
            step.deep_view() == self@.collect(replies.deep_view()),
    {
        let mut found: Vec<Object> = Vec::new();
        let mut i: usize = 0;
        assert(found.deep_view() == Seq::<ObjectView>::empty());
        assert(replies.deep_view().skip(0) == replies.deep_view());
        while i < replies.len()
            invariant
                i <= replies@.len(),
                self@.collect(replies.deep_view()) == self@.gather(
                    found.deep_view(),
                    replies.deep_view().skip(i as int),
                ),
            decreases replies@.len() - i,
        {
            let reply = &replies[i];
            assert(replies.deep_view().skip(i as int).skip(1) == replies.deep_view().skip(
                i as int + 1,
            ));
            if reply.check().is_err() {
                return Step::Done(Ok(found));
            }
            let obj = self.entry(reply);
            let ghost before = found.deep_view();
            found.push(obj);
            assert(found.deep_view() == before.push(obj@));
            i += 1;
        }
        Step::Call(Call::on(Op::ListNext, self.list_ctx))
    }
}

/// The replies of a backend that holds the snapshots `ids`, from an
/// attempt with room for `capacity` ids on: an attempt whose buffer is too
/// small for `ids` is answered with the overflow status and followed by
/// the next, with twice the capacity; the first whose buffer is large
/// enough is answered with the number of `ids` and leaves `ids` in the
/// buffer, and is the last.
pub open spec fn serves(replies: Seq<ReplyView>, ids: Seq<u64>, capacity: nat) -> bool
    decreases shortfall(capacity, ids.len()),
{
    &&& replies.len() >= 1
    &&& if 0 < capacity < ids.len() {
        &&& replies[0].failed()
        &&& replies[0].failure().is_overflow()
        &&& serves(replies.skip(1), ids, 2 * capacity)
    } else {
        &&& replies.len() == 1
        &&& replies[0].code == ids.len()
        &&& truncated(replies[0].values, ids.len() as int) == ids
    }
}

proof fn lemma_list_snapshots_fits(
    ctx: IoCtx,
    capacity: usize,
    ids: Seq<u64>,
    replies: Seq<ReplyView>,
)
    requires
        0 < capacity,
        ids.len() <= MAX_SNAP_COUNT,
        serves(replies, ids, capacity as nat),
    ensures
        PoolView::list_snapshots(ctx, capacity, replies) == StepView::Done(
            Ok::<Seq<u64>, ErrorView>(ids),
        ),
        replies.len() == doublings(capacity as nat, ids.len()) + 1,
    decreases shortfall(capacity as nat, ids.len()),
{
    if capacity < ids.len() {
        lemma_list_snapshots_fits(ctx, (capacity * 2) as usize, ids, replies.skip(1));
    }
}

/// A pool with more snapshots than the first buffer holds is listed whole
/// after a bounded number of doublings.
///
/// Let the pool's name be representable, let the context be granted, and
/// let the backend hold the snapshots `ids`, at most `MAX_SNAP_COUNT` of
/// them, answering as `serves` says. Then the listing ends with exactly
/// `ids`. It makes one attempt more than the capacity has to be doubled to
/// hold `ids`, which is at most twenty-six times, and at least once where
/// there are more than `INITIAL_SNAP_COUNT` of them.
pub proof fn lemma_snapshot_list_grows_until_it_fits(
    pool: PoolView,
    ids: Seq<u64>,
    replies: Seq<ReplyView>,
)
    requires
        encoded(pool.name) is Ok,
        ids.len() <= MAX_SNAP_COUNT,
        replies.len() >= 1,
        !replies[0].failed(),
        serves(replies.skip(1), ids, INITIAL_SNAP_COUNT as nat),
    ensures
        pool.snapshot_list(replies) == StepView::Done(Ok::<Seq<u64>, ErrorView>(ids)),
        replies.len() == 1 + doublings(INITIAL_SNAP_COUNT as nat, ids.len()) + 1,
        doublings(INITIAL_SNAP_COUNT as nat, ids.len()) <= 26,
        ids.len() > INITIAL_SNAP_COUNT ==> doublings(INITIAL_SNAP_COUNT as nat, ids.len()) >= 1,
{
    let ctx = IoCtx { ptr: replies[0].value(0) };
    lemma_list_snapshots_fits(ctx, INITIAL_SNAP_COUNT, ids, replies.skip(1));
    lemma_snap_count_range();
    lemma_doublings_bounded(INITIAL_SNAP_COUNT as nat, ids.len(), 26);
}

/// The replies of a backend that finds the buffer too small in each of
/// `attempts` attempts.
pub open spec fn overflows(replies: Seq<ReplyView>, attempts: nat) -> bool {
    &&& replies.len() == attempts
    &&& forall|i: int|
        0 <= i < attempts ==> (#[trigger] replies[i]).failed() && replies[i].failure().is_overflow()
}

proof fn lemma_list_snapshots_gives_up(
    ctx: IoCtx,
    capacity: usize,
    replies: Seq<ReplyView>,
    attempts: nat,
)
    requires
        0 < capacity,
        attempts >= 1,
        doubled(capacity as nat, (attempts - 1) as nat) == MAX_SNAP_COUNT,
        overflows(replies, attempts),
    ensures
        PoolView::list_snapshots(ctx, capacity, replies) == StepView::Done(
            Err::<Seq<u64>, ErrorView>(ErrorView::OtherError(too_many())),
        ),
    decreases attempts,
{
    lemma_doubled_grows(capacity as nat, (attempts - 1) as nat);
    assert(replies[0].failed());
    if attempts > 1 {
        let tail = replies.skip(1);
        assert forall|i: int| 0 <= i < attempts - 1 implies (#[trigger] tail[i]).failed()
            && tail[i].failure().is_overflow() by {
            assert(tail[i] == replies[i + 1]);
        }
        lemma_list_snapshots_gives_up(ctx, (capacity * 2) as usize, tail, (attempts - 1) as nat);
    }
}

/// A pool with more snapshots than the largest buffer holds is given up
/// on.
///
/// Let the pool's name be representable, let the context be granted, and
/// let the backend find the buffer too small in each of twenty-seven
/// attempts. Then the listing has tried every capacity from
/// `INITIAL_SNAP_COUNT` to `MAX_SNAP_COUNT` and ends with the error that
/// says there are too many snapshots.
pub proof fn lemma_snapshot_list_gives_up_at_the_ceiling(pool: PoolView, replies: Seq<ReplyView>)
    requires
        encoded(pool.name) is Ok,
        replies.len() >= 1,
        !replies[0].failed(),
        overflows(replies.skip(1), 27),
    ensures
        pool.snapshot_list(replies) == StepView::Done(
            Err::<Seq<u64>, ErrorView>(ErrorView::OtherError(too_many())),
        ),
{
    lemma_snap_count_range();
    lemma_list_snapshots_gives_up(
        IoCtx { ptr: replies[0].value(0) },
        INITIAL_SNAP_COUNT,
        replies.skip(1),
        27,
    );
}

impl Pool {
    /// The pool called `name`, reached through the session `rados`.
    pub fn new(rados: &Rados, name: &str) -> (pool: Pool)
        ensures
            pool@ == (PoolView { name: name@, rados: *rados }),
    {
        Pool { name: name.to_owned(), rados: *rados }
    }

    /// The pool's name.
    pub fn name(&self) -> (name: &str)
        ensures
            name@ == self@.name,
    {
        self.name.as_str()
    }

    fn object(&self, name: &str) -> (obj: Object)
        ensures
            obj@ == self@.object(name@),
    {
        Object::new(&self.rados, self.name.as_str(), name)
    }

    fn open(&self, replies: &[Reply]) -> (step: Step<IoCtx>)
        ensures
            step.deep_view() == self@.open(replies.deep_view()),
            step is Done && step->Done_0 is Ok ==> replies@.len() >= 1,
    {
        IoCtx::new(&self.rados, self.name.as_str(), replies)
    }

    /// Looks the object called `name` up: it is handed out once a stat of
    /// it has succeeded, and the operation fails as that stat does.
    pub fn get_object(&self, name: &str, replies: &[Reply]) -> (step: Step<Object>)
        ensures
            step.deep_view() == self@.get_object(name@, replies.deep_view()),
    {
        let obj = self.object(name);
        match obj.stat(replies).stage() {
            Ok(_) => Step::Done(Ok(obj)),
            Err(step) => step,
        }
    }

    /// Stores `data` as the whole content of the object called `name`, and
    /// hands the object out.
    pub fn put_object(&self, name: &str, data: &[u8], replies: &[Reply]) -> (step: Step<Object>)
        ensures
            step.deep_view() == self@.put_object(name@, data@, replies.deep_view()),
    {
        let obj = self.object(name);
        match obj.write_full(data, replies).stage() {
            Ok(_) => Step::Done(Ok(obj)),
            Err(step) => step,
        }
    }

    /// Creates the object called `name` with no content.
    pub fn create_object(&self, name: &str, replies: &[Reply]) -> (step: Step<Object>)
        ensures
            step.deep_view() == self@.put_object(name@, Seq::empty(), replies.deep_view()),
    {
        let nothing: Vec<u8> = Vec::new();
        self.put_object(name, nothing.as_slice(), replies)
    }

    /// Removes the object called `name`.
    pub fn remove_object(&self, name: &str, replies: &[Reply]) -> (step: Step<()>)
        ensures
            step.deep_view() == self@.remove_object(name@, replies.deep_view()),
    {
        let obj = self.object(name);
        let (ctx, comp, key) = match obj.begin(replies).stage() {
            Ok(p) => p,
            Err(step) => return step,
        };
        let call = Object::call(Op::Remove, ctx, comp, key);
        let r = match comp.submit(call, rest(replies, 2)).stage() {
            Ok(r) => r,
            Err(step) => return step,
        };
        match AioCompletion::get_return_value(r) {
            Err(e) => Step::Done(Err(e)),
            Ok(_) => Step::Done(Ok(())),
        }
    }

    /// Opens a cursor over the objects of the pool.
    pub fn list_objects(&self, replies: &[Reply]) -> (step: Step<ListObjectResultIter>)
        ensures
            step.deep_view() == self@.list_objects(replies.deep_view()),
    {
        let ctx = match self.open(replies).stage() {
            Ok(ctx) => ctx,
            Err(step) => return step,
        };
        let r = match Call::on(Op::ListOpen, ctx.ptr).ask(rest(replies, 1)).stage() {
            Ok(r) => r,
            Err(step) => return step,
        };
        Step::Done(
            Ok(
                ListObjectResultIter {
                    list_ctx: r.value(0),
                    pool_name: self.name.clone(),
                    rados: self.rados,
                },
            ),
        )
    }

    /// Reads the pool's usage counters.
    pub fn stat(&self, replies: &[Reply]) -> (step: Step<Stat>)
        ensures
            step.deep_view() == self@.stat(replies.deep_view()),
    {
        let ctx = match self.open(replies).stage() {
            Ok(ctx) => ctx,
            Err(step) => return step,
        };
        let r = match Call::on(Op::PoolStat, ctx.ptr).ask(rest(replies, 1)).stage() {
            Ok(r) => r,
            Err(step) => return step,
        };
        Step::Done(
            Ok(
                Stat {
                    num_bytes: r.value(0),
                    num_kb: r.value(1),
                    num_objects: r.value(2),
                    num_object_clones: r.value(3),
                    num_object_copies: r.value(4),
                    num_objects_missing_on_primary: r.value(5),
                    num_objects_unfound: r.value(6),
                    num_objects_degraded: r.value(7),
                    num_rd: r.value(8),
                    num_rd_kb: r.value(9),
                    num_wr: r.value(10),
                    num_wr_kb: r.value(11),
                    num_user_bytes: r.value(12),
                    compressed_bytes_orig: r.value(13),
                    compressed_bytes: r.value(14),
                    compressed_bytes_alloc: r.value(15),
                },
            ),
        )
    }

    fn snapshot_call<'a>(&self, op: Op, snap_name: &str, replies: &'a [Reply]) -> (step: Step<
        &'a Reply,
    >)
        ensures
            step.deep_view() == self@.snapshot_call(op, snap_name@, replies.deep_view()),
    {
        let ctx = match self.open(replies).stage() {
            Ok(ctx) => ctx,
            Err(step) => return step,
        };
        let snap = match encode_name(snap_name) {
            Ok(snap) => snap,
            Err(at) => return Step::Done(Err(Error::IoError(at))),
        };
        Call::on(op, ctx.ptr).with_name(snap).ask(rest(replies, 1))
    }

    /// Takes a snapshot of the pool under the name `snap_name`.
    pub fn snapshot_create(&self, snap_name: &str, replies: &[Reply]) -> (step: Step<()>)
        ensures
            step.deep_view() == self@.snapshot_create(snap_name@, replies.deep_view()),
    {
        match self.snapshot_call(Op::SnapCreate, snap_name, replies).stage() {
            Ok(_) => Step::Done(Ok(())),
            Err(step) => step,
        }
    }

    /// Removes the snapshot called `snap_name`.
    pub fn snapshot_remove(&self, snap_name: &str, replies: &[Reply]) -> (step: Step<()>)
        ensures
            step.deep_view() == self@.snapshot_remove(snap_name@, replies.deep_view()),
    {
        match self.snapshot_call(Op::SnapRemove, snap_name, replies).stage() {
            Ok(_) => Step::Done(Ok(())),
            Err(step) => step,
        }
    }

    /// Rolls `object` back to its state in the snapshot called `snap_name`.
    pub fn snapshot_rollback_for(&self, object: &Object, snap_name: &str, replies: &[Reply]) -> (step:
        Step<()>)
        ensures
            step.deep_view() == self@.snapshot_rollback_for(
                object@,
                snap_name@,
                replies.deep_view(),
            ),
    {
        let ctx = match self.open(replies).stage() {
            Ok(ctx) => ctx,
            Err(step) => return step,
        };
        let key = match encode_name(object.name()) {
            Ok(key) => key,
            Err(at) => return Step::Done(Err(Error::IoError(at))),
        };
        let snap = match encode_name(snap_name) {
            Ok(snap) => snap,
            Err(at) => return Step::Done(Err(Error::IoError(at))),
        };
        let call = Call::on(Op::SnapRollback, ctx.ptr).with_key(key).with_name(snap);
        match call.ask(rest(replies, 1)).stage() {
            Ok(_) => Step::Done(Ok(())),
            Err(step) => step,
        }
    }

    /// Lists the ids of the pool's snapshots.
    ///
    /// The backend does not tell their number in advance. The first
    /// attempt offers room for `INITIAL_SNAP_COUNT` ids; each time the
    /// backend answers that the buffer was too small, the capacity is
    /// doubled and the listing is tried again, with `MAX_SNAP_COUNT` as the
    /// last capacity tried. Any other error ends the listing at once. On
    /// success the ids are cut to the number the backend reported.
    pub fn snapshot_list(&self, replies: &[Reply]) -> (step: Step<Vec<u64>>)
        ensures
            step.deep_view() == self@.snapshot_list(replies.deep_view()),
    {
        let ctx = match self.open(replies).stage() {
            Ok(ctx) => ctx,
            Err(step) => return step,
        };
        let mut capacity: usize = INITIAL_SNAP_COUNT;
        let mut at: usize = 1;
        assert(replies@.len() == replies.len());
        while at < replies.len()
            invariant
                1 <= at <= replies@.len() <= usize::MAX,
                self@.snapshot_list(replies.deep_view()) == PoolView::list_snapshots(
                    ctx,
                    capacity,
                    replies.deep_view().skip(at as int),
                ),
            decreases replies@.len() - at,
        {
            let reply = &replies[at];
            match reply.check() {
                Ok(()) => {
                    return Step::Done(
                        Ok(truncate_to(reply.values.as_slice(), reply.code as usize)),
                    );
                },
                Err(e) => {
                    if !e.is_overflow() {
                        return Step::Done(Err(e));
                    }
                    if capacity >= MAX_SNAP_COUNT {
                        return Step::Done(Err(Error::OtherError("too many snapshots".to_owned())));
                    }
                    assert(replies.deep_view().skip(at as int).skip(1) == replies.deep_view().skip(
                        at as int + 1,
                    ));
                    capacity = capacity * 2;
                    at = at + 1;
                },
            }
        }
        Step::Call(Call::on(Op::SnapList, ctx.ptr).with_size(capacity))
    }

    /// Looks up the id of the snapshot called `snap_name`.
    pub fn snapshot_lookup(&self, snap_name: &str, replies: &[Reply]) -> (step: Step<u64>)
        ensures
            step.deep_view() == self@.snapshot_lookup(snap_name@, replies.deep_view()),
    {
        match self.snapshot_call(Op::SnapLookup, snap_name, replies).stage() {
            Ok(r) => Step::Done(Ok(r.value(0))),
            Err(step) => step,
        }
    }

    /// Fetches the name of the snapshot with id `snap_id`.
    ///
    /// The name is what the backend left in a buffer of `SNAP_NAME_SIZE`
    /// bytes up to the first zero byte, or the whole buffer where there is
    /// none; bytes that are not UTF-8 are replaced, not refused.
    pub fn snapshot_get_name(&self, snap_id: u64, replies: &[Reply]) -> (step: Step<String>)
        ensures
            step.deep_view() == self@.snapshot_get_name(snap_id, replies.deep_view()),
    {
        let ctx = match self.open(replies).stage() {
            Ok(ctx) => ctx,
            Err(step) => return step,
        };
        let call = Call::on(Op::SnapGetName, ctx.ptr).with_offset(snap_id).with_size(SNAP_NAME_SIZE);
        let r = match call.ask(rest(replies, 1)).stage() {
            Ok(r) => r,
            Err(step) => return step,
        };
        let buffer = r.data.as_slice();
        let mut end: usize = 0;
        while end < buffer.len() && buffer[end] != 0
            invariant
                end <= buffer@.len(),
                first_nul(buffer@) == first_nul_from(buffer@, end as int),
            decreases buffer@.len() - end,
        {
            end += 1;
        }
        let name = c_char_ptr_to_string(vstd::slice::slice_subrange(buffer, 0, end));
        Step::Done(Ok(name))
    }
}

} // verus!
