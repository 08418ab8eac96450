//! The cluster: the root that pools are reached from.

use crate::errors::{Error, ErrorView};
use crate::native::{
    Call, CallView, Op, Reply, ReplyView, Step, StepView, lemma_bytes_deep_view, rest,
};
use crate::pool::{Pool, PoolView};
use crate::rados::Rados;
use crate::utils::{c_char_ptr_to_string, encode_name, encoded, lenient, truncate_to, truncated};
use vstd::prelude::*;

verus! {

broadcast use lemma_bytes_deep_view;

/// The capacity of the buffer that the pool names are first asked for with.
pub const POOL_LIST_SIZE: usize = 500;

/// A cluster that a session has been brought up with.
#[derive(Debug)]
pub struct Cluster {
    rados: Rados,
}

/// A `Cluster` as a mathematical value.
pub ghost struct ClusterView {
    pub rados: Rados,
}

impl View for Cluster {
    type V = ClusterView;

    closed spec fn view(&self) -> ClusterView {
        ClusterView { rados: self.rados }
    }
}

impl DeepView for Cluster {
    type V = ClusterView;

    open spec fn deep_view(&self) -> ClusterView {
        self@
    }
}

/// The names in a listing of pools, read from offset `at` on, where
/// `start` is the offset at which the name being read began.
///
/// Each name ends at a zero byte. The listing ends before the first name
/// that is empty, or where the bytes end; bytes after the last zero byte
/// are a name too.
pub open spec fn names_from(listing: Seq<u8>, at: int, start: int) -> Seq<Seq<u8>>
    decreases listing.len() - at,
{
    if at < 0 || start < 0 || start > at {
        Seq::empty()
    } else if at >= listing.len() {
        if start < listing.len() {
            seq![listing.subrange(start, listing.len() as int)]
        } else {
            Seq::empty()
        }
    } else if listing[at] != 0 {
        names_from(listing, at + 1, start)
    } else if at == start {
        Seq::empty()
    } else {
        seq![listing.subrange(start, at)] + names_from(listing, at + 1, at + 1)
    }
}

/// The names in a listing of pools.
pub open spec fn pool_names(listing: Seq<u8>) -> Seq<Seq<u8>> {
    names_from(listing, 0, 0)
}

/// Splits a listing of pools into its names.
pub fn parse_pool_names(listing: &[u8]) -> (names: Vec<Vec<u8>>)
    ensures
        names.deep_view() == pool_names(listing@),
{
    let mut names: Vec<Vec<u8>> = Vec::new();
    let mut start: usize = 0;
    let mut at: usize = 0;
    while at < listing.len()
        invariant
            start <= at <= listing@.len(),
            pool_names(listing@) == names.deep_view() + names_from(
                listing@,
                at as int,
                start as int,
            ),
        decreases listing@.len() - at,
    {
        if listing[at] == 0 {
            if at == start {
                return names;
            }
            let name = vstd::slice::slice_to_vec(vstd::slice::slice_subrange(listing, start, at));
            names.push(name);
            start = at + 1;
        }
        at += 1;
    }
    if start < listing.len() {
        let name = vstd::slice::slice_to_vec(
            vstd::slice::slice_subrange(listing, start, listing.len()),
        );
        names.push(name);
    }
    names
}

impl ClusterView {
    /// The pool called `name` on this cluster.
    pub open spec fn pool(self, name: Seq<char>) -> PoolView {
        PoolView { name, rados: self.rados }
    }

    /// The pools that a listing names. A name that is not UTF-8 is read
    /// leniently.
    pub open spec fn pools(self, listing: Seq<u8>) -> Seq<PoolView> {
        let names = pool_names(listing);
        Seq::new(names.len(), |i: int| self.pool(lenient(names[i])))
    }

    /// How `new` stands after `replies`.
    pub open spec fn new(
        conf_file: Seq<char>,
        cluster_name: Seq<char>,
        user_name: Seq<char>,
        replies: Seq<ReplyView>,
    ) -> StepView<ClusterView> {
        Rados::spec_new(conf_file, cluster_name, user_name, replies).and_then(
            |rados: Rados| StepView::Done(Ok(ClusterView { rados })),
        )
    }

    /// How `pool_lookup` stands after `replies`.
    pub open spec fn pool_lookup(self, pool_name: Seq<char>, replies: Seq<ReplyView>) -> StepView<
        PoolView,
    > {
        match encoded(pool_name) {
            Err(at) => StepView::Done(Err(ErrorView::NulError(at))),
            Ok(name) => CallView::on(Op::PoolLookup, self.rados.ptr).with_key(name).ask(
                replies,
            ).and_then(|r: ReplyView| StepView::Done(Ok(self.pool(pool_name)))),
        }
    }

    /// How `pool_create` stands after `replies`.
    pub open spec fn pool_create(self, pool_name: Seq<char>, replies: Seq<ReplyView>) -> StepView<
        PoolView,
    > {
        match encoded(pool_name) {
            Err(at) => StepView::Done(Err(ErrorView::NulError(at))),
            Ok(name) => CallView::on(Op::PoolCreate, self.rados.ptr).with_key(name).ask(
                replies,
            ).and_then(|r: ReplyView| self.pool_lookup(pool_name, replies.skip(1))),
        }
    }

    /// How `pool_delete` stands after `replies`.
    pub open spec fn pool_delete(self, pool_name: Seq<char>, replies: Seq<ReplyView>) -> StepView<
        (),
    > {
        match encoded(pool_name) {
            Err(at) => StepView::Done(Err(ErrorView::NulError(at))),
            Ok(name) => CallView::on(Op::PoolDelete, self.rados.ptr).with_key(name).ask(
                replies,
            ).and_then(|r: ReplyView| StepView::Done(Ok(()))),
        }
    }

    /// How `pool_list` stands after `replies`.
    pub open spec fn pool_list(self, replies: Seq<ReplyView>) -> StepView<Seq<PoolView>> {
        CallView::on(Op::PoolList, self.rados.ptr).with_size(POOL_LIST_SIZE).ask(replies).and_then(
            |first: ReplyView|
                if first.code > POOL_LIST_SIZE {
                    CallView::on(Op::PoolList, self.rados.ptr).with_size(first.code as usize).ask(
                        replies.skip(1),
                    ).and_then(
                        |second: ReplyView|
                            StepView::Done(
                                Ok(self.pools(truncated(second.data, second.code as int))),
                            ),
                    )
                } else {
                    StepView::Done(Ok(self.pools(truncated(first.data, first.code as int))))
                },
        )
    }
}

impl Cluster {
    /// Brings up a session with the cluster called `cluster_name` as the
    /// user `user_name`, configured by the file at `conf_file` unless that
    /// path is empty.
    pub fn new(conf_file: &str, cluster_name: &str, user_name: &str, replies: &[Reply]) -> (step:
        Step<Cluster>)
        ensures
            step.deep_view() == ClusterView::new(
                conf_file@,
                cluster_name@,
                user_name@,
                replies.deep_view(),
            ),
    {
        match Rados::new(conf_file, cluster_name, user_name, replies).stage() {
            Ok(rados) => Step::Done(Ok(Cluster { rados })),
            Err(step) => step,
        }
    }

    /// The session the cluster is reached through.
    pub fn rados(&self) -> (rados: &Rados)
        ensures
            *rados == self@.rados,
    {
        &self.rados
    }

    /// Hands out the pool called `pool_name` if the cluster has it.
    pub fn pool_lookup(&self, pool_name: &str, replies: &[Reply]) -> (step: Step<Pool>)
        ensures
            step.deep_view() == self@.pool_lookup(pool_name@, replies.deep_view()),
    {
        let name = match encode_name(pool_name) {
            Ok(name) => name,
            Err(at) => return Step::Done(Err(Error::NulError(at))),
        };
        match Call::on(Op::PoolLookup, self.rados.ptr).with_key(name).ask(replies).stage() {
            Ok(_) => Step::Done(Ok(Pool::new(&self.rados, pool_name))),
            Err(step) => step,
        }
    }

    /// Creates the pool called `pool_name`, then looks it up.
    pub fn pool_create(&self, pool_name: &str, replies: &[Reply]) -> (step: Step<Pool>)
        ensures
            step.deep_view() == self@.pool_create(pool_name@, replies.deep_view()),
    {
        let name = match encode_name(pool_name) {
            Ok(name) => name,
            Err(at) => return Step::Done(Err(Error::NulError(at))),
        };
        match Call::on(Op::PoolCreate, self.rados.ptr).with_key(name).ask(replies).stage::<Pool>() {
            Ok(_) => self.pool_lookup(pool_name, rest(replies, 1)),
            Err(step) => step,
        }
    }

    /// Deletes the pool called `pool_name`.
    pub fn pool_delete(&self, pool_name: &str, replies: &[Reply]) -> (step: Step<()>)
        ensures
            step.deep_view() == self@.pool_delete(pool_name@, replies.deep_view()),
    {
        let name = match encode_name(pool_name) {
            Ok(name) => name,
            Err(at) => return Step::Done(Err(Error::NulError(at))),
        };
        match Call::on(Op::PoolDelete, self.rados.ptr).with_key(name).ask(replies).stage() {
            Ok(_) => Step::Done(Ok(())),
            Err(step) => step,
        }
    }

    fn pools(&self, listing: &[u8]) -> (pools: Vec<Pool>)
        ensures
            pools.deep_view() == self@.pools(listing@),
    {
        let names = parse_pool_names(listing);
        let mut pools: Vec<Pool> = Vec::new();
        let mut i: usize = 0;
        while i < names.len()
            invariant
                i <= names@.len(),
                names.deep_view() == pool_names(listing@),
                pools@.len() == i,
                forall|k: int|
                    0 <= k < i ==> (#[trigger] pools@[k])@ == self@.pool(
                        lenient(names.deep_view()[k]),
                    ),
            decreases names@.len() - i,
        {
            let name = c_char_ptr_to_string(names[i].as_slice());
            pools.push(Pool::new(&self.rados, name.as_str()));
            i += 1;
        }
        pools
    }

    /// Lists the pools of the cluster.
    ///
    /// The names are asked for with a buffer of `POOL_LIST_SIZE` bytes. The
    /// backend answers with the length the listing needs; where that is
    /// more than was offered, the names are asked for once more with a
    /// buffer of exactly that length. The listing is then cut to the
    /// length last reported and split into names.
    pub fn pool_list(&self, replies: &[Reply]) -> (step: Step<Vec<Pool>>)
        ensures
            step.deep_view() == self@.pool_list(replies.deep_view()),
    {
        let call = Call::on(Op::PoolList, self.rados.ptr).with_size(POOL_LIST_SIZE);
        let first = match call.ask(replies).stage() {
            Ok(r) => r,
            Err(step) => return step,
        };
        if first.code as usize > POOL_LIST_SIZE {
            let call = Call::on(Op::PoolList, self.rados.ptr).with_size(first.code as usize);
            let second = match call.ask(rest(replies, 1)).stage() {
                Ok(r) => r,
                Err(step) => return step,
            };
            Step::Done(
                Ok(self.pools(truncate_to(second.data.as_slice(), second.code as usize).as_slice())),
            )
        } else {
            Step::Done(
                Ok(self.pools(truncate_to(first.data.as_slice(), first.code as usize).as_slice())),
            )
        }
    }
}

} // verus!
