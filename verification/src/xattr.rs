//! Extended attributes: the map that an object's attribute iterator is
//! drained into.

use crate::errors::{Error, ErrorView};
use crate::native::{Call, CallView, Op, Reply, ReplyView, Step, StepView, rest};
use crate::utils::{lemma_valid_up_to, utf8_text, valid_up_to};
use vstd::prelude::*;
use vstd::utf8::{decode_utf8, valid_utf8};

verus! {

/// The map that a sequence of attributes stands for: a later attribute
/// replaces an earlier one of the same name.
pub open spec fn to_map(entries: Seq<(String, Vec<u8>)>) -> Map<Seq<char>, Seq<u8>>
    decreases entries.len(),
{
    if entries.len() == 0 {
        Map::empty()
    } else {
        to_map(entries.drop_last()).insert(entries.last().0@, entries.last().1@)
    }
}

/// No two attributes share a name.
pub open spec fn distinct_names(entries: Seq<(String, Vec<u8>)>) -> bool {
    forall|i: int, j: int| 0 <= i < j < entries.len() ==> entries[i].0@ != entries[j].0@
}

/// Where names are distinct, each attribute is in the map with its own
/// value, and the map holds nothing else.
pub proof fn lemma_to_map(entries: Seq<(String, Vec<u8>)>)
    requires
        distinct_names(entries),
    ensures
        forall|i: int|
            0 <= i < entries.len() ==> to_map(entries).contains_pair(
                (#[trigger] entries[i]).0@,
                entries[i].1@,
            ),
        forall|name: Seq<char>| #[trigger]
            to_map(entries).dom().contains(name) ==> exists|i: int|
                0 <= i < entries.len() && (#[trigger] entries[i]).0@ == name,
    decreases entries.len(),
{
    if entries.len() > 0 {
        let front = entries.drop_last();
        lemma_to_map(front);
        assert forall|i: int| 0 <= i < entries.len() implies to_map(entries).contains_pair(
            (#[trigger] entries[i]).0@,
            entries[i].1@,
        ) by {
            if i < entries.len() - 1 {
                assert(front[i] == entries[i]);
            }
        }
        assert forall|name: Seq<char>| #[trigger]
            to_map(entries).dom().contains(name) implies exists|i: int|
            0 <= i < entries.len() && (#[trigger] entries[i]).0@ == name by {
            if name == entries.last().0@ {
                assert(entries[entries.len() - 1].0@ == name);
            } else {
                assert(to_map(front).dom().contains(name));
                let i = choose|i: int| 0 <= i < front.len() && (#[trigger] front[i]).0@ == name;
                assert(entries[i] == front[i]);
            }
        }
    }
}

/// Replacing an attribute in place is an insertion into the map.
pub proof fn lemma_replace(entries: Seq<(String, Vec<u8>)>, at: int, entry: (String, Vec<u8>))
    requires
        distinct_names(entries),
        0 <= at < entries.len(),
        entries[at].0@ == entry.0@,
    ensures
        to_map(entries.update(at, entry)) == to_map(entries).insert(entry.0@, entry.1@),
        distinct_names(entries.update(at, entry)),
    decreases entries.len(),
{
    let after = entries.update(at, entry);
    let front = entries.drop_last();
    if at == entries.len() - 1 {
        assert(after.drop_last() == front);
    } else {
        lemma_replace(front, at, entry);
        assert(after.drop_last() == front.update(at, entry));
    }
}

/// While a drain goes on, all it asks for is the next attribute.
pub proof fn lemma_drain_asks_for_the_next(
    found: Map<Seq<char>, Seq<u8>>,
    ptr: u64,
    replies: Seq<ReplyView>,
)
    ensures
        Xattrs::drain(found, ptr, replies) is Call ==> Xattrs::drain(found, ptr, replies)
            == StepView::<Map<Seq<char>, Seq<u8>>>::Call(CallView::on(Op::XattrsNext, ptr)),
    decreases replies.len(),
{
    if replies.len() > 0 && !replies[0].failed() && replies[0].name.len() > 0 && valid_utf8(
        replies[0].name,
    ) {
        lemma_drain_asks_for_the_next(
            found.insert(decode_utf8(replies[0].name), replies[0].data),
            ptr,
            replies.skip(1),
        );
    }
}

/// The name under which the attribute of a reply is entered.
pub open spec fn key(reply: ReplyView) -> Seq<char> {
    decode_utf8(reply.name)
}

/// `found` with the attributes of the first `n` of `replies` entered in
/// order.
pub open spec fn entered(found: Map<Seq<char>, Seq<u8>>, replies: Seq<ReplyView>, n: nat) -> Map<
    Seq<char>,
    Seq<u8>,
>
    decreases n,
{
    if n == 0 {
        found
    } else {
        entered(found.insert(key(replies[0]), replies[0].data), replies.skip(1), (n - 1) as nat)
    }
}

proof fn lemma_entered_keeps(
    found: Map<Seq<char>, Seq<u8>>,
    replies: Seq<ReplyView>,
    n: nat,
    name: Seq<char>,
)
    requires
        n <= replies.len(),
        found.dom().contains(name),
    ensures
        entered(found, replies, n).dom().contains(name),
        (forall|j: int| 0 <= j < n ==> key(#[trigger] replies[j]) != name) ==> entered(
            found,
            replies,
            n,
        )[name] == found[name],
    decreases n,
{
    if n > 0 {
        let tail = replies.skip(1);
        lemma_entered_keeps(
            found.insert(key(replies[0]), replies[0].data),
            tail,
            (n - 1) as nat,
            name,
        );
        if forall|j: int| 0 <= j < n ==> key(#[trigger] replies[j]) != name {
            assert forall|j: int| 0 <= j < n - 1 implies key(#[trigger] tail[j]) != name by {
                assert(tail[j] == replies[j + 1]);
            }
            assert(key(replies[0]) != name);
        }
    }
}

proof fn lemma_entered_holds(
    found: Map<Seq<char>, Seq<u8>>,
    replies: Seq<ReplyView>,
    n: nat,
    i: int,
)
    requires
        0 <= i < n <= replies.len(),
    ensures
        entered(found, replies, n).dom().contains(key(replies[i])),
        (forall|j: int| i < j < n ==> key(#[trigger] replies[j]) != key(replies[i])) ==> entered(
            found,
            replies,
            n,
        )[key(replies[i])] == replies[i].data,
    decreases n,
{
    let tail = replies.skip(1);
    let more = found.insert(key(replies[0]), replies[0].data);
    if i == 0 {
        lemma_entered_keeps(more, tail, (n - 1) as nat, key(replies[0]));
        if forall|j: int| 0 < j < n ==> key(#[trigger] replies[j]) != key(replies[0]) {
            assert forall|j: int| 0 <= j < n - 1 implies key(#[trigger] tail[j]) != key(
                replies[0],
            ) by {
                assert(tail[j] == replies[j + 1]);
            }
        }
    } else {
        assert(tail[i - 1] == replies[i]);
        lemma_entered_holds(more, tail, (n - 1) as nat, i - 1);
        if forall|j: int| i < j < n ==> key(#[trigger] replies[j]) != key(replies[i]) {
            assert forall|j: int| i - 1 < j < n - 1 implies key(#[trigger] tail[j]) != key(
                tail[i - 1],
            ) by {
                assert(tail[j] == replies[j + 1]);
            }
        }
    }
}

proof fn lemma_drain_enters(
    found: Map<Seq<char>, Seq<u8>>,
    ptr: u64,
    replies: Seq<ReplyView>,
    n: nat,
)
    requires
        n < replies.len(),
        forall|i: int|
            0 <= i < n ==> !(#[trigger] replies[i]).failed() && replies[i].name.len() > 0
                && valid_utf8(replies[i].name),
        !replies[n as int].failed(),
        replies[n as int].name.len() == 0,
    ensures
        Xattrs::drain(found, ptr, replies) == StepView::Done(
            Ok::<Map<Seq<char>, Seq<u8>>, ErrorView>(entered(found, replies, n)),
        ),
    decreases n,
{
    if n > 0 {
        let tail = replies.skip(1);
        assert forall|i: int| 0 <= i < n - 1 implies !(#[trigger] tail[i]).failed()
            && tail[i].name.len() > 0 && valid_utf8(tail[i].name) by {
            assert(tail[i] == replies[i + 1]);
        }
        assert(tail[n - 1] == replies[n as int]);
        lemma_drain_enters(
            found.insert(key(replies[0]), replies[0].data),
            ptr,
            tail,
            (n - 1) as nat,
        );
    }
}

/// The drain is full: every attribute that the iterator hands out is in
/// the map, also one whose value is empty.
///
/// Let an iterator have been opened, and let the backend hand out `n`
/// attributes with names that are text and then say that there are no
/// more. Then the drain ends well; the map holds each of the names; and
/// under a name it holds the value that was handed out with it last, which
/// is the only one where the names differ.
pub proof fn lemma_drain_is_full(value: RadosXattrsIter, replies: Seq<ReplyView>, n: nat)
    requires
        value.ptr != 0,
        n < replies.len(),
        forall|i: int|
            0 <= i < n ==> !(#[trigger] replies[i]).failed() && replies[i].name.len() > 0
                && valid_utf8(replies[i].name),
        !replies[n as int].failed(),
        replies[n as int].name.len() == 0,
    ensures
        Xattrs::spec_from_iter(value, replies) == StepView::Done(
            Ok::<Map<Seq<char>, Seq<u8>>, ErrorView>(entered(Map::empty(), replies, n)),
        ),
        forall|i: int|
            0 <= i < n ==> entered(Map::empty(), replies, n).dom().contains(
                key(#[trigger] replies[i]),
            ),
        forall|i: int|
            0 <= i < n && (forall|j: int| i < j < n ==> key(#[trigger] replies[j]) != key(
                replies[i],
            )) ==> entered(Map::empty(), replies, n)[key(#[trigger] replies[i])]
                == replies[i].data,
{
    lemma_drain_enters(Map::empty(), value.ptr, replies, n);
    assert forall|i: int| 0 <= i < n implies entered(Map::empty(), replies, n).dom().contains(
        key(#[trigger] replies[i]),
    ) by {
        lemma_entered_holds(Map::empty(), replies, n, i);
    }
    assert forall|i: int|
        0 <= i < n && (forall|j: int| i < j < n ==> key(#[trigger] replies[j]) != key(
            replies[i],
        )) implies entered(Map::empty(), replies, n)[key(#[trigger] replies[i])]
        == replies[i].data by {
        lemma_entered_holds(Map::empty(), replies, n, i);
    }
}

/// The extended attributes of an object, by name.
#[derive(Debug)]
pub struct Xattrs {
    entries: Vec<(String, Vec<u8>)>,
}

impl View for Xattrs {
    type V = Map<Seq<char>, Seq<u8>>;

    closed spec fn view(&self) -> Map<Seq<char>, Seq<u8>> {
        to_map(self.entries@)
    }
}

impl DeepView for Xattrs {
    type V = Map<Seq<char>, Seq<u8>>;

    open spec fn deep_view(&self) -> Map<Seq<char>, Seq<u8>> {
        self@
    }
}

/// The backend's iterator over the attributes of one object.
#[derive(Clone, Copy, Debug)]
pub struct RadosXattrsIter {
    /// The native iterator handle; zero where none was opened.
    pub ptr: u64,
}

impl RadosXattrsIter {
    /// Wraps a native iterator handle.
    pub fn new(ptr: u64) -> (iter: Self)
        ensures
            iter.ptr == ptr,
    {
        Self { ptr }
    }

    /// The call that gives the iterator back; none where no iterator was
    /// opened.
    pub fn release(&self) -> (call: Option<Call>)
        ensures
            self.ptr == 0 ==> call is None,
            self.ptr != 0 ==> (call matches Some(c) && c@ == CallView::on(Op::XattrsEnd, self.ptr)),
    {
        if self.ptr == 0 {
            None
        } else {
            Some(Call::on(Op::XattrsEnd, self.ptr))
        }
    }
}

impl Xattrs {
    #[verifier::type_invariant]
    spec fn wf(self) -> bool {
        distinct_names(self.entries@)
    }

    /// How the draining of iterator `ptr` stands after `replies`, with
    /// `found` drained before them.
    pub open spec fn drain(found: Map<Seq<char>, Seq<u8>>, ptr: u64, replies: Seq<ReplyView>)
        -> StepView<Map<Seq<char>, Seq<u8>>>
        decreases replies.len(),
    {
        if replies.len() == 0 {
            StepView::Call(CallView::on(Op::XattrsNext, ptr))
        } else if replies[0].failed() {
            StepView::Done(Err(replies[0].failure()))
        } else if replies[0].name.len() == 0 {
            StepView::Done(Ok(found))
        } else if !valid_utf8(replies[0].name) {
            StepView::Done(
                Err(ErrorView::Utf8Error(valid_up_to(replies[0].name), replies[0].name)),
            )
        } else {
            Self::drain(
                found.insert(decode_utf8(replies[0].name), replies[0].data),
                ptr,
                replies.skip(1),
            )
        }
    }

    /// How `from_iter` stands after `replies`.
    pub open spec fn spec_from_iter(value: RadosXattrsIter, replies: Seq<ReplyView>) -> StepView<
        Map<Seq<char>, Seq<u8>>,
    > {
        if value.ptr == 0 {
            StepView::Done(Ok(Map::empty()))
        } else {
            Self::drain(Map::empty(), value.ptr, replies)
        }
    }

    fn insert(self, name: String, data: Vec<u8>) -> (out: Self)
        ensures
            out@ == self@.insert(name@, data@),
    {
        proof {
            use_type_invariant(&self);
        }
        let mut entries = self.entries;
        let mut i: usize = 0;
        while i < entries.len()
            invariant
                i <= entries@.len(),
                entries@ == self.entries@,
                distinct_names(entries@),
                forall|k: int| 0 <= k < i ==> entries@[k].0@ != name@,
            decreases entries@.len() - i,
        {
            if entries[i].0 == name {
                proof {
                    lemma_replace(entries@, i as int, (name, data));
                }
                entries[i] = (name, data);
                return Xattrs { entries };
            }
            i += 1;
        }
        proof {
            let after = entries@.push((name, data));
            assert(after.drop_last() == entries@);
        }
        entries.push((name, data));
        Xattrs { entries }
    }

    /// Drains the backend's attribute iterator into a map.
    ///
    /// Where no iterator was opened the map is empty and no call is made.
    /// Otherwise the iterator is advanced until it hands out nothing, which
    /// the backend says by a reply without a name; each attribute before
    /// that is entered under its name, whatever its value and also where
    /// the value is empty, a later one replacing an earlier one of the same
    /// name. A step that the backend refuses ends the drain with the
    /// backend's error, a name that is not UTF-8 with a decoding error.
    pub fn from_iter(value: &RadosXattrsIter, replies: &[Reply]) -> (step: Step<Xattrs>)
        ensures
            step.deep_view() == Self::spec_from_iter(*value, replies.deep_view()),
    {
        let mut xattrs = Xattrs { entries: Vec::new() };
        if value.ptr == 0 {
            return Step::Done(Ok(xattrs));
        }
        let mut i: usize = 0;
        assert(replies.deep_view().skip(0) == replies.deep_view());
        while i < replies.len()
            invariant
                i <= replies@.len(),
                value.ptr != 0,
                Self::spec_from_iter(*value, replies.deep_view()) == Self::drain(
                    xattrs@,
                    value.ptr,
                    replies.deep_view().skip(i as int),
                ),
            decreases replies@.len() - i,
        {
            let reply = &replies[i];
            assert(replies.deep_view().skip(i as int).skip(1) == replies.deep_view().skip(
                i as int + 1,
            ));
            if let Err(e) = reply.check() {
                return Step::Done(Err(e));
            }
            if reply.name.len() == 0 {
                return Step::Done(Ok(xattrs));
            }
            let name = match utf8_text(reply.name.as_slice()) {
                Ok(text) => text.to_owned(),
                Err(at) => {
                    proof {
                        lemma_valid_up_to(reply.name@, at as int);
                    }
                    return Step::Done(Err(Error::Utf8Error((at, reply.name.clone()))));
                },
            };
            xattrs = xattrs.insert(name, reply.data.clone());
            i += 1;
        }
        Step::Call(Call::on(Op::XattrsNext, value.ptr))
    }

    /// All attributes, each name once, in no particular order.
    pub fn iter(&self) -> (entries: &Vec<(String, Vec<u8>)>)
        ensures
            distinct_names(entries@),
            forall|i: int|
                0 <= i < entries@.len() ==> self@.contains_pair(
                    (#[trigger] entries@[i]).0@,
                    entries@[i].1@,
                ),
            forall|name: Seq<char>| #[trigger]
                self@.dom().contains(name) ==> exists|i: int|
                    0 <= i < entries@.len() && (#[trigger] entries@[i]).0@ == name,
    {
        proof {
            use_type_invariant(self);
            lemma_to_map(self.entries@);
        }
        &self.entries
    }
}

} // verus!
