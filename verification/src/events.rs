//! Sets of epoll events.
use vstd::prelude::*;

verus! {

/// Whether bit `i` of `mask` is set.
pub open spec fn has_bit(mask: u32, i: u32) -> bool {
    i < 32 && mask & (1u32 << i) != 0
}

/// A set of epoll events, one per bit.
#[derive(Clone, Copy, Debug, PartialEq, Eq, Structural)]
pub struct Events(pub u32);

impl View for Events {
    type V = Set<u32>;

    /// The positions of the bits that are set.
    open spec fn view(&self) -> Set<u32> {
        Set::new(|i: u32| has_bit(self.0, i))
    }
}

/// The single-bit masks of `mask` at positions `from` and above, in ascending order.
pub open spec fn singles_from(mask: u32, from: u32) -> Seq<Events>
    decreases 32 - from,
{
    if from >= 32 {
        Seq::empty()
    } else if has_bit(mask, from) {
        seq![Events(1u32 << from)] + singles_from(mask, (from + 1) as u32)
    } else {
        singles_from(mask, (from + 1) as u32)
    }
}

impl Events {
    /// There is something to read.
    pub const EPOLLIN: u32 = 0x0000_0001;

    /// There is urgent data to read.
    pub const EPOLLPRI: u32 = 0x0000_0002;

    /// Writing is possible.
    pub const EPOLLOUT: u32 = 0x0000_0004;

    /// An error happened.
    pub const EPOLLERR: u32 = 0x0000_0008;

    /// The other end hung up.
    pub const EPOLLHUP: u32 = 0x0000_0010;

    /// The other end shut down its writing half.
    pub const EPOLLRDHUP: u32 = 0x0000_2000;

    /// Edge-triggered notification.
    pub const EPOLLET: u32 = 0x8000_0000;

    /// The events of the set one by one, in ascending order of their bits.
    pub open spec fn singles(self) -> Seq<Events> {
        singles_from(self.0, 0)
    }

    /// Whether the two sets share an event.
    pub open spec fn shares(self, other: Events) -> bool {
        exists|i: u32| self@.contains(i) && #[trigger] other@.contains(i)
    }
}

impl core::ops::BitOr for Events {
    type Output = Events;

    fn bitor(self, rhs: Events) -> (r: Events)
        ensures
            r@ == self@.union(rhs@),
    {
        proof {
            law_add_adds(self, rhs);
        }
        Events(self.0 | rhs.0)
    }
}

impl vstd::std_specs::ops::BitOrSpecImpl for Events {
    open spec fn obeys_bitor_spec() -> bool {
        true
    }

    open spec fn bitor_req(self, rhs: Events) -> bool {
        true
    }

    open spec fn bitor_spec(self, rhs: Events) -> Events {
        Events(self.0 | rhs.0)
    }
}

impl core::ops::BitAnd for Events {
    type Output = Events;

    fn bitand(self, rhs: Events) -> (r: Events)
        ensures
            r@ == self@.intersect(rhs@),
    {
        let r = Events(self.0 & rhs.0);
        proof {
            let (a, b) = (self.0, rhs.0);
            assert forall|i: u32| r@.contains(i) <==> self@.intersect(rhs@).contains(i) by {
                assert(i < 32 ==> ((a & b) & (1u32 << i) != 0 <==> a & (1u32 << i) != 0 && b & (1u32
                    << i) != 0)) by (bit_vector);
            }
        }
        r
    }
}

impl vstd::std_specs::ops::BitAndSpecImpl for Events {
    open spec fn obeys_bitand_spec() -> bool {
        true
    }

    open spec fn bitand_req(self, rhs: Events) -> bool {
        true
    }

    open spec fn bitand_spec(self, rhs: Events) -> Events {
        Events(self.0 & rhs.0)
    }
}

impl core::ops::BitXor for Events {
    type Output = Events;

    fn bitxor(self, rhs: Events) -> (r: Events)
        ensures
            r@ == self@.difference(rhs@).union(rhs@.difference(self@)),
    {
        proof {
            lemma_xor(self, rhs);
        }
        Events(self.0 ^ rhs.0)
    }
}

impl vstd::std_specs::ops::BitXorSpecImpl for Events {
    open spec fn obeys_bitxor_spec() -> bool {
        true
    }

    open spec fn bitxor_req(self, rhs: Events) -> bool {
        true
    }

    open spec fn bitxor_spec(self, rhs: Events) -> Events {
        Events(self.0 ^ rhs.0)
    }
}

impl Events {
    /// Whether the two sets share an event.
    pub fn intersects(self, other: Events) -> (r: bool)
        ensures
            r == self.shares(other),
    {
        proof {
            let (a, b) = (self.0, other.0);
            if a & b != 0 {
                let i = lemma_has_bit(a & b);
                assert(i < 32 && (a & b) & (1u32 << i) != 0 ==> a & (1u32 << i) != 0 && b & (1u32
                    << i) != 0) by (bit_vector);
                assert(self@.contains(i) && other@.contains(i));
            } else {
                assert forall|i: u32| !(self@.contains(i) && #[trigger] other@.contains(i)) by {
                    assert(a & b == 0 ==> !(i < 32 && a & (1u32 << i) != 0 && b & (1u32 << i) != 0))
                        by (bit_vector);
                }
            }
        }
        (self.0 & other.0) > 0
    }

    /// Runs `callback` once when one of the events of `event` is in the set, and only then. Hands the
    /// set back, so that calls can be chained.
    pub fn handle(&mut self, event: Events, callback: impl FnOnce()) -> (ret: &mut Self)
        requires
            old(self).shares(event) ==> callback.requires(()),
        ensures
            old(self).shares(event) ==> callback.ensures((), ()),
            *ret == *old(self),
            *final(self) == *final(ret),
    {
        if self.intersects(event) {
            callback();
        }
        self
    }

    /// Ends a chain of [`Events::handle`].
    pub fn end(&mut self)
        ensures
            *final(self) == *old(self),
    {
    }

    /// Takes the event with the lowest bit out of the set.
    pub fn next(&mut self) -> (r: Option<Events>)
        ensures
            match r {
                Some(event) => {
                    &&& old(self).singles() == seq![event] + final(self).singles()
                    &&& final(self)@ == old(self)@.difference(event@)
                },
                None => old(self).0 == 0 && final(self).0 == 0,
            },
    {
        let mut i: u32 = 0;
        while i < 32
            invariant
                i <= 32,
                *self == *old(self),
                forall|j: u32| j < i ==> !has_bit(self.0, j),
            decreases 32 - i,
        {
            let mask: u32 = 1u32 << i;
            if self.0 & mask > 0 {
                let ghost before = self.0;
                self.0 = self.0 ^ mask;
                proof {
                    lemma_singles_skip(before, 0, i);
                    lemma_clear_bit(before, i);
                    lemma_singles_skip(self.0, 0, i);
                    assert(!has_bit(self.0, i));
                    lemma_singles_above(before, self.0, i, (i + 1) as u32);
                    assert(old(self).singles() =~= seq![Events(mask)] + self.singles());
                    assert forall|j: u32| self@.contains(j) <==> old(self)@.difference(
                        Events(mask)@,
                    ).contains(j) by {
                        assert(i < 32 && j < 32 ==> ((1u32 << i) & (1u32 << j) != 0 <==> i == j))
                            by (bit_vector);
                    }
                    assert(self@ =~= old(self)@.difference(Events(mask)@));
                }
                return Some(Events(mask));
            }
            i = i + 1;
        }
        proof {
            if self.0 != 0 {
                let j = lemma_has_bit(self.0);
                assert(!has_bit(self.0, j));
            }
        }
        None
    }

    /// The events of the set one by one, in ascending order of their bits.
    pub fn bits(self) -> (r: Vec<Events>)
        ensures
            r@ == self.singles(),
    {
        let mut rest = self;
        let mut out: Vec<Events> = Vec::new();
        loop
            invariant
                self.singles() == out@ + rest.singles(),
            ensures
                out@ == self.singles(),
            decreases rest.singles().len(),
        {
            let ghost before = rest;
            match rest.next() {
                Some(event) => {
                    out.push(event);
                    assert(self.singles() =~= out@ + rest.singles());
                },
                None => {
                    proof {
                        assert forall|j: u32| !has_bit(before.0, j) by {
                            assert(0u32 & (1u32 << j) == 0) by (bit_vector);
                        }
                        lemma_singles_skip(before.0, 0, 32);
                        assert(out@ =~= self.singles());
                    }
                    break;
                },
            }
        }
        out
    }
}

/// Some bit of a nonzero mask is set.
proof fn lemma_has_bit(mask: u32) -> (i: u32)
    requires
        mask != 0,
    ensures
        has_bit(mask, i),
{
    assert(exists|i: u32| #[trigger] has_bit(mask, i)) by {
        assert(mask >> 0u32 == mask) by (bit_vector);
        lemma_some_bit(mask, 0);
    }
    choose|i: u32| has_bit(mask, i)
}

proof fn lemma_some_bit(mask: u32, from: u32)
    requires
        from < 32,
        mask >> from != 0,
    ensures
        exists|i: u32| #[trigger] has_bit(mask, i),
    decreases 32 - from,
{
    if !has_bit(mask, from) {
        let next = (from + 1) as u32;
        assert(from < 31 && mask >> next != 0) by (bit_vector)
            requires
                from < 32,
                next == from + 1,
                mask >> from != 0,
                mask & (1u32 << from) == 0,
        ;
        lemma_some_bit(mask, next);
    }
}

/// Toggling a set bit clears that bit and no other.
proof fn lemma_clear_bit(mask: u32, i: u32)
    requires
        has_bit(mask, i),
    ensures
        forall|j: u32| #[trigger] has_bit(mask ^ (1u32 << i), j) <==> has_bit(mask, j) && j != i,
{
    assert forall|j: u32| #[trigger]
        has_bit(mask ^ (1u32 << i), j) <==> has_bit(mask, j) && j != i by {
        assert(i < 32 && j < 32 && mask & (1u32 << i) != 0 ==> ((mask ^ (1u32 << i)) & (1u32 << j) != 0
            <==> mask & (1u32 << j) != 0 && j != i)) by (bit_vector);
    }
}

/// Positions without a set bit contribute nothing.
proof fn lemma_singles_skip(mask: u32, from: u32, to: u32)
    requires
        from <= to <= 32,
        forall|j: u32| from <= j < to ==> !has_bit(mask, j),
    ensures
        singles_from(mask, from) == singles_from(mask, to),
    decreases to - from,
{
    if from < to {
        assert(!has_bit(mask, from));
        lemma_singles_skip(mask, (from + 1) as u32, to);
    }
}

/// Masks that agree above `i` have the same events above `i`.
proof fn lemma_singles_above(a: u32, b: u32, i: u32, from: u32)
    requires
        i < from <= 32,
        forall|j: u32| j > i ==> (#[trigger] has_bit(a, j) <==> has_bit(b, j)),
    ensures
        singles_from(a, from) == singles_from(b, from),
    decreases 32 - from,
{
    if from < 32 {
        assert(has_bit(a, from) <==> has_bit(b, from));
        lemma_singles_above(a, b, i, (from + 1) as u32);
    }
}

/// Two sets with the same events are the same set.
pub proof fn law_same_events_same_set(a: Events, b: Events)
    requires
        a@ == b@,
    ensures
        a == b,
{
    if a.0 != b.0 {
        let (x, y) = (a.0, b.0);
        assert(x != y ==> x ^ y != 0) by (bit_vector);
        let i = lemma_has_bit(x ^ y);
        lemma_xor(a, b);
        assert(Events(x ^ y)@.contains(i));
        assert(a@.contains(i) != b@.contains(i));
    }
}

/// Taking events out one by one gives every event of the set, nothing else, and each once, in
/// ascending order.
pub proof fn law_iteration(set: Events)
    ensures
        forall|k: int|
            0 <= k < set.singles().len() ==> is_single(set.0, 0, #[trigger] set.singles()[k]),
        forall|i: u32|
            #[trigger] set@.contains(i) ==> set.singles().contains(Events(1u32 << i)),
        forall|j: int, k: int|
            0 <= j < k < set.singles().len() ==> (#[trigger] set.singles()[j]).0 < (
            #[trigger] set.singles()[k]).0,
{
    lemma_singles_from(set.0, 0);
}

/// Whether `event` is one bit of `mask`, at position `from` or above.
pub open spec fn is_single(mask: u32, from: u32, event: Events) -> bool {
    exists|i: u32| from <= i && #[trigger] has_bit(mask, i) && event == Events(1u32 << i)
}

proof fn lemma_singles_from(mask: u32, from: u32)
    requires
        from <= 32,
    ensures
        ({
            let s = singles_from(mask, from);
            &&& forall|k: int|
                0 <= k < s.len() ==> is_single(mask, from, #[trigger] s[k])
            &&& forall|i: u32|
                from <= i && #[trigger] has_bit(mask, i) ==> s.contains(Events(1u32 << i))
            &&& forall|j: int, k: int|
                0 <= j < k < s.len() ==> (#[trigger] s[j]).0 < (#[trigger] s[k]).0
        }),
    decreases 32 - from,
{
    if from < 32 {
        let next = (from + 1) as u32;
        let tail = singles_from(mask, next);
        lemma_singles_from(mask, next);
        if has_bit(mask, from) {
            let s = singles_from(mask, from);
            assert(s =~= seq![Events(1u32 << from)] + tail);
            assert(s[0] == Events(1u32 << from));
            assert forall|k: int| 0 <= k < s.len() implies is_single(mask, from, #[trigger] s[k]) by {
                if k > 0 {
                    assert(s[k] == tail[k - 1]);
                }
            }
            assert forall|i: u32| from <= i && #[trigger] has_bit(mask, i) implies s.contains(
                Events(1u32 << i),
            ) by {
                if i != from {
                    assert(tail.contains(Events(1u32 << i)));
                    let k = choose|k: int| 0 <= k < tail.len() && tail[k] == Events(1u32 << i);
                    assert(s[k + 1] == Events(1u32 << i));
                }
            }
            assert forall|j: int, k: int| 0 <= j < k < s.len() implies (#[trigger] s[j]).0 < (
            #[trigger] s[k]).0 by {
                assert(s[k] == tail[k - 1]);
                if j == 0 {
                    let i = choose|i: u32|
                        next <= i && #[trigger] has_bit(mask, i) && tail[k - 1] == Events(1u32 << i);
                    assert(from < i && i < 32 ==> (1u32 << from) < (1u32 << i)) by (bit_vector);
                } else {
                    assert(s[j] == tail[j - 1]);
                }
            }
        } else {
            assert(singles_from(mask, from) == tail);
            assert forall|i: u32| from <= i && #[trigger] has_bit(mask, i) implies tail.contains(
                Events(1u32 << i),
            ) by {
                assert(i != from);
            }
        }
    } else {
        assert forall|i: u32| from <= i implies !(#[trigger] has_bit(mask, i)) by {}
    }
}

/// Adding events to a set gives the events of both.
pub proof fn law_add_adds(set: Events, events: Events)
    ensures
        Events(set.0 | events.0)@ == set@.union(events@),
{
    let (a, b) = (set.0, events.0);
    assert forall|i: u32| Events(a | b)@.contains(i) <==> set@.union(events@).contains(i) by {
        assert((a | b) & (1u32 << i) != 0 <==> a & (1u32 << i) != 0 || b & (1u32 << i) != 0)
            by (bit_vector);
    }
    assert(Events(a | b)@ =~= set@.union(events@));
}

/// Adding events that were not there and then toggling them gives the set back.
pub proof fn law_toggle_undoes_add(set: Events, events: Events)
    requires
        set@.disjoint(events@),
    ensures
        Events((set.0 | events.0) ^ events.0) == set,
{
    let (x, y) = (set.0, events.0);
    if x & y != 0 {
        let i = lemma_has_bit(x & y);
        assert(i < 32 && (x & y) & (1u32 << i) != 0 ==> x & (1u32 << i) != 0 && y & (1u32 << i) != 0)
            by (bit_vector);
        assert(set@.contains(i) && events@.contains(i));
    }
    assert(x & y == 0 ==> (x | y) ^ y == x) by (bit_vector);
}

/// Toggling events that are all in the set removes them.
pub proof fn law_toggle_removes(set: Events, events: Events)
    requires
        events@.subset_of(set@),
    ensures
        Events(set.0 ^ events.0)@ == set@.difference(events@),
{
    lemma_xor(set, events);
    assert(Events(set.0 ^ events.0)@ =~= set@.difference(events@));
}

proof fn lemma_xor(a: Events, b: Events)
    ensures
        Events(a.0 ^ b.0)@ == a@.difference(b@).union(b@.difference(a@)),
{
    let (x, y) = (a.0, b.0);
    let sym = a@.difference(b@).union(b@.difference(a@));
    assert forall|i: u32| Events(x ^ y)@.contains(i) <==> sym.contains(i) by {
        assert(i < 32 ==> ((x ^ y) & (1u32 << i) != 0 <==> (x & (1u32 << i) != 0) != (y & (1u32
            << i) != 0))) by (bit_vector);
    }
    assert(Events(x ^ y)@ =~= sym);
}

/// An event is in a set exactly when its bit is set.
pub proof fn law_events_are_bits(set: Events, i: u32)
    ensures
        set@.contains(i) <==> i < 32 && (set.0 >> i) & 1 == 1,
{
    let mask = set.0;
    assert(i < 32 ==> (mask & (1u32 << i) != 0 <==> (mask >> i) & 1 == 1)) by (bit_vector);
}

/// Two sets share an event exactly when their masks have a bit in common.
pub proof fn law_shared_events_are_common_bits(a: Events, b: Events)
    ensures
        a.shares(b) <==> a.0 & b.0 != 0,
        a.shares(b) <==> b.shares(a),
{
    let (x, y) = (a.0, b.0);
    if x & y != 0 {
        let i = lemma_has_bit(x & y);
        assert(i < 32 && (x & y) & (1u32 << i) != 0 ==> x & (1u32 << i) != 0 && y & (1u32 << i) != 0)
            by (bit_vector);
        assert(a@.contains(i) && b@.contains(i));
    }
    if a.shares(b) {
        let i = choose|i: u32| a@.contains(i) && #[trigger] b@.contains(i);
        assert(x & (1u32 << i) != 0 && y & (1u32 << i) != 0 && i < 32 ==> x & y != 0)
            by (bit_vector);
        assert(b@.contains(i) && a@.contains(i));
    }
    if b.shares(a) {
        let i = choose|i: u32| b@.contains(i) && #[trigger] a@.contains(i);
        assert(a@.contains(i) && b@.contains(i));
    }
}

/// Toggling events takes out those that were there and puts in those that were not.
pub proof fn law_toggle_turns_round(set: Events, events: Events, i: u32)
    ensures
        Events(set.0 ^ events.0)@.contains(i) <==> set@.contains(i) != events@.contains(i),
{
    lemma_xor(set, events);
}

/// Every call of [`Events::intersects`] tells whether the masks have a bit in common; every call of
/// [`Events::bits`] gives each event of the set once, alone and in ascending order.
pub proof fn law_intersects_and_bits()
    ensures
        forall|a: Events, b: Events, r: bool| #[trigger]
            call_ensures(Events::intersects, (a, b), r) ==> (r <==> a.0 & b.0 != 0),
        forall|set: Events, r: Vec<Events>| #[trigger]
            call_ensures(Events::bits, (set,), r) ==> {
                &&& forall|k: int| 0 <= k < r@.len() ==> is_single(set.0, 0, #[trigger] r@[k])
                &&& forall|i: u32| #[trigger] set@.contains(i) ==> r@.contains(Events(1u32 << i))
                &&& forall|j: int, k: int|
                    0 <= j < k < r@.len() ==> (#[trigger] r@[j]).0 < (#[trigger] r@[k]).0
            },
{
    assert forall|a: Events, b: Events, r: bool| #[trigger]
        call_ensures(Events::intersects, (a, b), r) implies (r <==> a.0 & b.0 != 0) by {
        law_shared_events_are_common_bits(a, b);
    }
    assert forall|set: Events, r: Vec<Events>| #[trigger]
        call_ensures(Events::bits, (set,), r) implies {
        &&& forall|k: int| 0 <= k < r@.len() ==> is_single(set.0, 0, #[trigger] r@[k])
        &&& forall|i: u32| #[trigger] set@.contains(i) ==> r@.contains(Events(1u32 << i))
        &&& forall|j: int, k: int|
            0 <= j < k < r@.len() ==> (#[trigger] r@[j]).0 < (#[trigger] r@[k]).0
    } by {
        law_iteration(set);
    }
}

/// Every call of [`Events::next`] takes the lowest event out of the set, until there is none.
pub proof fn law_next()
    ensures
        forall|s: &mut Events, r: Option<Events>| #[trigger]
            call_ensures(Events::next, (s,), r) ==> match r {
                Some(event) => {
                    &&& is_single((*s).0, 0, event)
                    &&& (*final(s))@ == (*s)@.difference(event@)
                    &&& forall|k: int|
                        0 <= k < (*final(s)).singles().len() ==> event.0 < (
                        #[trigger] (*final(s)).singles()[k]).0
                },
                None => (*s).0 == 0 && (*final(s)).0 == 0,
            },
{
    assert forall|s: &mut Events, r: Option<Events>| #[trigger]
        call_ensures(Events::next, (s,), r) implies match r {
        Some(event) => {
            &&& is_single((*s).0, 0, event)
            &&& (*final(s))@ == (*s)@.difference(event@)
            &&& forall|k: int|
                0 <= k < (*final(s)).singles().len() ==> event.0 < (
                #[trigger] (*final(s)).singles()[k]).0
        },
        None => (*s).0 == 0 && (*final(s)).0 == 0,
    } by {
        law_iteration(*s);
        if let Some(event) = r {
            let (all, rest) = ((*s).singles(), (*final(s)).singles());
            assert(all[0] == event);
            assert forall|k: int| 0 <= k < rest.len() implies event.0 < (#[trigger] rest[k]).0 by {
                assert(all[k + 1] == rest[k]);
            }
        }
    }
}

} // verus!
