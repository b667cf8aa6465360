//! Sorting by a 64-bit stamp, keeping the order of items with equal stamps.

use vstd::prelude::*;
use crate::recorder::TimedEvent;

verus! {

/// A value that carries the stamp it is ordered by.
pub trait Stamped: Copy {
    spec fn stamp(self) -> u64;

    fn stamp_of(&self) -> (t: u64)
        ensures
            t == self.stamp(),
    ;
}

impl Stamped for u64 {
    open spec fn stamp(self) -> u64 {
        self
    }

    fn stamp_of(&self) -> (t: u64) {
        *self
    }
}

impl Stamped for TimedEvent {
    open spec fn stamp(self) -> u64 {
        self.delta_ms
    }

    fn stamp_of(&self) -> (t: u64) {
        self.delta_ms
    }
}

impl Stamped for crate::schema::TimedEvent {
    open spec fn stamp(self) -> u64 {
        self.at
    }

    fn stamp_of(&self) -> (t: u64) {
        self.at
    }
}

/// Stamps never decrease along `s`.
pub open spec fn ascending<T: Stamped>(s: Seq<T>) -> bool {
    forall|i: int, j: int| 0 <= i <= j < s.len() ==> s[i].stamp() <= s[j].stamp()
}

/// The test that an item passes when its stamp is `t`.
pub open spec fn has_stamp<T: Stamped>(t: u64) -> spec_fn(T) -> bool {
    |x: T| x.stamp() == t
}

/// Items with equal stamps stand in `b` in the order in which they stand in
/// `a`.
pub open spec fn same_order_of_equals<T: Stamped>(a: Seq<T>, b: Seq<T>) -> bool {
    forall|t: u64| #[trigger] a.filter(has_stamp::<T>(t)) == b.filter(has_stamp::<T>(t))
}

/// A filter that no item passes leaves nothing.
proof fn lemma_filter_none<T>(s: Seq<T>, pred: spec_fn(T) -> bool)
    requires
        forall|i: int| 0 <= i < s.len() ==> !pred(s[i]),
    ensures
        s.filter(pred) == Seq::<T>::empty(),
    decreases s.len(),
{
    reveal(Seq::filter);
    if s.len() > 0 {
        assert forall|i: int| 0 <= i < s.drop_last().len() implies !pred(s.drop_last()[i]) by {
            assert(s.drop_last()[i] == s[i]);
        }
        lemma_filter_none(s.drop_last(), pred);
    }
}

/// What a filter leaves of a sequence into which an item was put, where no
/// item behind that place passes the filter: the item comes last if it
/// passes, and is left out if it does not.
proof fn lemma_filter_of_insert<T>(s: Seq<T>, p: int, item: T, pred: spec_fn(T) -> bool)
    requires
        0 <= p <= s.len(),
        pred(item) ==> forall|i: int| p <= i < s.len() ==> !pred(s[i]),
    ensures
        s.insert(p, item).filter(pred) == if pred(item) {
            s.filter(pred).push(item)
        } else {
            s.filter(pred)
        },
{
    let head = s.take(p);
    let tail = s.skip(p);
    let one = seq![item];
    assert(s =~= head + tail);
    assert(s.insert(p, item) =~= (head + one) + tail);
    Seq::filter_distributes_over_add(head, tail, pred);
    Seq::filter_distributes_over_add(head, one, pred);
    Seq::filter_distributes_over_add(head + one, tail, pred);
    assert(one.filter(pred) =~= if pred(item) {
        one
    } else {
        Seq::<T>::empty()
    }) by {
        reveal(Seq::filter);
        assert(one.drop_last() =~= Seq::<T>::empty());
        assert(one.drop_last().filter(pred) =~= Seq::<T>::empty());
    }
    if pred(item) {
        assert forall|i: int| 0 <= i < tail.len() implies !pred(tail[i]) by {
            assert(tail[i] == s[p + i]);
        }
        lemma_filter_none(tail, pred);
        assert(s.insert(p, item).filter(pred) =~= s.filter(pred).push(item));
    } else {
        assert(s.insert(p, item).filter(pred) =~= s.filter(pred));
    }
}

/// The items of `v` in ascending order of stamp; items with equal stamps
/// stay in the order in which they stand in `v`.
pub fn sorted_by_stamp<T: Stamped>(v: &Vec<T>) -> (out: Vec<T>)
    ensures
        ascending(out@),
        same_order_of_equals(out@, v@),
        out@.to_multiset() == v@.to_multiset(),
        out@.len() == v@.len(),
{
    broadcast use vstd::seq_lib::group_to_multiset_ensures;

    let mut out: Vec<T> = Vec::new();
    let mut i: usize = 0;
    assert(v@.take(0) =~= Seq::<T>::empty());
    while i < v.len()
        invariant
            i <= v.len(),
            ascending(out@),
            out@.to_multiset() == v@.take(i as int).to_multiset(),
            same_order_of_equals(out@, v@.take(i as int)),
            out@.len() == i,
        decreases v.len() - i,
    {
        let item: T = v[i];
        let t: u64 = item.stamp_of();
        let mut p: usize = 0;
        while p < out.len() && out[p].stamp_of() <= t
            invariant
                p <= out.len(),
                ascending(out@),
                t == item.stamp(),
                forall|j: int| 0 <= j < p ==> out@[j].stamp() <= t,
            ensures
                p == out.len() || out@[p as int].stamp() > t,
            decreases out.len() - p,
        {
            p += 1;
        }
        let ghost before = out@;
        out.insert(p, item);
        proof {
            assert(v@.take(i + 1) =~= v@.take(i as int).push(item));
            assert(out@ == before.insert(p as int, item));
            vstd::seq_lib::to_multiset_insert(before, p as int, item);
            vstd::seq_lib::to_multiset_build(v@.take(i as int), item);
            assert forall|s: u64| #[trigger]
                out@.filter(has_stamp::<T>(s)) == v@.take(i + 1).filter(has_stamp::<T>(s)) by {
                let pred = has_stamp::<T>(s);
                assert(before.filter(pred) == v@.take(i as int).filter(pred));
                if pred(item) {
                    assert forall|j: int| p <= j < before.len() implies !pred(before[j]) by {
                        assert(before[p as int].stamp() <= before[j].stamp());
                    }
                }
                lemma_filter_of_insert(before, p as int, item, pred);
                reveal(Seq::filter);
                assert(v@.take(i + 1).drop_last() =~= v@.take(i as int));
            }
            assert forall|a: int, b: int| 0 <= a <= b < out@.len() implies out@[a].stamp()
                <= out@[b].stamp() by {
                let a0 = if a < p { a } else { a - 1 };
                let b0 = if b < p { b } else { b - 1 };
                if a != p as int && b != p as int {
                    assert(out@[a] == before[a0] && out@[b] == before[b0]);
                } else if a == p as int && b != p as int {
                    assert(out@[b] == before[b0]);
                    assert(before[p as int].stamp() <= before[b0].stamp());
                } else if a != p as int && b == p as int {
                    assert(out@[a] == before[a0]);
                }
            }
        }
        i += 1;
    }
    assert(v@.take(v.len() as int) =~= v@);
    out
}

} // verus!
