//! Sorting.

use vstd::prelude::*;

verus! {

/// What can be sorted.
pub trait Sortable: Sized {
    /// Whether this may stand before another.
    spec fn may_precede(self, other: Self) -> bool;

    /// Of two, one may stand before the other.
    proof fn one_may_precede(a: Self, b: Self)
        ensures
            a.may_precede(b) || b.may_precede(a),
    ;

    /// What may stand before what may stand before another may stand before that.
    proof fn precedence_carries_over(a: Self, b: Self, c: Self)
        requires
            a.may_precede(b),
            b.may_precede(c),
        ensures
            a.may_precede(c),
    ;

    /// Whether this may stand before another.
    fn precedes(&self, other: &Self) -> (r: bool)
        ensures
            r == self.may_precede(*other),
    ;
}

/// Whether each of a sequence may stand before all that follow it.
pub open spec fn is_sorted<T: Sortable>(s: Seq<T>) -> bool {
    forall|i: int, j: int|
        #![trigger s[i], s[j]]
        0 <= i < j < s.len() ==> s[i].may_precede(s[j])
}

proof fn lemma_insert_multiset<T>(s: Seq<T>, i: int, item: T)
    requires
        0 <= i <= s.len(),
    ensures
        s.insert(i, item).to_multiset() == s.to_multiset().insert(item),
{
    broadcast use vstd::seq_lib::group_to_multiset_ensures;

    let t = s.insert(i, item);
    assert(t[i] == item);
    assert(t.remove(i) =~= s);
    assert(t.remove(i).to_multiset() == t.to_multiset().remove(item));
    assert(t.contains(item));
    assert(t.to_multiset().count(item) > 0);
    assert(s.to_multiset().insert(item) =~= t.to_multiset());
}

fn place<T: Sortable>(sorted: &mut Vec<T>, item: T)
    requires
        is_sorted(old(sorted)@),
    ensures
        is_sorted(final(sorted)@),
        final(sorted)@.to_multiset() == old(sorted)@.to_multiset().insert(item),
{
    let mut i: usize = 0;
    while i < sorted.len() && sorted[i].precedes(&item)
        invariant
            i <= sorted.len(),
            forall|j: int| 0 <= j < i ==> (#[trigger] sorted@[j]).may_precede(item),
        decreases sorted.len() - i,
    {
        i += 1;
    }
    let ghost before = sorted@;
    proof {
        assert forall|j: int| i <= j < before.len() implies item.may_precede(#[trigger] before[j]) by {
            T::one_may_precede(before[i as int], item);
            if j > i {
                T::precedence_carries_over(item, before[i as int], before[j]);
            }
        }
        lemma_insert_multiset(before, i as int, item);
    }
    sorted.insert(i, item);
    proof {
        let after = sorted@;
        assert(after == before.insert(i as int, item));
        assert forall|a: int, b: int|
            #![trigger after[a], after[b]]
            0 <= a < b < after.len() implies after[a].may_precede(after[b]) by {
            if b < i {
                assert(after[a] == before[a] && after[b] == before[b]);
            } else if b == i {
                assert(after[a] == before[a] && after[b] == item);
            } else if a < i {
                assert(after[a] == before[a] && after[b] == before[b - 1]);
            } else if a == i {
                assert(after[a] == item && after[b] == before[b - 1]);
            } else {
                assert(after[a] == before[a - 1] && after[b] == before[b - 1]);
            }
        }
    }
}

/// Whether of two the first has to stand before the second.
pub open spec fn stands_before<T: Sortable>(a: T, b: T) -> bool {
    a.may_precede(b) && !b.may_precede(a)
}

/// Whether two have the same place in an order.
pub open spec fn same_place<T: Sortable>(a: T, b: T) -> bool {
    a.may_precede(b) && b.may_precede(a)
}

/// Whether each of a sequence has to stand before all that follow it, so that none has
/// the place of another.
pub open spec fn is_increasing<T: Sortable>(s: Seq<T>) -> bool {
    forall|i: int, j: int|
        #![trigger s[i], s[j]]
        0 <= i < j < s.len() ==> stands_before(s[i], s[j])
}

/// Whether the place of a value is taken.
pub open spec fn has_place<T: Sortable>(s: Seq<T>, item: T) -> bool {
    exists|i: int| 0 <= i < s.len() && same_place(#[trigger] s[i], item)
}

/// Puts a value where it belongs, unless its place is taken.
pub fn place_once<T: Sortable>(list: &mut Vec<T>, item: T)
    requires
        is_increasing(old(list)@),
    ensures
        is_increasing(final(list)@),
        has_place(old(list)@, item) ==> final(list)@ == old(list)@,
        !has_place(old(list)@, item) ==> exists|i: int|
            0 <= i <= old(list)@.len() && final(list)@ == #[trigger] old(list)@.insert(i, item),
{
    let ghost before = list@;
    let mut i: usize = 0;
    while i < list.len() && !item.precedes(&list[i])
        invariant
            i <= list.len(),
            list@ == before,
            forall|j: int| 0 <= j < i ==> !item.may_precede(#[trigger] before[j]),
        decreases list.len() - i,
    {
        i += 1;
    }
    if i < list.len() && list[i].precedes(&item) {
        assert(same_place(before[i as int], item));
        return ;
    }
    proof {
        assert forall|j: int| 0 <= j < i implies stands_before(#[trigger] before[j], item) by {
            T::one_may_precede(before[j], item);
        }
        assert forall|j: int| i <= j < before.len() implies stands_before(
            item,
            #[trigger] before[j],
        ) by {
            if j > i {
                assert(stands_before(before[i as int], before[j]));
                T::precedence_carries_over(item, before[i as int], before[j]);
                if before[j].may_precede(item) {
                    T::precedence_carries_over(before[j], item, before[i as int]);
                }
            }
        }
    }
    list.insert(i, item);
    proof {
        let after = list@;
        assert(after == before.insert(i as int, item));
        assert forall|a: int, b: int|
            #![trigger after[a], after[b]]
            0 <= a < b < after.len() implies stands_before(after[a], after[b]) by {
            if b < i {
                assert(after[a] == before[a] && after[b] == before[b]);
            } else if b == i {
                assert(after[a] == before[a] && after[b] == item);
            } else if a < i {
                assert(after[a] == before[a] && after[b] == before[b - 1]);
            } else if a == i {
                assert(after[a] == item && after[b] == before[b - 1]);
            } else {
                assert(after[a] == before[a - 1] && after[b] == before[b - 1]);
            }
        }
    }
}

/// The same values in order.
pub fn sorted<T: Sortable>(list: Vec<T>) -> (r: Vec<T>)
    ensures
        is_sorted(r@),
        r@.to_multiset() == list@.to_multiset(),
{
    let ghost all = list@;
    let mut rest: Vec<T> = list;
    let mut r: Vec<T> = Vec::new();
    let ghost mut n: int = 0;
    assert(r@ =~= all.take(0));
    while rest.len() > 0
        invariant
            0 <= n <= all.len(),
            rest@ == all.skip(n),
            is_sorted(r@),
            r@.to_multiset() == all.take(n).to_multiset(),
        decreases rest.len(),
    {
        let item = rest.remove(0);
        assert(item == all[n]);
        place(&mut r, item);
        proof {
            all.take(n).to_multiset_ensures();
            assert(all.take(n + 1) =~= all.take(n).push(all[n]));
            assert(rest@ =~= all.skip(n + 1));
            n = n + 1;
        }
    }
    assert(all.take(n) =~= all);
    r
}

/// What is sorted holds what was there before.
pub proof fn law_sorting_keeps_all<T: Sortable>(before: Seq<T>, after: Seq<T>, item: T)
    requires
        after.to_multiset() == before.to_multiset(),
    ensures
        after.len() == before.len(),
        after.contains(item) <==> before.contains(item),
{
    before.to_multiset_ensures();
    after.to_multiset_ensures();
    assert(before.contains(item) <==> before.to_multiset().count(item) > 0);
    assert(after.contains(item) <==> after.to_multiset().count(item) > 0);
}

} // verus!
