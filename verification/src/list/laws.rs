use core::cmp::Ordering;
use vstd::laws_eq::obeys_concrete_eq;
use vstd::laws_cmp::obeys_cmp_ord;
use vstd::laws_cmp::obeys_cmp_partial_ord;
use vstd::laws_eq::obeys_eq_spec_properties;
use vstd::prelude::*;
use vstd::std_specs::cmp::PartialEqSpec;
use vstd::std_specs::cmp::OrdSpec;
use vstd::std_specs::cmp::PartialOrdSpec;

use super::compare::{items_equal, lexicographic, lexicographic_total};
use super::List;
use crate::utils::container::Container;

verus! {

/// Dropping the first item of a list that `v` was pushed onto gives back the list: where `pushed`
/// is what `l.push_front(v)` returns and `dropped` what `pushed.drop_first()` returns, `dropped`
/// is a list with the items of `l`.
pub proof fn law_drop_first_undoes_push_front<T, DataContainer: Container<T>>(
    l: List<T, DataContainer>,
    v: T,
    pushed: List<T, DataContainer>,
    dropped: Option<List<T, DataContainer>>,
)
    requires
        call_ensures(List::<T, DataContainer>::push_front, (&l, v), pushed),
        call_ensures(List::<T, DataContainer>::drop_first, (&pushed,), dropped),
    ensures
        dropped matches Some(back) && back@ == l@,
{
    assert(pushed@.drop_first() =~= l@);
}

/// After `v` is pushed onto a list, `first()` gives `v` and `len()` is one more; where duplicated
/// containers hold the same item, `last()` gives `v` if the list was empty and what it gave
/// before otherwise.
pub proof fn law_push_front_ends<T, DataContainer: Container<T>>(
    l: List<T, DataContainer>,
    v: T,
    pushed: List<T, DataContainer>,
    len_before: usize,
    last_before: Option<&T>,
    first_after: Option<&T>,
    len_after: usize,
    last_after: Option<&T>,
)
    requires
        call_ensures(List::<T, DataContainer>::push_front, (&l, v), pushed),
        call_ensures(List::<T, DataContainer>::len, (&l,), len_before),
        call_ensures(List::<T, DataContainer>::last, (&l,), last_before),
        call_ensures(List::<T, DataContainer>::first, (&pushed,), first_after),
        call_ensures(List::<T, DataContainer>::len, (&pushed,), len_after),
        call_ensures(List::<T, DataContainer>::last, (&pushed,), last_after),
    ensures
        first_after == Some(&v),
        len_after == len_before + 1,
        DataContainer::duplicates_exactly() ==> last_after == if len_before == 0 {
            Some(&v)
        } else {
            last_before
        },
{
}

/// Every list, however it was built (by `push_front`, `drop_first`, `reverse` and the rest), keeps
/// its length and its last item in agreement with its items: `len()` is the number of items,
/// `last()` gives nothing exactly on an empty list, and, where duplicated containers hold the same
/// item, it gives the last item otherwise.
pub proof fn law_length_and_last_agree_with_items<T, DataContainer: Container<T>>(
    l: List<T, DataContainer>,
    len: usize,
    last: Option<&T>,
)
    requires
        call_ensures(List::<T, DataContainer>::len, (&l,), len),
        call_ensures(List::<T, DataContainer>::last, (&l,), last),
    ensures
        len == l@.len(),
        last is None <==> len == 0,
        len > 0 && DataContainer::duplicates_exactly() ==> last == Some(&l@[len - 1]),
{
}

/// Where duplicated containers hold the same item, reversing a list twice gives back its items:
/// where `once` is what `l.reverse()` returns and
/// `twice` what `once.reverse()` returns, `twice` holds the items of `l` in their order.
pub proof fn law_reverse_involutive<T, DataContainer: Container<T>>(
    l: List<T, DataContainer>,
    once: List<T, DataContainer>,
    twice: List<T, DataContainer>,
)
    requires
        DataContainer::duplicates_exactly(),
        call_ensures(List::<T, DataContainer>::reverse, (&l,), once),
        call_ensures(List::<T, DataContainer>::reverse, (&once,), twice),
    ensures
        twice@ == l@,
{
    assert(l@.reverse().reverse() =~= l@);
}

/// Where duplicated containers hold the same item, reversing keeps the length and swaps the
/// ends: where `r` is what `l.reverse()` returns,
/// `r.len()` is `l.len()`, `r.first()` gives what `l.last()` gives, and `r.last()` what
/// `l.first()` gives.
pub proof fn law_reverse_swaps_ends<T, DataContainer: Container<T>>(
    l: List<T, DataContainer>,
    r: List<T, DataContainer>,
    len_before: usize,
    first_before: Option<&T>,
    last_before: Option<&T>,
    len_after: usize,
    first_after: Option<&T>,
    last_after: Option<&T>,
)
    requires
        DataContainer::duplicates_exactly(),
        call_ensures(List::<T, DataContainer>::reverse, (&l,), r),
        call_ensures(List::<T, DataContainer>::len, (&l,), len_before),
        call_ensures(List::<T, DataContainer>::first, (&l,), first_before),
        call_ensures(List::<T, DataContainer>::last, (&l,), last_before),
        call_ensures(List::<T, DataContainer>::len, (&r,), len_after),
        call_ensures(List::<T, DataContainer>::first, (&r,), first_after),
        call_ensures(List::<T, DataContainer>::last, (&r,), last_after),
    ensures
        len_after == len_before,
        first_after == last_before,
        last_after == first_before,
{
}

/// Rebuilding a list from a vector that holds its items, in the order its iterator yields them,
/// gives a list with the same items: where `m` is what `List::from_vec(items)` returns, `m@` is
/// `l@`.
pub proof fn law_from_vec_rebuilds<T, DataContainer: Container<T>>(
    l: List<T, DataContainer>,
    items: Vec<T>,
    m: List<T, DataContainer>,
)
    requires
        items@ == l@,
        call_ensures(List::<T, DataContainer>::from_vec, (items,), m),
    ensures
        m@ == l@,
{
}

/// Where the items' equality is plain equality, two lists are equal exactly when they hold the
/// same items in the same order, whatever containers each of them uses.
pub proof fn law_equal_lists_hold_equal_items<
    T: PartialEq,
    DataContainer: Container<T>,
    DataContainerOther: Container<T>,
>(a: List<T, DataContainer>, b: List<T, DataContainerOther>)
    requires
        obeys_concrete_eq::<T>(),
    ensures
        items_equal(a@, b@) <==> a@ == b@,
{
    reveal(obeys_concrete_eq);
    if items_equal(a@, b@) {
        assert(a@ =~= b@);
    }
    if a@ == b@ {
        assert forall|i: int| 0 <= i < a@.len() implies (#[trigger] a@[i]).eq_spec(&b@[i]) by {
            assert(a@[i] == b@[i]);
        }
    }
}

/// Where the items' equality is symmetric, so is the equality of lists.
pub proof fn law_equality_is_symmetric<
    T: PartialEq,
    DataContainer: Container<T>,
    DataContainerOther: Container<T>,
>(a: List<T, DataContainer>, b: List<T, DataContainerOther>)
    requires
        obeys_eq_spec_properties::<T>(),
    ensures
        items_equal(a@, b@) <==> items_equal(b@, a@),
{
    reveal(obeys_eq_spec_properties);
    if items_equal(a@, b@) {
        assert forall|i: int| 0 <= i < b@.len() implies (#[trigger] b@[i]).eq_spec(&a@[i]) by {
            assert(a@[i].eq_spec(&b@[i]));
        }
    }
    if items_equal(b@, a@) {
        assert forall|i: int| 0 <= i < a@.len() implies (#[trigger] a@[i]).eq_spec(&b@[i]) by {
            assert(b@[i].eq_spec(&a@[i]));
        }
    }
}

/// The outcome of a comparison seen from the other side.
pub open spec fn flipped(o: Option<Ordering>) -> Option<Ordering> {
    match o {
        Some(Ordering::Less) => Some(Ordering::Greater),
        Some(Ordering::Greater) => Some(Ordering::Less),
        other => other,
    }
}

proof fn lemma_lexicographic_flips<T: PartialOrd>(a: Seq<T>, b: Seq<T>)
    requires
        forall|x: T, y: T| #[trigger] x.partial_cmp_spec(&y) == flipped(y.partial_cmp_spec(&x)),
    ensures
        lexicographic(a, b) == flipped(lexicographic(b, a)),
    decreases a.len(),
{
    if a.len() > 0 && b.len() > 0 {
        assert(a[0].partial_cmp_spec(&b[0]) == flipped(b[0].partial_cmp_spec(&a[0])));
        lemma_lexicographic_flips(a.drop_first(), b.drop_first());
    }
}

/// Where comparing two items one way round gives the opposite of comparing them the other way
/// round, the same holds of lists: `a < b` exactly when `b > a`, and they are equal or
/// incomparable together.
pub proof fn law_order_is_antisymmetric<
    T: PartialOrd,
    DataContainer: Container<T>,
    DataContainerOther: Container<T>,
>(a: List<T, DataContainer>, b: List<T, DataContainerOther>)
    requires
        forall|x: T, y: T| #[trigger] x.partial_cmp_spec(&y) == flipped(y.partial_cmp_spec(&x)),
    ensures
        lexicographic(a@, b@) == flipped(lexicographic(b@, a@)),
{
    lemma_lexicographic_flips(a@, b@);
}

/// Where each item compares equal to itself, a sequence compares equal to itself.
proof fn lemma_lexicographic_reflexive<T: PartialOrd>(s: Seq<T>)
    requires
        forall|x: T| #[trigger] x.partial_cmp_spec(&x) == Some(Ordering::Equal),
    ensures
        lexicographic(s, s) == Some(Ordering::Equal),
    decreases s.len(),
{
    if s.len() > 0 {
        assert(s[0].partial_cmp_spec(&s[0]) == Some(Ordering::Equal));
        lemma_lexicographic_reflexive(s.drop_first());
    }
}

/// Where each item compares equal to itself, a proper prefix is less than the longer sequence.
proof fn lemma_lexicographic_prefix<T: PartialOrd>(a: Seq<T>, b: Seq<T>)
    requires
        forall|x: T| #[trigger] x.partial_cmp_spec(&x) == Some(Ordering::Equal),
        a.len() < b.len(),
        forall|i: int| 0 <= i < a.len() ==> a[i] == b[i],
    ensures
        lexicographic(a, b) == Some(Ordering::Less),
    decreases a.len(),
{
    if a.len() > 0 {
        assert(a[0] == b[0]);
        assert(a[0].partial_cmp_spec(&b[0]) == Some(Ordering::Equal));
        lemma_lexicographic_prefix(a.drop_first(), b.drop_first());
    }
}

/// Where each item compares equal to itself, every list compares equal to itself, and a list
/// that is a proper prefix of another is less than it.
pub proof fn law_order_of_prefixes<
    T: PartialOrd,
    DataContainer: Container<T>,
    DataContainerOther: Container<T>,
>(a: List<T, DataContainer>, b: List<T, DataContainerOther>)
    requires
        forall|x: T| #[trigger] x.partial_cmp_spec(&x) == Some(Ordering::Equal),
    ensures
        lexicographic(a@, a@) == Some(Ordering::Equal),
        a@.len() < b@.len() && (forall|i: int| 0 <= i < a@.len() ==> a@[i] == b@[i])
            ==> lexicographic(a@, b@) == Some(Ordering::Less),
{
    lemma_lexicographic_reflexive(a@);
    if a@.len() < b@.len() && (forall|i: int| 0 <= i < a@.len() ==> a@[i] == b@[i]) {
        lemma_lexicographic_prefix(a@, b@);
    }
}

/// Item-by-item equality of two non-empty sequences is equality of their first items and
/// item-by-item equality of the rest.
proof fn lemma_items_equal_unfold<T: PartialEq>(a: Seq<T>, b: Seq<T>)
    requires
        a.len() > 0,
        b.len() > 0,
    ensures
        items_equal(a, b) <==> a[0].eq_spec(&b[0]) && items_equal(a.drop_first(), b.drop_first()),
{
    if items_equal(a, b) {
        assert(a[0].eq_spec(&b[0]));
        assert forall|i: int| 0 <= i < a.drop_first().len() implies (#[trigger] a.drop_first()[i]).eq_spec(
            &b.drop_first()[i],
        ) by {
            assert(a[i + 1].eq_spec(&b[i + 1]));
        }
    }
    if a[0].eq_spec(&b[0]) && items_equal(a.drop_first(), b.drop_first()) {
        assert forall|i: int| 0 <= i < a.len() implies (#[trigger] a[i]).eq_spec(&b[i]) by {
            if i > 0 {
                assert(a.drop_first()[i - 1].eq_spec(&b.drop_first()[i - 1]));
            }
        }
    }
}

proof fn lemma_lexicographic_equal<T: PartialOrd>(a: Seq<T>, b: Seq<T>)
    requires
        forall|x: T, y: T| x.eq_spec(&y) <==> x.partial_cmp_spec(&y) == Some(Ordering::Equal),
    ensures
        lexicographic(a, b) == Some(Ordering::Equal) <==> items_equal(a, b),
    decreases a.len(),
{
    if a.len() > 0 && b.len() > 0 {
        lemma_items_equal_unfold(a, b);
        assert(a[0].eq_spec(&b[0]) <==> a[0].partial_cmp_spec(&b[0]) == Some(Ordering::Equal));
        lemma_lexicographic_equal(a.drop_first(), b.drop_first());
    }
}

/// Where items compare `Equal` exactly when they are equal, two lists compare `Equal` exactly
/// when they are equal item by item, that is, exactly when `==` holds of them.
pub proof fn law_comparing_equal_is_equality<
    T: PartialOrd,
    DataContainer: Container<T>,
    DataContainerOther: Container<T>,
>(a: List<T, DataContainer>, b: List<T, DataContainerOther>)
    requires
        obeys_cmp_partial_ord::<T>(),
    ensures
        lexicographic(a@, b@) == Some(Ordering::Equal) <==> items_equal(a@, b@),
{
    reveal(obeys_cmp_partial_ord);
    lemma_lexicographic_equal(a@, b@);
}

proof fn lemma_partial_agrees_with_total<T: Ord>(a: Seq<T>, b: Seq<T>)
    requires
        forall|x: T, y: T|
            #![trigger x.partial_cmp_spec(&y)]
            #![trigger x.cmp_spec(&y)]
            x.partial_cmp_spec(&y) == Some(x.cmp_spec(&y)),
    ensures
        lexicographic(a, b) == Some(lexicographic_total(a, b)),
    decreases a.len(),
{
    if a.len() > 0 && b.len() > 0 {
        assert(a[0].partial_cmp_spec(&b[0]) == Some(a[0].cmp_spec(&b[0])));
        lemma_partial_agrees_with_total(a.drop_first(), b.drop_first());
    }
}

/// Where each item's `partial_cmp` is `Some` of its `cmp`, a list's `partial_cmp` is `Some` of its
/// `cmp`; and where, besides, items compare `Equal` exactly when they are equal, `cmp` gives
/// `Equal` exactly when the lists are equal item by item.
pub proof fn law_total_order_agrees<T: Ord, DataContainer: Container<T>>(
    a: List<T, DataContainer>,
    b: List<T, DataContainer>,
)
    requires
        obeys_cmp_ord::<T>(),
    ensures
        lexicographic(a@, b@) == Some(lexicographic_total(a@, b@)),
        obeys_cmp_partial_ord::<T>() ==> (lexicographic_total(a@, b@) == Ordering::Equal
            <==> items_equal(a@, b@)),
{
    reveal(obeys_cmp_ord);
    lemma_partial_agrees_with_total(a@, b@);
    if obeys_cmp_partial_ord::<T>() {
        reveal(obeys_cmp_partial_ord);
        lemma_lexicographic_equal(a@, b@);
    }
}

/// The outcome of a total comparison seen from the other side.
pub open spec fn opposite(o: Ordering) -> Ordering {
    match o {
        Ordering::Less => Ordering::Greater,
        Ordering::Greater => Ordering::Less,
        Ordering::Equal => Ordering::Equal,
    }
}

proof fn lemma_total_flips<T: Ord>(a: Seq<T>, b: Seq<T>)
    requires
        forall|x: T, y: T| #[trigger] x.cmp_spec(&y) == opposite(y.cmp_spec(&x)),
    ensures
        lexicographic_total(a, b) == opposite(lexicographic_total(b, a)),
    decreases a.len(),
{
    if a.len() > 0 && b.len() > 0 {
        assert(a[0].cmp_spec(&b[0]) == opposite(b[0].cmp_spec(&a[0])));
        lemma_total_flips(a.drop_first(), b.drop_first());
    }
}

/// Where comparing two items one way round gives the opposite of comparing them the other way
/// round, `a.cmp(&b)` is the opposite of `b.cmp(&a)`.
pub proof fn law_total_order_is_antisymmetric<T: Ord, DataContainer: Container<T>>(
    a: List<T, DataContainer>,
    b: List<T, DataContainer>,
)
    requires
        forall|x: T, y: T| #[trigger] x.cmp_spec(&y) == opposite(y.cmp_spec(&x)),
    ensures
        lexicographic_total(a@, b@) == opposite(lexicographic_total(b@, a@)),
{
    lemma_total_flips(a@, b@);
}

/// The length order of two lengths: `Less` if the first is shorter, `Greater` if it is longer.
pub open spec fn length_order(m: nat, n: nat) -> Ordering {
    if m < n {
        Ordering::Less
    } else if m > n {
        Ordering::Greater
    } else {
        Ordering::Equal
    }
}

proof fn lemma_lexicographic_first_difference<T: PartialOrd>(a: Seq<T>, b: Seq<T>, k: int)
    requires
        0 <= k < a.len(),
        k < b.len(),
        forall|i: int|
            0 <= i < k ==> (#[trigger] a[i]).partial_cmp_spec(&b[i]) == Some(Ordering::Equal),
        a[k].partial_cmp_spec(&b[k]) != Some(Ordering::Equal),
    ensures
        lexicographic(a, b) == a[k].partial_cmp_spec(&b[k]),
    decreases k,
{
    if k > 0 {
        assert(a[0].partial_cmp_spec(&b[0]) == Some(Ordering::Equal));
        assert forall|i: int| 0 <= i < k - 1 implies (#[trigger] a.drop_first()[i]).partial_cmp_spec(
            &b.drop_first()[i],
        ) == Some(Ordering::Equal) by {
            assert(a[i + 1].partial_cmp_spec(&b[i + 1]) == Some(Ordering::Equal));
        }
        lemma_lexicographic_first_difference(a.drop_first(), b.drop_first(), k - 1);
    }
}

proof fn lemma_lexicographic_common_prefix<T: PartialOrd>(a: Seq<T>, b: Seq<T>)
    requires
        forall|i: int|
            0 <= i < a.len() && i < b.len() ==> (#[trigger] a[i]).partial_cmp_spec(&b[i]) == Some(
                Ordering::Equal,
            ),
    ensures
        lexicographic(a, b) == Some(length_order(a.len(), b.len())),
    decreases a.len(),
{
    if a.len() > 0 && b.len() > 0 {
        assert(a[0].partial_cmp_spec(&b[0]) == Some(Ordering::Equal));
        assert forall|i: int|
            0 <= i < a.drop_first().len() && i < b.drop_first().len() implies (
            #[trigger] a.drop_first()[i]).partial_cmp_spec(&b.drop_first()[i]) == Some(
            Ordering::Equal,
        ) by {
            assert(a[i + 1].partial_cmp_spec(&b[i + 1]) == Some(Ordering::Equal));
        }
        lemma_lexicographic_common_prefix(a.drop_first(), b.drop_first());
    }
}

/// The first pair of items that do not compare `Equal` decides `partial_cmp`: where `r` is what
/// `a.partial_cmp(&b)` returns, the items at positions before `k` compare `Equal`, and the items
/// at `k` do not, `r` is what comparing the items at `k` gives, whatever follows them.
pub proof fn law_first_difference_decides<
    T: PartialOrd,
    DataContainer: Container<T>,
    DataContainerOther: Container<T>,
>(a: List<T, DataContainer>, b: List<T, DataContainerOther>, r: Option<Ordering>, k: int)
    requires
        T::obeys_partial_cmp_spec(),
        call_ensures(List::<T, DataContainer>::partial_cmp, (&a, &b), r),
        0 <= k < a@.len(),
        k < b@.len(),
        forall|i: int|
            0 <= i < k ==> (#[trigger] a@[i]).partial_cmp_spec(&b@[i]) == Some(Ordering::Equal),
        a@[k].partial_cmp_spec(&b@[k]) != Some(Ordering::Equal),
    ensures
        r == a@[k].partial_cmp_spec(&b@[k]),
{
    lemma_lexicographic_first_difference(a@, b@, k);
}

/// Where every pair of items at the same position compares `Equal`, `partial_cmp` orders the
/// lists by length: the shorter one is less, and lists of one length are equal.
pub proof fn law_common_prefix_orders_by_length<
    T: PartialOrd,
    DataContainer: Container<T>,
    DataContainerOther: Container<T>,
>(a: List<T, DataContainer>, b: List<T, DataContainerOther>, r: Option<Ordering>)
    requires
        T::obeys_partial_cmp_spec(),
        call_ensures(List::<T, DataContainer>::partial_cmp, (&a, &b), r),
        forall|i: int|
            0 <= i < a@.len() && i < b@.len() ==> (#[trigger] a@[i]).partial_cmp_spec(&b@[i])
                == Some(Ordering::Equal),
    ensures
        r == Some(length_order(a@.len(), b@.len())),
{
    lemma_lexicographic_common_prefix(a@, b@);
}

proof fn lemma_total_first_difference<T: Ord>(a: Seq<T>, b: Seq<T>, k: int)
    requires
        0 <= k < a.len(),
        k < b.len(),
        forall|i: int| 0 <= i < k ==> (#[trigger] a[i]).cmp_spec(&b[i]) == Ordering::Equal,
        a[k].cmp_spec(&b[k]) != Ordering::Equal,
    ensures
        lexicographic_total(a, b) == a[k].cmp_spec(&b[k]),
    decreases k,
{
    if k > 0 {
        assert(a[0].cmp_spec(&b[0]) == Ordering::Equal);
        assert forall|i: int| 0 <= i < k - 1 implies (#[trigger] a.drop_first()[i]).cmp_spec(
            &b.drop_first()[i],
        ) == Ordering::Equal by {
            assert(a[i + 1].cmp_spec(&b[i + 1]) == Ordering::Equal);
        }
        lemma_total_first_difference(a.drop_first(), b.drop_first(), k - 1);
    }
}

proof fn lemma_total_common_prefix<T: Ord>(a: Seq<T>, b: Seq<T>)
    requires
        forall|i: int|
            0 <= i < a.len() && i < b.len() ==> (#[trigger] a[i]).cmp_spec(&b[i])
                == Ordering::Equal,
    ensures
        lexicographic_total(a, b) == length_order(a.len(), b.len()),
    decreases a.len(),
{
    if a.len() > 0 && b.len() > 0 {
        assert(a[0].cmp_spec(&b[0]) == Ordering::Equal);
        assert forall|i: int|
            0 <= i < a.drop_first().len() && i < b.drop_first().len() implies (
            #[trigger] a.drop_first()[i]).cmp_spec(&b.drop_first()[i]) == Ordering::Equal by {
            assert(a[i + 1].cmp_spec(&b[i + 1]) == Ordering::Equal);
        }
        lemma_total_common_prefix(a.drop_first(), b.drop_first());
    }
}

/// The first pair of items that do not compare `Equal` decides `cmp`: where `r` is what
/// `a.cmp(&b)` returns, the items at positions before `k` compare `Equal`, and the items at `k`
/// do not, `r` is what comparing the items at `k` gives, whatever follows them.
pub proof fn law_first_difference_decides_cmp<T: Ord, DataContainer: Container<T>>(
    a: List<T, DataContainer>,
    b: List<T, DataContainer>,
    r: Ordering,
    k: int,
)
    requires
        T::obeys_cmp_spec(),
        call_ensures(List::<T, DataContainer>::cmp, (&a, &b), r),
        0 <= k < a@.len(),
        k < b@.len(),
        forall|i: int| 0 <= i < k ==> (#[trigger] a@[i]).cmp_spec(&b@[i]) == Ordering::Equal,
        a@[k].cmp_spec(&b@[k]) != Ordering::Equal,
    ensures
        r == a@[k].cmp_spec(&b@[k]),
{
    lemma_total_first_difference(a@, b@, k);
}

/// Where every pair of items at the same position compares `Equal`, `cmp` orders the lists by
/// length: the shorter one is less, and lists of one length are equal.
pub proof fn law_common_prefix_orders_by_length_cmp<T: Ord, DataContainer: Container<T>>(
    a: List<T, DataContainer>,
    b: List<T, DataContainer>,
    r: Ordering,
)
    requires
        T::obeys_cmp_spec(),
        call_ensures(List::<T, DataContainer>::cmp, (&a, &b), r),
        forall|i: int|
            0 <= i < a@.len() && i < b@.len() ==> (#[trigger] a@[i]).cmp_spec(&b@[i])
                == Ordering::Equal,
    ensures
        r == length_order(a@.len(), b@.len()),
{
    lemma_total_common_prefix(a@, b@);
}

} // verus!
