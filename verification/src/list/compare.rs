use core::cmp::Ordering;
use vstd::prelude::*;
use vstd::std_specs::cmp::PartialEqSpec;
use vstd::std_specs::cmp::PartialEqSpecImpl;
use vstd::std_specs::cmp::OrdSpec;
use vstd::std_specs::cmp::PartialOrdSpec;
use vstd::std_specs::cmp::PartialOrdSpecImpl;

use super::List;
use crate::utils::container::Container;

verus! {

/// Two sequences are equal item by item, by the items' own equality.
pub open spec fn items_equal<T: PartialEq>(a: Seq<T>, b: Seq<T>) -> bool {
    &&& a.len() == b.len()
    &&& forall|i: int| 0 <= i < a.len() ==> (#[trigger] a[i]).eq_spec(&b[i])
}

/// The lexicographic comparison of two sequences by the items' own partial order: the first
/// pair of items that are not equal decides; where one sequence is a prefix of the other, the
/// shorter one is less.
pub open spec fn lexicographic<T: PartialOrd>(a: Seq<T>, b: Seq<T>) -> Option<Ordering>
    decreases a.len(),
{
    if a.len() == 0 {
        if b.len() == 0 {
            Some(Ordering::Equal)
        } else {
            Some(Ordering::Less)
        }
    } else if b.len() == 0 {
        Some(Ordering::Greater)
    } else {
        match a[0].partial_cmp_spec(&b[0]) {
            Some(Ordering::Equal) => lexicographic(a.drop_first(), b.drop_first()),
            other => other,
        }
    }
}

/// The lexicographic comparison of two sequences by the items' own total order: the first pair
/// of items that are not equal decides; where one sequence is a prefix of the other, the shorter
/// one is less.
pub open spec fn lexicographic_total<T: Ord>(a: Seq<T>, b: Seq<T>) -> Ordering
    decreases a.len(),
{
    if a.len() == 0 {
        if b.len() == 0 {
            Ordering::Equal
        } else {
            Ordering::Less
        }
    } else if b.len() == 0 {
        Ordering::Greater
    } else {
        match a[0].cmp_spec(&b[0]) {
            Ordering::Equal => lexicographic_total(a.drop_first(), b.drop_first()),
            other => other,
        }
    }
}

impl<T: Ord, DataContainer: Container<T>> List<T, DataContainer> {
    /// The total order of lists: lexicographic by the items' own order, a proper prefix being
    /// less.
    pub fn cmp(&self, other: &List<T, DataContainer>) -> (r: Ordering)
        ensures
            T::obeys_cmp_spec() ==> r == lexicographic_total(self@, other@),
            self@.len() == 0 && other@.len() == 0 ==> r == Ordering::Equal,
            self@.len() == 0 && other@.len() > 0 ==> r == Ordering::Less,
            self@.len() > 0 && other@.len() == 0 ==> r == Ordering::Greater,
    {
        let mut a = self.iter();
        let mut b = other.iter();
        let ghost s = self@;
        let ghost o = other@;
        assert(s.skip(0) =~= s);
        assert(o.skip(0) =~= o);
        let ghost mut k: int = 0;
        loop
            invariant
                s == self@,
                o == other@,
                0 <= k <= s.len(),
                k <= o.len(),
                s.len() == 0 || o.len() == 0 ==> k == 0,
                a@ == s.skip(k),
                b@ == o.skip(k),
                T::obeys_cmp_spec() ==> lexicographic_total(s, o) == lexicographic_total(
                    s.skip(k),
                    o.skip(k),
                ),
            decreases s.len() - k,
        {
            let x = a.next();
            let y = b.next();
            match (x, y) {
                (Some(x), Some(y)) => {
                    proof {
                        assert(s.skip(k)[0] == s[k]);
                        assert(o.skip(k)[0] == o[k]);
                        assert(s.skip(k + 1) == s.skip(k).drop_first());
                        assert(o.skip(k + 1) == o.skip(k).drop_first());
                    }
                    match T::cmp(x, y) {
                        Ordering::Equal => {
                            proof {
                                k = k + 1;
                            }
                        },
                        decided => {
                            return decided;
                        },
                    }
                },
                (None, None) => {
                    return Ordering::Equal;
                },
                (None, Some(_)) => {
                    return Ordering::Less;
                },
                (Some(_), None) => {
                    return Ordering::Greater;
                },
            }
        }
    }
}

impl<T: PartialEq, DataContainer: Container<T>, DataContainerOther: Container<T>> PartialEq<
    List<T, DataContainerOther>,
> for List<T, DataContainer> {
    fn eq(&self, other: &List<T, DataContainerOther>) -> (r: bool)
        ensures
            self@.len() != other@.len() ==> !r,
    {
        if self.len() != other.len() {
            return false;
        }
        let mut a = self.iter();
        let mut b = other.iter();
        let ghost s = self@;
        let ghost o = other@;
        let ghost mut k: int = 0;
        loop
            invariant
                s == self@,
                o == other@,
                s.len() == o.len(),
                0 <= k <= s.len(),
                a@ == s.skip(k),
                b@ == o.skip(k),
                T::obeys_eq_spec() ==> forall|j: int| 0 <= j < k ==> (#[trigger] s[j]).eq_spec(&o[j]),
            decreases s.len() - k,
        {
            let x = a.next();
            let y = b.next();
            match (x, y) {
                (Some(x), Some(y)) => {
                    proof {
                        assert(s.skip(k)[0] == s[k]);
                        assert(o.skip(k)[0] == o[k]);
                        assert(s.skip(k + 1) == s.skip(k).drop_first());
                        assert(o.skip(k + 1) == o.skip(k).drop_first());
                    }
                    if !(*x == *y) {
                        proof {
                            if T::obeys_eq_spec() {
                                assert(!s[k].eq_spec(&o[k]));
                                assert(!items_equal(s, o));
                            }
                        }
                        return false;
                    }
                    proof {
                        k = k + 1;
                    }
                },
                _ => {
                    proof {
                        if k < s.len() {
                            assert(s.skip(k).len() > 0);
                        }
                    }
                    proof {
                        if T::obeys_eq_spec() {
                            assert(items_equal(s, o));
                        }
                    }
                    return true;
                },
            }
        }
    }
}

impl<T: PartialEq, DataContainer: Container<T>, DataContainerOther: Container<T>> PartialEqSpecImpl<
    List<T, DataContainerOther>,
> for List<T, DataContainer> {
    open spec fn obeys_eq_spec() -> bool {
        T::obeys_eq_spec()
    }

    open spec fn eq_spec(&self, other: &List<T, DataContainerOther>) -> bool {
        items_equal(self@, other@)
    }
}

impl<T: PartialOrd, DataContainer: Container<T>, DataContainerOther: Container<T>> PartialOrd<
    List<T, DataContainerOther>,
> for List<T, DataContainer> {
    fn partial_cmp(&self, other: &List<T, DataContainerOther>) -> (r: Option<Ordering>)
        ensures
            self@.len() == 0 && other@.len() == 0 ==> r == Some(Ordering::Equal),
            self@.len() == 0 && other@.len() > 0 ==> r == Some(Ordering::Less),
            self@.len() > 0 && other@.len() == 0 ==> r == Some(Ordering::Greater),
    {
        let mut a = self.iter();
        let mut b = other.iter();
        let ghost s = self@;
        let ghost o = other@;
        assert(s.skip(0) =~= s);
        assert(o.skip(0) =~= o);
        let ghost mut k: int = 0;
        loop
            invariant
                s == self@,
                o == other@,
                0 <= k <= s.len(),
                k <= o.len(),
                s.len() == 0 || o.len() == 0 ==> k == 0,
                a@ == s.skip(k),
                b@ == o.skip(k),
                T::obeys_partial_cmp_spec() ==> lexicographic(s, o) == lexicographic(
                    s.skip(k),
                    o.skip(k),
                ),
            decreases s.len() - k,
        {
            let x = a.next();
            let y = b.next();
            match (x, y) {
                (Some(x), Some(y)) => {
                    proof {
                        assert(s.skip(k)[0] == s[k]);
                        assert(o.skip(k)[0] == o[k]);
                        assert(s.skip(k + 1) == s.skip(k).drop_first());
                        assert(o.skip(k + 1) == o.skip(k).drop_first());
                    }
                    match x.partial_cmp(y) {
                        Some(Ordering::Equal) => {
                            proof {
                                k = k + 1;
                            }
                        },
                        decided => {
                            return decided;
                        },
                    }
                },
                (None, None) => {
                    return Some(Ordering::Equal);
                },
                (None, Some(_)) => {
                    return Some(Ordering::Less);
                },
                (Some(_), None) => {
                    return Some(Ordering::Greater);
                },
            }
        }
    }
}

impl<T: PartialOrd, DataContainer: Container<T>, DataContainerOther: Container<T>> PartialOrdSpecImpl<
    List<T, DataContainerOther>,
> for List<T, DataContainer> {
    open spec fn obeys_partial_cmp_spec() -> bool {
        T::obeys_partial_cmp_spec()
    }

    open spec fn partial_cmp_spec(&self, other: &List<T, DataContainerOther>) -> Option<Ordering> {
        lexicographic(self@, other@)
    }
}

impl<T: Eq, DataContainer: Container<T>> Eq for List<T, DataContainer> {

}

} // verus!
