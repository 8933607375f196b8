use std::cmp::Ordering;
use std::collections::hash_map::DefaultHasher;
use std::hash::{Hash, Hasher};
use std::rc::Rc;
use std::sync::Arc;

use rpds::utils::container::Owned;
use rpds::List;

type ArcList<T> = List<T, Arc<T>>;

fn items<T: Clone>(l: &ArcList<T>) -> Vec<T> {
    let mut out = Vec::new();
    let mut it = l.iter();
    while let Some(x) = it.next() {
        out.push(x.clone());
    }
    out
}

fn hash_of<H: Hash>(x: &H) -> u64 {
    let mut h = DefaultHasher::new();
    x.hash(&mut h);
    h.finish()
}

#[test]
fn push_front_builds_list_like_from_vec() {
    let l: ArcList<i32> = List::new().push_front(3).push_front(2).push_front(1);
    let expected: ArcList<i32> = List::from_vec(vec![1, 2, 3]);
    assert_eq!(l, expected);
    assert_eq!(items(&l), vec![1, 2, 3]);
}

#[test]
fn new_list_is_empty() {
    let l: ArcList<i32> = List::new();
    assert_eq!(l.len(), 0);
    assert!(l.is_empty());
    assert_eq!(l.first(), None);
    assert_eq!(l.last(), None);
    assert!(l.drop_first().is_none());
}

#[test]
fn default_is_empty() {
    let l: ArcList<String> = Default::default();
    assert!(l.is_empty());
    let e: ArcList<String> = List::new();
    assert_eq!(l, e);
}

#[test]
fn first_last_and_len() {
    let l: ArcList<i32> = List::from_vec(vec![4, 5, 6, 7]);
    assert_eq!(l.first(), Some(&4));
    assert_eq!(l.last(), Some(&7));
    assert_eq!(l.len(), 4);
    assert!(!l.is_empty());
}

#[test]
fn push_front_keeps_the_original() {
    let a: ArcList<i32> = List::new().push_front(1);
    let b = a.push_front(0);
    assert_eq!(items(&a), vec![1]);
    assert_eq!(items(&b), vec![0, 1]);
    assert_eq!(b.last(), Some(&1));
    assert_eq!(a.last(), Some(&1));
}

#[test]
fn push_front_mut_updates_first_and_last() {
    let mut l: ArcList<&str> = List::new();
    l.push_front_mut("b");
    assert_eq!(l.first(), Some(&"b"));
    assert_eq!(l.last(), Some(&"b"));
    l.push_front_mut("a");
    assert_eq!(l.first(), Some(&"a"));
    assert_eq!(l.last(), Some(&"b"));
    assert_eq!(l.len(), 2);
}

#[test]
fn drop_first_removes_the_head() {
    let l: ArcList<i32> = List::from_vec(vec![1, 2, 3]);
    let d = l.drop_first().unwrap();
    assert_eq!(items(&d), vec![2, 3]);
    assert_eq!(d.last(), Some(&3));
    assert_eq!(items(&l), vec![1, 2, 3]);
    let single: ArcList<i32> = List::new().push_front(9);
    let empty = single.drop_first().unwrap();
    assert!(empty.is_empty());
    assert_eq!(empty.last(), None);
    assert_eq!(empty.first(), None);
}

#[test]
fn drop_first_mut_reports_whether_it_dropped() {
    let mut l: ArcList<i32> = List::from_vec(vec![1, 2]);
    assert!(l.drop_first_mut());
    assert_eq!(items(&l), vec![2]);
    assert!(l.drop_first_mut());
    assert!(l.is_empty());
    assert_eq!(l.last(), None);
    assert!(!l.drop_first_mut());
    assert!(l.is_empty());
}

#[test]
fn drop_first_undoes_push_front() {
    let l: ArcList<i32> = List::from_vec(vec![5, 6]);
    let back = l.push_front(4).drop_first().unwrap();
    assert_eq!(back, l);
    assert_eq!(back.last(), Some(&6));
}

#[test]
fn reverse_reverses() {
    let l: ArcList<i32> = List::from_vec(vec![1, 2, 3]);
    let r = l.reverse();
    assert_eq!(items(&r), vec![3, 2, 1]);
    assert_eq!(r.first(), Some(&3));
    assert_eq!(r.last(), Some(&1));
    assert_eq!(items(&l), vec![1, 2, 3]);
    let e: ArcList<i32> = List::new();
    assert!(e.reverse().is_empty());
}

#[test]
fn reverse_twice_gives_back_the_list() {
    let l: ArcList<i32> = List::from_vec(vec![7, 8, 9, 10]);
    assert_eq!(l.reverse().reverse(), l);
}

#[test]
fn reverse_mut_leaves_shared_copies_alone() {
    let mut l: ArcList<i32> = List::from_vec(vec![1, 2, 3]);
    let shared = l.clone();
    l.reverse_mut();
    assert_eq!(items(&l), vec![3, 2, 1]);
    assert_eq!(l.first(), Some(&3));
    assert_eq!(l.last(), Some(&1));
    assert_eq!(l.len(), 3);
    assert_eq!(items(&shared), vec![1, 2, 3]);
    assert_eq!(shared.last(), Some(&3));
    let mut e: ArcList<i32> = List::new();
    e.reverse_mut();
    assert!(e.is_empty());
    assert_eq!(e.last(), None);
}

#[test]
fn iter_walks_front_to_back() {
    let l: ArcList<char> = List::from_vec(vec!['x', 'y']);
    let mut it = l.iter();
    assert_eq!(it.size_hint(), (2, Some(2)));
    assert_eq!(it.next(), Some(&'x'));
    assert_eq!(it.size_hint(), (1, Some(1)));
    assert_eq!(it.next(), Some(&'y'));
    assert_eq!(it.next(), None);
    assert_eq!(it.size_hint(), (0, Some(0)));
    assert_eq!(it.next(), None);
}

#[test]
fn lists_with_other_containers_compare_equal() {
    let a: ArcList<i32> = List::from_vec(vec![1, 2, 3]);
    let b: List<i32, Rc<i32>> = List::from_vec(vec![1, 2, 3]);
    let c: List<i32, Owned<i32>> = List::from_vec(vec![1, 2, 4]);
    let d: List<i32, Rc<i32>> = List::from_vec(vec![1, 2]);
    assert!(a == b);
    assert!(a != c);
    assert!(a != d);
    assert!(b == b.clone());
}

#[test]
fn lists_order_lexicographically() {
    let a: ArcList<i32> = List::from_vec(vec![1, 2]);
    let b: ArcList<i32> = List::from_vec(vec![1, 3]);
    let c: ArcList<i32> = List::from_vec(vec![1, 2, 0]);
    let e: ArcList<i32> = List::new();
    assert_eq!(a.partial_cmp(&b), Some(Ordering::Less));
    assert_eq!(b.partial_cmp(&a), Some(Ordering::Greater));
    assert_eq!(a.partial_cmp(&c), Some(Ordering::Less));
    assert_eq!(c.partial_cmp(&a), Some(Ordering::Greater));
    assert_eq!(a.partial_cmp(&a.clone()), Some(Ordering::Equal));
    assert_eq!(e.partial_cmp(&a), Some(Ordering::Less));
    assert_eq!(e.partial_cmp(&e), Some(Ordering::Equal));
    assert!(a < b);
    assert!(b >= c);
}

#[test]
fn incomparable_items_make_lists_incomparable() {
    let a: ArcList<f64> = List::from_vec(vec![1.0, f64::NAN]);
    let b: ArcList<f64> = List::from_vec(vec![1.0, 2.0]);
    assert_eq!(a.partial_cmp(&b), None);
    let c: ArcList<f64> = List::from_vec(vec![0.5, f64::NAN]);
    assert_eq!(c.partial_cmp(&b), Some(Ordering::Less));
}

#[test]
fn equal_lists_hash_equally() {
    let a: ArcList<i32> = List::from_vec(vec![1, 2, 3]);
    let b: ArcList<i32> = List::new().push_front(3).push_front(2).push_front(1);
    assert_eq!(hash_of(&a), hash_of(&b));
    let mut h = DefaultHasher::new();
    3usize.hash(&mut h);
    1i32.hash(&mut h);
    2i32.hash(&mut h);
    3i32.hash(&mut h);
    assert_eq!(hash_of(&a), h.finish());
}

#[test]
fn to_string_shows_items_in_brackets() {
    let l: ArcList<i32> = List::from_vec(vec![1, 2, 3]);
    assert_eq!(l.to_string().unwrap(), "[1, 2, 3]");
    let one: ArcList<&str> = List::new().push_front("a");
    assert_eq!(one.to_string().unwrap(), "[a]");
    let e: ArcList<i32> = List::new();
    assert_eq!(e.to_string().unwrap(), "[]");
}

struct Unshowable;

impl std::fmt::Display for Unshowable {
    fn fmt(&self, _f: &mut std::fmt::Formatter) -> std::fmt::Result {
        Err(std::fmt::Error)
    }
}

#[test]
fn to_string_reports_an_item_display_error() {
    let l: ArcList<Unshowable> = List::new().push_front(Unshowable);
    assert_eq!(l.to_string(), Err(std::fmt::Error));
    let e: ArcList<Unshowable> = List::new();
    assert_eq!(e.to_string().unwrap(), "[]");
}

#[test]
fn clone_is_equal_and_independent() {
    let mut a: ArcList<i32> = List::from_vec(vec![1, 2]);
    let b = a.clone();
    assert_eq!(a, b);
    a.push_front_mut(0);
    assert_eq!(items(&b), vec![1, 2]);
    assert_eq!(items(&a), vec![0, 1, 2]);
}

#[test]
fn owned_and_rc_containers_work_as_arc() {
    let mut o: List<u8, Owned<u8>> = List::new();
    o.push_front_mut(2);
    o.push_front_mut(1);
    assert_eq!(o.first(), Some(&1));
    assert_eq!(o.last(), Some(&2));
    o.reverse_mut();
    assert_eq!(o.first(), Some(&2));
    assert_eq!(o.last(), Some(&1));
    let r: List<u8, Rc<u8>> = List::from_vec(vec![1, 2]).reverse();
    assert_eq!(r.first(), Some(&2));
    assert!(o == r);
}

#[test]
fn from_vec_keeps_order() {
    let l: ArcList<i32> = List::from_vec(vec![]);
    assert!(l.is_empty());
    let l: ArcList<i32> = List::from_vec(vec![3, 1, 2]);
    assert_eq!(items(&l), vec![3, 1, 2]);
    assert_eq!(l.last(), Some(&2));
    assert_eq!(l.len(), 3);
}

#[test]
fn cmp_orders_totally() {
    let a: ArcList<i32> = List::from_vec(vec![1, 2]);
    let b: ArcList<i32> = List::from_vec(vec![1, 3]);
    let c: ArcList<i32> = List::from_vec(vec![1, 2, 0]);
    let e: ArcList<i32> = List::new();
    assert_eq!(a.cmp(&b), Ordering::Less);
    assert_eq!(b.cmp(&a), Ordering::Greater);
    assert_eq!(a.cmp(&c), Ordering::Less);
    assert_eq!(a.cmp(&a.clone()), Ordering::Equal);
    assert_eq!(e.cmp(&e), Ordering::Equal);
    assert_eq!(e.cmp(&a), Ordering::Less);
    assert_eq!(a.cmp(&e), Ordering::Greater);
    assert_eq!(a.partial_cmp(&c), Some(a.cmp(&c)));
}

#[test]
fn owned_strings_make_a_list() {
    let mut l: List<String, Owned<String>> = List::new();
    l.push_front_mut(String::from("b"));
    l.push_front_mut(String::from("a"));
    assert_eq!(l.first().map(|s| s.as_str()), Some("a"));
    assert_eq!(l.last().map(|s| s.as_str()), Some("b"));
    let r = l.reverse();
    assert_eq!(r.first().map(|s| s.as_str()), Some("b"));
    assert_eq!(r.last().map(|s| s.as_str()), Some("a"));
    l.reverse_mut();
    assert!(l == r);
    assert_eq!(l.to_string().unwrap(), "[b, a]");
}
