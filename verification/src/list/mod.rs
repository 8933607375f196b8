use std::marker::PhantomData;
use std::sync::Arc;
use vstd::prelude::*;

use crate::utils::container::{arc_clone, Container};

pub mod compare;
pub mod render;
mod hashing;
pub mod laws;

verus! {

/// A persistent list with structural sharing.
///
/// The list is a chain of shared "cons" nodes. It also keeps its length and a container of its
/// last element, so that `len()` and `last()` take constant time. Its contents, front first, are
/// `self@`.
#[derive(Debug)]
pub struct List<T, DataContainer> where DataContainer: Container<T> {
    head: Option<Arc<Node<T, DataContainer>>>,
    last: Option<DataContainer>,
    length: usize,
}

#[derive(Debug)]
struct Node<T, DataContainer> where DataContainer: Container<T> {
    value: DataContainer,
    next: Option<Arc<Node<T, DataContainer>>>,
    phantom_t: PhantomData<T>,
}

/// The items of the chain that starts at `node`, front first.
spec fn chain_items<T, DataContainer: Container<T>>(
    node: Option<Arc<Node<T, DataContainer>>>,
) -> Seq<T>
    decreases node,
{
    match node {
        None => Seq::empty(),
        Some(n) => seq![n.value.item()] + chain_items(n.next),
    }
}

/// A new pointer to each node of the chain, that is, the same chain.
fn share_chain<T, DataContainer: Container<T>>(n: &Option<Arc<Node<T, DataContainer>>>) -> (r:
    Option<Arc<Node<T, DataContainer>>>)
    ensures
        r == *n,
{
    match n {
        Some(a) => Some(arc_clone(a)),
        None => None,
    }
}

/// The items of the chain that starts at the node `node` refers to, front first.
spec fn ref_items<T, DataContainer: Container<T>>(node: Option<&Node<T, DataContainer>>) -> Seq<
    T,
> {
    match node {
        None => Seq::empty(),
        Some(n) => seq![n.value.item()] + chain_items(n.next),
    }
}

/// `Arc::try_unwrap` on a node pointer: the node itself when this is its only pointer, else the
/// pointer back.
#[verifier::external_body]
fn unwrap_node<T, DataContainer: Container<T>>(n: Arc<Node<T, DataContainer>>) -> (r: Result<
    Node<T, DataContainer>,
    Arc<Node<T, DataContainer>>,
>)
    ensures
        match r {
            Ok(node) => node == *n,
            Err(shared) => *shared == *n,
        },
{
    Arc::try_unwrap(n)
}

impl<T, DataContainer: Container<T>> Node<T, DataContainer> {
    /// A copy of this node: the same item, and the same rest of the chain.
    fn clone_node(&self) -> (r: Node<T, DataContainer>)
        ensures
            DataContainer::duplicates_exactly() ==> r.value.item() == self.value.item(),
            r.next == self.next,
    {
        Node { value: self.value.duplicate(), next: share_chain(&self.next), phantom_t: PhantomData }
    }
}

/// Reversing `s` with one more item at its end puts that item first.
proof fn lemma_reverse_push<A>(s: Seq<A>, x: A)
    ensures
        s.push(x).reverse() == seq![x] + s.reverse(),
{
    assert(s.push(x).reverse() =~= seq![x] + s.reverse());
}

impl<T, DataContainer: Container<T>> View for List<T, DataContainer> {
    type V = Seq<T>;

    closed spec fn view(&self) -> Seq<T> {
        chain_items(self.head)
    }
}

impl<T, DataContainer: Container<T>> List<T, DataContainer> {
    #[verifier::type_invariant]
    spec fn well_formed(self) -> bool {
        &&& self.length == chain_items(self.head).len()
        &&& match self.last {
            None => self.length == 0,
            Some(c) => self.length > 0 && (DataContainer::duplicates_exactly() ==> c.item()
                == chain_items(self.head).last()),
        }
    }

    #[must_use]
    pub fn new() -> (l: List<T, DataContainer>)
        ensures
            l@ == Seq::<T>::empty(),
    {
        List { head: None, last: None, length: 0 }
    }

    #[must_use]
    pub fn first(&self) -> (r: Option<&T>)
        ensures
            match r {
                None => self@.len() == 0,
                Some(x) => self@.len() > 0 && *x == self@[0],
            },
    {
        match &self.head {
            Some(node) => Some((&node.value).get()),
            None => None,
        }
    }

    #[must_use]
    pub fn last(&self) -> (r: Option<&T>)
        ensures
            match r {
                None => self@.len() == 0,
                Some(x) => self@.len() > 0 && (DataContainer::duplicates_exactly() ==> *x
                    == self@.last()),
            },
    {
        proof {
            use_type_invariant(self);
        }
        match &self.last {
            Some(c) => Some(c.get()),
            None => None,
        }
    }

    #[must_use]
    pub fn len(&self) -> (r: usize)
        ensures
            r == self@.len(),
    {
        proof {
            use_type_invariant(self);
        }
        self.length
    }

    /// Moves the contents out, leaving `self` empty.
    fn take_all(&mut self) -> (l: List<T, DataContainer>)
        ensures
            l@ == old(self)@,
            final(self)@ == Seq::<T>::empty(),
    {
        let mut l = List::new();
        std::mem::swap(&mut l, self);
        l
    }

    #[must_use]
    pub fn drop_first(&self) -> (r: Option<List<T, DataContainer>>)
        ensures
            match r {
                None => self@.len() == 0,
                Some(l) => self@.len() > 0 && l@ == self@.drop_first(),
            },
    {
        let mut new_list = self.clone();
        if new_list.drop_first_mut() {
            Some(new_list)
        } else {
            None
        }
    }

    pub fn drop_first_mut(&mut self) -> (r: bool)
        ensures
            r == (old(self)@.len() > 0),
            final(self)@ == if r {
                old(self)@.drop_first()
            } else {
                old(self)@
            },
    {
        let l = self.take_all();
        proof {
            use_type_invariant(&l);
        }
        let List { head, last, length } = l;
        match head {
            Some(h) => {
                let next = share_chain(&h.next);
                let length = length - 1;
                let last = if length == 0 {
                    None
                } else {
                    last
                };
                assert(chain_items(next) == chain_items(head).drop_first());
                *self = List { head: next, last, length };
                true
            },
            None => {
                *self = List { head: None, last, length };
                false
            },
        }
    }

    fn push_front_arc_mut(&mut self, v: DataContainer)
        requires
            old(self)@.len() < usize::MAX,
        ensures
            final(self)@ == seq![v.item()] + old(self)@,
    {
        let l = self.take_all();
        proof {
            use_type_invariant(&l);
        }
        let List { head, last, length } = l;
        let last = if length == 0 {
            Some(v.duplicate())
        } else {
            last
        };
        let new_head = Node { value: v, next: head, phantom_t: PhantomData };
        *self = List { head: Some(Arc::new(new_head)), last, length: length + 1 };
    }

    #[must_use]
    pub fn push_front(&self, v: T) -> (r: List<T, DataContainer>)
        requires
            self@.len() < usize::MAX,
        ensures
            r@ == seq![v] + self@,
    {
        let mut new_list = self.clone();
        new_list.push_front_mut(v);
        new_list
    }

    pub fn push_front_mut(&mut self, v: T)
        requires
            old(self)@.len() < usize::MAX,
        ensures
            final(self)@ == seq![v] + old(self)@,
    {
        self.push_front_arc_mut(DataContainer::new(v))
    }

    #[must_use]
    pub fn reverse(&self) -> (r: List<T, DataContainer>)
        ensures
            r@.len() == self@.len(),
            DataContainer::duplicates_exactly() ==> r@ == self@.reverse(),
    {
        proof {
            use_type_invariant(self);
        }
        let mut new_list = List::new();
        let mut it = self.iter_container();
        let ghost s = self@;
        let ghost mut k: int = 0;
        loop
            invariant_except_break
                0 <= k <= s.len(),
                s.len() <= usize::MAX,
                it@ == s.skip(k),
                new_list@.len() == k,
                DataContainer::duplicates_exactly() ==> new_list@ == s.take(k).reverse(),
            ensures
                new_list@.len() == s.len(),
                DataContainer::duplicates_exactly() ==> new_list@ == s.reverse(),
            decreases it@.len(),
        {
            match it.next() {
                Some(v) => {
                    proof {
                        assert(s.take(k + 1) == s.take(k).push(s[k]));
                        lemma_reverse_push(s.take(k), s[k]);
                        assert(s.skip(k + 1) == s.skip(k).drop_first());
                        k = k + 1;
                    }
                    new_list.push_front_arc_mut(v.duplicate());
                },
                None => {
                    assert(s.take(k) == s);
                    break ;
                },
            }
        }
        new_list
    }

    pub fn reverse_mut(&mut self)
        ensures
            final(self)@.len() == old(self)@.len(),
            DataContainer::duplicates_exactly() ==> final(self)@ == old(self)@.reverse(),
    {
        let l = self.take_all();
        proof {
            use_type_invariant(&l);
        }
        let ghost s = l@;
        let List { head, last: _, length } = l;
        let new_last = match &head {
            Some(node) => Some(node.value.duplicate()),
            None => None,
        };
        let mut prev: Option<Arc<Node<T, DataContainer>>> = None;
        let mut current = head;
        let ghost mut k: int = 0;
        loop
            invariant_except_break
                0 <= k <= s.len(),
                chain_items(current) == s.skip(k),
                chain_items(prev).len() == k,
                DataContainer::duplicates_exactly() ==> chain_items(prev) == s.take(k).reverse(),
            ensures
                chain_items(prev).len() == s.len(),
                DataContainer::duplicates_exactly() ==> chain_items(prev) == s.reverse(),
            decreases s.len() - k,
        {
            match current {
                Some(curr_arc) => {
                    proof {
                        assert(chain_items(current) == seq![curr_arc.value.item()] + chain_items(
                            curr_arc.next,
                        ));
                        assert(s.skip(k).len() > 0);
                        assert(s.skip(k)[0] == s[k]);
                    }
                    let mut node = match unwrap_node(curr_arc) {
                        Ok(node) => node,
                        Err(shared) => shared.clone_node(),
                    };
                    let curr_next = node.next.take();
                    node.next = prev;
                    proof {
                        assert(s.take(k + 1) == s.take(k).push(s[k]));
                        lemma_reverse_push(s.take(k), s[k]);
                        assert(s.skip(k + 1) == s.skip(k).drop_first());
                        k = k + 1;
                    }
                    current = curr_next;
                    prev = Some(Arc::new(node));
                },
                None => {
                    assert(s.take(k) == s);
                    break ;
                },
            }
        }
        *self = List { head: prev, last: new_last, length };
    }

    /// The list of the items of `v`, in the same order.
    pub fn from_vec(v: Vec<T>) -> (l: List<T, DataContainer>)
        ensures
            l@ == v@,
    {
        let mut v = v;
        let _n: usize = v.len();
        let mut list = List::new();
        let ghost s = v@;
        loop
            invariant_except_break
                s == v@ + list@,
                v@.len() + list@.len() == s.len(),
                s.len() <= usize::MAX,
            ensures
                list@ == s,
            decreases v@.len(),
        {
            match v.pop() {
                Some(e) => {
                    proof {
                        assert(v@.push(e) + list@ == v@ + (seq![e] + list@));
                    }
                    list.push_front_mut(e);
                },
                None => {
                    assert(s == list@);
                    break ;
                },
            }
        }
        list
    }

    /// The items of the list, front first, one by one.
    #[must_use]
    pub fn iter(&self) -> (it: Iter<'_, T, DataContainer>)
        ensures
            it@ == self@,
    {
        Iter { inner: self.iter_container() }
    }

    /// The containers of the list, front first, one by one.
    pub(crate) fn iter_container(&self) -> (it: IterContainer<'_, T, DataContainer>)
        ensures
            it@ == self@,
    {
        IterContainer::new(self)
    }

    #[must_use]
    pub fn is_empty(&self) -> (r: bool)
        ensures
            r == (self@.len() == 0),
    {
        self.len() == 0
    }
}

impl<T, DataContainer: Container<T>> Default for List<T, DataContainer> {
    fn default() -> (l: List<T, DataContainer>)
        ensures
            l@ == Seq::<T>::empty(),
    {
        List::new()
    }
}

impl<T, DataContainer: Container<T>> Clone for List<T, DataContainer> {
    fn clone(&self) -> (r: List<T, DataContainer>)
        ensures
            r@ == self@,
    {
        proof {
            use_type_invariant(self);
        }
        let last = match &self.last {
            Some(c) => Some(c.duplicate()),
            None => None,
        };
        List { head: share_chain(&self.head), last, length: self.length }
    }
}

/// A walk over the containers of a list, front first.
#[derive(Debug)]
pub struct IterContainer<'a, T, DataContainer> where DataContainer: Container<T> {
    next: Option<&'a Node<T, DataContainer>>,
    length: usize,
}

impl<'a, T, DataContainer: Container<T>> View for IterContainer<'a, T, DataContainer> {
    type V = Seq<T>;

    /// The items still to come, in order.
    closed spec fn view(&self) -> Seq<T> {
        ref_items(self.next)
    }
}

impl<'a, T, DataContainer: Container<T>> IterContainer<'a, T, DataContainer> {
    #[verifier::type_invariant]
    spec fn well_formed(self) -> bool {
        self.length == ref_items(self.next).len()
    }

    fn new(list: &'a List<T, DataContainer>) -> (it: IterContainer<'a, T, DataContainer>)
        ensures
            it@ == list@,
    {
        proof {
            use_type_invariant(list);
        }
        let next = match &list.head {
            Some(node) => Some(&**node),
            None => None,
        };
        IterContainer { next, length: list.len() }
    }

    /// The next container, if any is left.
    pub fn next(&mut self) -> (r: Option<&'a DataContainer>)
        ensures
            match r {
                None => old(self)@.len() == 0 && final(self)@ == old(self)@,
                Some(c) => {
                    &&& old(self)@.len() > 0
                    &&& c.item() == old(self)@[0]
                    &&& final(self)@ == old(self)@.drop_first()
                },
            },
    {
        proof {
            use_type_invariant(&*self);
        }
        match self.next {
            Some(node) => {
                let next = match &node.next {
                    Some(n) => Some(&**n),
                    None => None,
                };
                *self = IterContainer { next, length: self.length - 1 };
                Some(&node.value)
            },
            None => None,
        }
    }

    /// The number of containers left, as a lower and an upper bound.
    pub fn size_hint(&self) -> (r: (usize, Option<usize>))
        ensures
            r == (self@.len() as usize, Some(self@.len() as usize)),
            r.0 == self@.len(),
    {
        proof {
            use_type_invariant(self);
        }
        (self.length, Some(self.length))
    }
}

/// A walk over the items of a list, front first.
#[derive(Debug)]
pub struct Iter<'a, T, DataContainer> where DataContainer: Container<T> {
    inner: IterContainer<'a, T, DataContainer>,
}

impl<'a, T, DataContainer: Container<T>> View for Iter<'a, T, DataContainer> {
    type V = Seq<T>;

    /// The items still to come, in order.
    closed spec fn view(&self) -> Seq<T> {
        self.inner@
    }
}

impl<'a, T, DataContainer: Container<T>> Iter<'a, T, DataContainer> {
    /// The next item, if any is left.
    pub fn next(&mut self) -> (r: Option<&'a T>)
        ensures
            match r {
                None => old(self)@.len() == 0 && final(self)@ == old(self)@,
                Some(x) => {
                    &&& old(self)@.len() > 0
                    &&& *x == old(self)@[0]
                    &&& final(self)@ == old(self)@.drop_first()
                },
            },
    {
        match self.inner.next() {
            Some(c) => Some(c.get()),
            None => None,
        }
    }

    /// The number of items left, as a lower and an upper bound.
    pub fn size_hint(&self) -> (r: (usize, Option<usize>))
        ensures
            r.0 == self@.len(),
            r.1 == Some(r.0),
    {
        self.inner.size_hint()
    }
}

} // verus!
