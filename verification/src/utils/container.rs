use std::borrow::Borrow;
use std::ops::Deref;
use std::rc::Rc;
use std::sync::Arc;
use vstd::prelude::*;

verus! {

/// A value that owns or shares one item of type `T`.
///
/// The item a container holds is `item()`. Creating a container from a value holds that value.
/// Duplicating a container holds the same item where `duplicates_exactly()` holds; a container
/// that holds its item by value duplicates it by cloning it, and then holds a clone.
pub trait Container<T>: Deref<Target = T> + Clone + Borrow<T> + Sized {
    /// The item held by this container.
    spec fn item(&self) -> T;

    /// Whether a duplicate always holds the very same item as the container it was made from.
    spec fn duplicates_exactly() -> bool;

    fn new(v: T) -> (c: Self)
        ensures
            c.item() == v,
    ;

    /// A reference to the held item.
    fn get(&self) -> (r: &T)
        ensures
            *r == self.item(),
    ;

    /// Another container holding the same item, or a clone of it.
    fn duplicate(&self) -> (c: Self)
        ensures
            Self::duplicates_exactly() ==> c.item() == self.item(),
    ;
}

/// `Arc::clone`: a new pointer to the same allocation.
#[verifier::external_body]
pub(crate) fn arc_clone<T>(a: &Arc<T>) -> (r: Arc<T>)
    ensures
        *r == **a,
{
    Arc::clone(a)
}

impl<T> Container<T> for Arc<T> {
    open spec fn item(&self) -> T {
        **self
    }

    open spec fn duplicates_exactly() -> bool {
        true
    }

    fn new(v: T) -> (c: Arc<T>) {
        Arc::new(v)
    }

    fn get(&self) -> (r: &T) {
        &**self
    }

    fn duplicate(&self) -> (c: Arc<T>) {
        arc_clone(self)
    }
}

/// `Rc::clone`: a new pointer to the same allocation.
#[verifier::external_body]
fn rc_clone<T>(a: &Rc<T>) -> (r: Rc<T>)
    ensures
        *r == **a,
{
    Rc::clone(a)
}

impl<T> Container<T> for Rc<T> {
    open spec fn item(&self) -> T {
        **self
    }

    open spec fn duplicates_exactly() -> bool {
        true
    }

    fn new(v: T) -> (c: Rc<T>) {
        Rc::new(v)
    }

    fn get(&self) -> (r: &T) {
        &**self
    }

    fn duplicate(&self) -> (c: Rc<T>) {
        rc_clone(self)
    }
}

/// A container that holds its item by value.
pub struct Owned<T: Clone>(T);

impl<T: Clone> Clone for Owned<T> {
    /// A container holding a clone of the item.
    fn clone(&self) -> (r: Owned<T>)
        ensures
            cloned::<T>(self.value(), r.value()),
    {
        Owned(self.0.clone())
    }
}

impl<T: Clone> Owned<T> {
    /// The item held.
    pub closed spec fn value(&self) -> T {
        self.0
    }
}

impl<T: Clone> Deref for Owned<T> {
    type Target = T;

    fn deref(&self) -> (r: &T)
        ensures
            *r == self.value(),
    {
        let Owned(v) = self;
        v
    }
}

impl<T: Clone> std::ops::DerefMut for Owned<T> {
    fn deref_mut(&mut self) -> (r: &mut T)
        ensures
            *r == old(self).value(),
            final(self).value() == *final(r),
    {
        let Owned(ref mut v) = self;
        v
    }
}

impl<T: Clone> Borrow<T> for Owned<T> {
    fn borrow(&self) -> &T
        returns
            &self.value(),
    {
        &self.0
    }
}

impl<T: Clone> Container<T> for Owned<T> {
    open spec fn item(&self) -> T {
        self.value()
    }

    /// Duplicating clones the item, so the duplicate holds the same item where every clone of a
    /// `T` equals the original.
    open spec fn duplicates_exactly() -> bool {
        forall|a: T, b: T| #[trigger] cloned::<T>(a, b) ==> a == b
    }

    fn new(v: T) -> (c: Owned<T>) {
        Owned(v)
    }

    fn get(&self) -> (r: &T) {
        &self.0
    }

    fn duplicate(&self) -> (c: Owned<T>)
        ensures
            cloned::<T>(self.value(), c.value()),
    {
        Owned(self.0.clone())
    }
}

} // verus!
