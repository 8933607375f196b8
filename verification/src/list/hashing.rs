use std::hash::{Hash, Hasher};
use vstd::prelude::*;

use super::List;
use crate::utils::container::Container;

verus! {

/// `Hash::hash`: feeds `x` into `state`.
#[verifier::external_body]
fn feed<X: Hash, H: Hasher>(x: &X, state: &mut H) {
    x.hash(state)
}

impl<T: Hash, DataContainer: Container<T>> Hash for List<T, DataContainer> {
    fn hash<H: Hasher>(&self, state: &mut H) {
        feed(&self.len(), state);
        let mut it = self.iter();
        loop
            decreases it@.len(),
        {
            match it.next() {
                Some(e) => feed(e, state),
                None => break,
            }
        }
    }
}

} // verus!
