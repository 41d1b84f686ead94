//! A handle on one primitive of a shared metrics struct that keeps the
//! struct alive.

use std::ops::Deref;
use std::sync::Arc;
use vstd::prelude::*;

verus! {

/// A primitive of a metrics struct together with a share in the struct's
/// ownership: the struct is not freed while the handle or a clone of it
/// exists, and the handle is used like a reference to the primitive.
pub struct ChildMetric<T, C> {
    arc: Arc<T>,
    child: C,
}

impl<T, C> ChildMetric<T, C> {
    /// The metrics struct the handle keeps alive.
    pub closed spec fn owner(&self) -> T {
        *self.arc
    }

    /// The primitive the handle stands for.
    pub closed spec fn target(&self) -> C {
        self.child
    }
}

impl<T, C> Deref for ChildMetric<T, C> {
    type Target = C;

    fn deref(&self) -> (target: &C)
        ensures
            *target == self.target(),
    {
        &self.child
    }
}

impl<T, C: Clone> Clone for ChildMetric<T, C> {
    /// The clone holds its own share in the owner and a clone of the
    /// primitive's handle.
    fn clone(&self) -> (other: Self)
        ensures
            other.owner() == self.owner(),
            cloned(self.target(), other.target()),
    {
        ChildMetric { arc: self.arc.clone(), child: self.child.clone() }
    }
}

impl<T, C: Clone> ChildMetric<T, C> {
    /// A handle on the primitive that `get` selects in the struct behind
    /// `arc`.
    pub fn create<F: Fn(&T) -> &C>(arc: &Arc<T>, get: F) -> (handle: Self)
        requires
            call_requires(get, (&**arc,)),
        ensures
            handle.owner() == **arc,
            exists|selected: &C| #[trigger]
                call_ensures(get, (&**arc,), selected) && cloned(*selected, handle.target()),
    {
        let cloned = arc.clone();
        let item = get(&*cloned).clone();
        ChildMetric { arc: cloned, child: item }
    }
}

} // verus!
