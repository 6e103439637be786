//! Dependency edges between two issues.

use vstd::prelude::*;

verus! {

/// An unordered pair of references to two issues that depend on each other.
#[derive(Debug, Clone, PartialEq, Eq)]
pub struct HyphaDep<Ref> {
    pub left: Ref,
    pub right: Ref,
}

/// The two ends of an edge, as mathematical values.
pub ghost struct DepModel<M> {
    pub left: M,
    pub right: M,
}

impl<Ref: View> View for HyphaDep<Ref> {
    type V = DepModel<Ref::V>;

    open spec fn view(&self) -> DepModel<Ref::V> {
        DepModel { left: self.left@, right: self.right@ }
    }
}

} // verus!
