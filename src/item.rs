//! Items addressed by title.

use vstd::prelude::*;

verus! {

/// Anything that is addressed by a human-editable title.
pub trait HyphaItem {
    /// The title as a sequence of characters.
    spec fn spec_title(&self) -> Seq<char>;

    fn title(&self) -> (r: &str)
        ensures
            r@ == self.spec_title(),
    ;
}

/// Compares two titles character by character.
pub fn same_title(a: &str, b: &str) -> (r: bool)
    ensures
        r == (a@ == b@),
{
    a.to_owned() == b.to_owned()
}

} // verus!
