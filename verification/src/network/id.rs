//! Network IDs

use vstd::prelude::*;

verus! {

/// Identifier of a network (a chain ID).
#[derive(Debug)]
pub struct Id {
    /// The chain ID text
    pub value: String,
}

impl View for Id {
    type V = Seq<char>;

    open spec fn view(&self) -> Seq<char> {
        self.value@
    }
}

impl Clone for Id {
    /// A clone denotes the same network.
    fn clone(&self) -> (r: Self)
        ensures
            r@ == self@,
    {
        Id { value: self.value.clone() }
    }
}

impl Id {
    /// Wrap a chain ID string.
    pub fn new(value: String) -> (r: Id)
        ensures
            r@ == value@,
    {
        Id { value }
    }

    /// The ID as text.
    pub fn as_str(&self) -> (r: &str)
        ensures
            r@ == self@,
    {
        self.value.as_str()
    }

    /// Character-for-character equality of two IDs.
    pub fn eq_id(&self, other: &Id) -> (r: bool)
        ensures
            r == (self@ == other@),
    {
        crate::text::str_eq(self.value.as_str(), other.value.as_str())
    }
}

} // verus!
