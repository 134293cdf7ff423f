//! The explorer of a node, as a test reaches it.

use vstd::prelude::*;

verus! {

/// The explorer of one node: where its queries are sent.
pub struct Explorer {
    address: String,
}

impl View for Explorer {
    type V = Seq<char>;

    /// The address that queries are sent to.
    closed spec fn view(&self) -> Seq<char> {
        self.address@
    }
}

impl Explorer {
    /// An explorer that sends its queries to the given address.
    pub fn new(address: String) -> (explorer: Explorer)
        ensures
            explorer@ == address@,
    {
        Explorer { address }
    }

    /// The address that queries are sent to.
    pub fn address(&self) -> (address: &str)
        ensures
            address@ == self@,
    {
        self.address.as_str()
    }
}

} // verus!
