//! Values handed to script extensions by their host.

use vstd::prelude::*;

verus! {

/// A project summary as exposed to script extensions.
#[derive(Clone, Debug)]
pub struct Project {
    pub name: String,
    pub number: u8,
}

/// The fixed value the `simple` host call hands to an extension.
pub fn simple() -> (r: u8)
    ensures
        r == 90,
{
    90
}

} // verus!
