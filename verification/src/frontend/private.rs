//! The seal of the front ends.

use vstd::prelude::*;

verus! {

/// Implemented for the front ends of this crate and for nothing else.
pub trait Sealed {

}

} // verus!
