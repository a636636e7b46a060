//! Keeps the set of migration phases closed.

use vstd::prelude::*;

verus! {

/// Implemented by the phases of this crate and nothing else.
pub trait Sealed {

}

} // verus!
