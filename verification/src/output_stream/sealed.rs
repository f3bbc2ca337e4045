//! Keeps the marker traits of the policies from being implemented elsewhere.

use vstd::prelude::*;

verus! {

/// Implemented by the delivery markers.
pub trait DeliverySealed {

}

/// Implemented by the replay markers.
pub trait ReplaySealed {

}

} // verus!
