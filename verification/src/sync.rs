//! Marker traits for values that may cross threads together with their VM.
//! A VM of this crate stays on one thread, so every type qualifies.

use vstd::prelude::*;

verus! {

/// A type that may be moved along with a VM.
pub trait MaybeSend {}

impl<T> MaybeSend for T {}

/// A type that may be shared along with a VM.
pub trait MaybeSync {}

impl<T> MaybeSync for T {}

} // verus!
