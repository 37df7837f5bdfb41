//! Access to the payload of one variant of an enum.
use vstd::prelude::*;

verus! {

/// Borrows the payload of a variant, if the value is that variant.
pub trait TryAsRef<T> {
    fn try_as_ref(&self) -> Option<&T>;
}

/// Borrows the payload of a variant mutably, if the value is that variant.
pub trait TryAsMut<T> {
    fn try_as_mut(&mut self) -> Option<&mut T>;
}

} // verus!
