//! Extensions of standard types used throughout the SDK.

use vstd::prelude::*;

verus! {

/// Unwrapping an `Option` that is known to hold a value.
pub trait UnreachableOption<T>: Sized {
    /// Whether the option holds a value.
    spec fn holds_value(&self) -> bool;

    /// The value the option holds.
    spec fn held_value(&self) -> T;

    /// The contained value; the option must hold one.
    fn unwrap_or_unreachable(self) -> (r: T)
        requires
            self.holds_value(),
        ensures
            r == self.held_value(),
    ;
}

impl<T> UnreachableOption<T> for Option<T> {
    open spec fn holds_value(&self) -> bool {
        *self is Some
    }

    open spec fn held_value(&self) -> T {
        self->0
    }

    fn unwrap_or_unreachable(self) -> (r: T) {
        match self {
            Some(value) => value,
            None => vstd::pervasive::unreached(),
        }
    }
}

} // verus!
