//! Turning a result into an option where an error is only worth reporting.
use vstd::prelude::*;

verus! {

/// A result whose error is reported and then dropped.
pub trait OkLog<T> {
    /// The value, or nothing when there was an error.
    fn ok_log(self) -> Option<T>;
}

impl<T, E> OkLog<T> for Result<T, E> {
    fn ok_log(self) -> (r: Option<T>)
        ensures
            r == match self {
                Ok(v) => Some(v),
                Err(_) => None::<T>,
            },
    {
        match self {
            Ok(value) => Some(value),
            Err(_) => None,
        }
    }
}

} // verus!
