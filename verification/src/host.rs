//! The host that a program runs on.

use vstd::prelude::*;

verus! {

/// What a host offers: `T` on Windows, nothing elsewhere.
#[derive(Debug, Clone, Copy)]
pub enum Host<T> {
    Windows(T),
    Unsupported,
}

/// The model of an outcome.
pub open spec fn outcome<T: View, E: View>(result: Result<T, E>) -> Result<T::V, E::V> {
    match result {
        Ok(value) => Ok(value@),
        Err(error) => Err(error@),
    }
}

/// The model of an outcome is the model of its value or of its error.
pub proof fn law_outcomes_keep_their_side<T: View, E: View>(value: T, error: E)
    ensures
        outcome(Ok::<T, E>(value)) == Ok::<T::V, E::V>(value@),
        outcome(Err::<T, E>(error)) == Err::<T::V, E::V>(error@),
{
}

} // verus!
