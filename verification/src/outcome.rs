//! What a handler hands back.

use vstd::prelude::*;
use vstd::string::to_string_from_display_ensures;

verus! {

/// What a handler hands back: nothing, or an error to report.
pub trait Outcome {
    /// The error to report, if the handler failed.
    fn as_error(&self) -> Option<String>;
}

impl Outcome for () {
    /// Nothing is never an error.
    fn as_error(&self) -> (r: Option<String>)
        ensures
            r is None,
    {
        None
    }
}

impl<E: core::fmt::Display> Outcome for Result<(), E> {
    /// The error of a failure, as it is displayed.
    fn as_error(&self) -> (r: Option<String>)
        ensures
            match *self {
                Ok(_) => r is None,
                Err(error) => r matches Some(text) && to_string_from_display_ensures::<E>(
                    &error,
                    text,
                ),
            },
    {
        match self {
            Ok(_) => None,
            Err(error) => Some(error.to_string()),
        }
    }
}

} // verus!
