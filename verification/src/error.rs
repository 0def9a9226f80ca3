//! The recoverable failure channel. Internal-consistency violations (stack
//! underflow inside a guard, a handle whose value has the wrong runtime
//! type, a stack that cannot grow) are fatal and never surface as a value of
//! this type; they are ruled out by preconditions throughout the crate.

use vstd::prelude::*;

verus! {

/// A value of the source kind could not be converted to the requested host
/// kind. Carries both kind names and the validation failure message.
#[derive(Debug)]
pub enum Error {
    FromForeignConversionError { from: &'static str, to: &'static str, message: Option<String> },
}

} // verus!
