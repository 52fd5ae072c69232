//! Failures of a prompt provider.

use vstd::prelude::*;

verus! {

/// A provider could not answer a prompt.
#[derive(Debug, Clone)]
pub struct AiError {
    pub message: String,
}

} // verus!
