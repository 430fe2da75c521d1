//! Installing a container backend when none is found.

use vstd::prelude::*;
use crate::error::ComposeError;

verus! {

/// Offers to install a container backend.
#[derive(Debug, Clone, Copy)]
pub struct BackendInstaller;

impl BackendInstaller {
    /// No backend can be installed from here: the outcome is always
    /// `NoBackendFound`, with no backend probed.
    pub fn run() -> (r: Result<(), ComposeError>)
        ensures
            r matches Err(ComposeError::NoBackendFound { probed }) && probed@.len() == 0,
    {
        Err(ComposeError::NoBackendFound { probed: Vec::new() })
    }
}

} // verus!
