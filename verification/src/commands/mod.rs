//! Commands run against a container backend.

pub mod inspect;

use vstd::prelude::*;

verus! {

/// Inspects one container.
#[derive(Debug, Clone)]
pub struct InspectCommand {
    pub container_id: String,
}

} // verus!
