//! The inspect command.

use vstd::prelude::*;

verus! {

/// Inspects one container, by id.
#[derive(Debug, Clone)]
pub struct InspectCommand {
    pub id: String,
}

} // verus!
