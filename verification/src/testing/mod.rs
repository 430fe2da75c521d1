//! Test doubles: backends that record the calls made to them.

pub mod mock_backend;

use vstd::prelude::*;
use crate::types::ContainerSpec;

verus! {

/// One call made to the recording backend.
#[derive(Debug, Clone)]
pub enum RecordedCall {
    Run(ContainerSpec),
    Inspect(String),
    Start(String),
    Stop(String, Option<u32>),
    Remove(String, bool),
}

/// A backend double that records every call made to it, in order.
#[derive(Debug, Clone)]
pub struct MockBackend {
    pub calls: Vec<RecordedCall>,
}

impl MockBackend {
    /// A backend that has recorded nothing.
    pub fn new() -> (r: Self)
        ensures
            r.calls@.len() == 0,
    {
        MockBackend { calls: Vec::new() }
    }

    /// Records one more call.
    pub fn record(&mut self, call: RecordedCall)
        ensures
            final(self).calls@ == old(self).calls@.push(call),
    {
        self.calls.push(call);
    }
}

} // verus!
