//! A backend double that records each call as a line of text.

use vstd::prelude::*;
use crate::strs::push_str;

verus! {

/// A backend double that records every call as `op: argument`.
#[derive(Debug, Clone)]
pub struct MockBackend {
    pub calls: Vec<String>,
}

impl MockBackend {
    /// A backend that has recorded nothing.
    pub fn new() -> (r: Self)
        ensures
            r.calls@.len() == 0,
    {
        MockBackend { calls: Vec::new() }
    }

    /// Records one more call.
    pub fn record(&mut self, call: String)
        ensures
            final(self).calls@ == old(self).calls@.push(call),
    {
        self.calls.push(call);
    }

    /// Records the call `op` made with `arg`, as `op: arg`.
    pub fn record_op(&mut self, op: &str, arg: &str)
        ensures
            final(self).calls@.len() == old(self).calls@.len() + 1,
            final(self).calls@.drop_last() == old(self).calls@,
            final(self).calls@.last()@ == op@ + ": "@ + arg@,
    {
        let mut line = op.to_owned();
        push_str(&mut line, ": ");
        push_str(&mut line, arg);
        let ghost before = self.calls@;
        self.record(line);
        assert(self.calls@.drop_last() =~= before);
    }
}

} // verus!
