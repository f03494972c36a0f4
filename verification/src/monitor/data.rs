//! Database directory monitor

use crate::message::Message;
use vstd::prelude::*;

verus! {

/// Database directory monitor: watches the node's database directory.
///
/// No database observation is reported yet; each update contributes no
/// messages.
#[derive(Debug)]
pub struct Data {
    /// Path to the database
    pub path: String,
}

impl Data {
    /// Create a new database directory monitor.
    pub fn new(path: String) -> (r: Data)
        ensures
            r.path@ == path@,
    {
        Data { path }
    }

    /// Update internal state, returning any changes.
    pub fn update(&mut self, force: bool) -> (r: Vec<Message>)
        ensures
            final(self).path@ == old(self).path@,
            r.deep_view() =~= Seq::<crate::message::MessageView>::empty(),
    {
        let output: Vec<Message> = Vec::new();
        output
    }
}

} // verus!
