//! The serving side of a table: once frozen, a table is shared by handle and
//! only read.

use vstd::prelude::*;
use std::sync::Arc;
use crate::flow::{Action, Flow, Packet};
use crate::model::classify;
use crate::table::FlowTable;

verus! {

/// A frozen table. The handle is cheap to copy, every copy reads the same
/// rules, and nothing can insert into them any more.
pub struct SharedTable {
    table: Arc<FlowTable>,
}

impl View for SharedTable {
    type V = Seq<Flow>;

    /// The rules of the table that was frozen.
    closed spec fn view(&self) -> Seq<Flow> {
        self.table@
    }
}

impl FlowTable {
    /// Ends the building of the table and hands out its serving handle.
    pub fn freeze(self) -> (shared: SharedTable)
        requires
            self.wf(),
        ensures
            shared.wf(),
            shared@ == self@,
    {
        SharedTable { table: Arc::new(self) }
    }
}

impl SharedTable {
    /// The invariant of the table behind the handle.
    pub closed spec fn wf(&self) -> bool {
        self.table.wf()
    }

    /// Decides which rule wins a packet. The answer depends on the frozen
    /// rules and on the packet alone, so every handle, on every thread,
    /// gives the same one.
    pub fn classify(&self, packet: Packet) -> (verdict: Option<Action>)
        requires
            self.wf(),
        ensures
            verdict == classify(self@, packet),
    {
        self.table.match_flow(packet)
    }
}

impl Clone for SharedTable {
    fn clone(&self) -> (copy: SharedTable)
        ensures
            copy@ == self@,
            copy.wf() == self.wf(),
    {
        SharedTable { table: self.table.clone() }
    }
}

} // verus!
