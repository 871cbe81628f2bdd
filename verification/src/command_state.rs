//! What the core keeps about state machine commands.

use crate::bounded_apply::{BoundedApply, BoundedApplyView};
use vstd::prelude::*;

verus! {

/// The progress of the state machine commands.
#[derive(Debug, Clone)]
pub struct CommandState {
    /// The sequence number of the last finished state machine command.
    pub finished_sm_seq: u64,
    /// Scalar ranges only; entry and response ownership is one page at a time.
    pub bounded_apply: BoundedApply,
}

impl Default for CommandState {
    /// No command has finished, and nothing is to be applied.
    fn default() -> (r: Self)
        ensures
            r.finished_sm_seq == 0,
            r.bounded_apply@ == BoundedApplyView::idle(),
    {
        CommandState { finished_sm_seq: 0, bounded_apply: BoundedApply::default() }
    }
}

} // verus!
