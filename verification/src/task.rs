//! A restartable-sequence task: its critical-section descriptor, and the
//! protocol between the section wrapper and its end and abort handlers.
use vstd::prelude::*;

use crate::offset_table::{find_offset, table_has, table_names, table_sorted};
use crate::rseq_types::{RseqCs, RseqCsExt};

verus! {

/// A critical section of the payload: its entry function and the commit
/// action that ends it.
pub struct RseqTask {
    pub main_symbol: &'static str,
    pub commit_symbol: &'static str,
}

/// The offset of a commit action's post-commit point from the start of the
/// critical-section code: the action's distance from the start plus the
/// offset recorded for it.
pub fn post_commit_offset(commit_function: u64, start_section_addr: u64, recorded: u64) -> (res: u64)
    requires
        start_section_addr <= commit_function,
        commit_function - start_section_addr + recorded <= u64::MAX,
    ensures
        res == commit_function - start_section_addr + recorded,
{
    commit_function - start_section_addr + recorded
}

impl RseqTask {
    /// The descriptor of the task's critical section: it starts at
    /// `start_section_addr`, commits after the task's commit action, whose
    /// code is at `commit_function`, and aborts to `abort_ip`.
    ///
    /// `None` when `table` has no offset for the commit action, or when the
    /// commit action lies before the start or its post-commit point beyond
    /// the address space.
    pub fn descriptor(&self, table: &[(&str, u64)], commit_function: u64, start_section_addr: u64, abort_ip: u64) -> (res: Option<RseqCs>)
        ensures
            res matches Some(cs) ==> {
                &&& cs.version == 0
                &&& cs.flags == 0
                &&& cs.start_ip == start_section_addr
                &&& cs.abort_ip == abort_ip
                &&& start_section_addr <= commit_function
                &&& exists|recorded: u64| table_has(table@, self.commit_symbol@, recorded)
                    && cs.post_commit_offset == commit_function - start_section_addr + recorded
            },
            res is None ==> {
                ||| (table_sorted(table@) ==> !table_names(table@, self.commit_symbol@))
                ||| commit_function < start_section_addr
                ||| exists|recorded: u64| table_has(table@, self.commit_symbol@, recorded)
                    && commit_function - start_section_addr + recorded > u64::MAX
            },
    {
        let recorded = match find_offset(table, self.commit_symbol) {
            Some(r) => r,
            None => {
                return None;
            },
        };
        if commit_function < start_section_addr {
            return None;
        }
        let distance = commit_function - start_section_addr;
        if distance > u64::MAX - recorded {
            return None;
        }
        let offset = post_commit_offset(commit_function, start_section_addr, recorded);
        Some(<RseqCs as RseqCsExt>::new(start_section_addr, offset, abort_ip))
    }
}

/// The value with which the abort handler returns to the section wrapper.
pub const ABORT_JUMP_VALUE: i32 = 1;

/// The value with which the end handler returns to the section wrapper.
pub const END_JUMP_VALUE: i32 = 2;

/// What the section wrapper does when its jump point is reached.
pub enum WrapperAction {
    /// Install the descriptor and run the critical section (again).
    EnterCriticalSection,
    /// Clear the thread's descriptor and return to the caller.
    ClearAndReturn,
}

/// The value the abort handler jumps back with.
pub fn inner_abort_handler() -> (res: i32)
    ensures
        res == ABORT_JUMP_VALUE,
{
    ABORT_JUMP_VALUE
}

/// The value the end handler jumps back with once a commit action is done.
pub fn rseq_end_handler() -> (res: i32)
    ensures
        res == END_JUMP_VALUE,
{
    END_JUMP_VALUE
}

/// The wrapper's decision for the value its jump point returns.
pub open spec fn wrapper_action(jump_value: i32) -> WrapperAction {
    if jump_value == END_JUMP_VALUE {
        WrapperAction::ClearAndReturn
    } else {
        WrapperAction::EnterCriticalSection
    }
}

/// The wrapper's decision at its jump point: the first arrival (value 0)
/// and a return from the abort handler run the section; a return from the
/// end handler finishes.
pub fn rseq_cs_wrapper_action(jump_value: i32) -> (res: WrapperAction)
    ensures
        res == wrapper_action(jump_value),
{
    if jump_value == END_JUMP_VALUE {
        WrapperAction::ClearAndReturn
    } else {
        WrapperAction::EnterCriticalSection
    }
}

/// The thread's descriptor word after the wrapper acts: the section's
/// descriptor while it runs, zero once it has returned.
pub fn rseq_cs_after(action: WrapperAction, critical_section_to_use: u64) -> (res: u64)
    ensures
        action is EnterCriticalSection ==> res == critical_section_to_use,
        action is ClearAndReturn ==> res == 0,
{
    match action {
        WrapperAction::EnterCriticalSection => critical_section_to_use,
        WrapperAction::ClearAndReturn => 0,
    }
}

/// The first arrival at the wrapper's jump point and every return from the
/// abort handler run the section, with its descriptor installed; a return
/// from the end handler leaves with the thread's descriptor cleared.
pub proof fn lemma_abort_restarts_and_end_finishes()
    ensures
        wrapper_action(0) is EnterCriticalSection,
        wrapper_action(ABORT_JUMP_VALUE) is EnterCriticalSection,
        wrapper_action(END_JUMP_VALUE) is ClearAndReturn,
{
}

} // verus!
