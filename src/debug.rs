//! Activation records of the interpreter's call stack.
use vstd::prelude::*;

use crate::engine::has_stack_level;
use crate::state::State;

verus! {

/// Information about an active function.  `getstack` fills in which level
/// it was found at.
#[derive(Clone, Copy, PartialEq, Eq, Structural, Debug)]
pub struct Debug {
    /// The hook event that produced the record (0 when none did)
    pub event: i32,
    /// The line the function is executing (0 when unknown)
    pub currentline: i32,
    /// The number of upvalues of the function
    pub nups: i32,
    /// The line where the function's definition starts
    pub linedefined: i32,
    /// The line where the function's definition ends
    pub lastlinedefined: i32,
    /// The level of the call stack the record stands for
    pub level: i32,
}

impl Debug {
    /// Returns a record with every field zero.
    pub fn new() -> (r: Debug)
        ensures
            r == (Debug { event: 0, currentline: 0, nups: 0, linedefined: 0, lastlinedefined: 0, level: 0 }),
    {
        Debug { event: 0, currentline: 0, nups: 0, linedefined: 0, lastlinedefined: 0, level: 0 }
    }
}

impl State {
    /// Gets information about the interpreter's call stack: a record for the
    /// function running at `level` (0 is the current one, n + 1 the caller
    /// of level n), or `None` when the call stack is not that deep.
    pub fn getstack(&mut self, level: i32) -> (r: Option<Debug>)
        requires
            old(self).wf(),
        ensures
            final(self).wf(),
            final(self)@ == old(self)@,
            level < 0 ==> r is None,
            r matches Some(d) ==> d == (Debug { level, ..Debug::new_spec() }),
    {
        if level < 0 {
            return None;
        }
        if has_stack_level(&self.lua, level as usize) {
            let mut d = Debug::new();
            d.level = level;
            Some(d)
        } else {
            None
        }
    }
}

impl Debug {
    /// The record with every field zero.
    pub open spec fn new_spec() -> Debug {
        Debug { event: 0, currentline: 0, nups: 0, linedefined: 0, lastlinedefined: 0, level: 0 }
    }
}

} // verus!
