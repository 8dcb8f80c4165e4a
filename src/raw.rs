//! The unchecked surface: the same stack operations as `State`'s, for code
//! that has already established the room it needs (for instance with one
//! `checkstack` before a loop).  They never consult or raise the recorded
//! stack space.
use vstd::prelude::*;
use vstd::string::StringSliceAdditionalSpecFns;

use crate::index::{MAXCSTACK, is_pseudo};
use crate::state::{State, settop_model, slot_pos};
use crate::value::{StackValue, ValueModel, copy_bytes};

verus! {

/// Raw, unchecked access to a state, borrowed from it with `as_raw`.
pub struct RawState<'a> {
    /// The state being accessed.
    pub state: &'a mut State,
}

impl State {
    /// Returns the same state for raw access.
    pub fn as_raw<'a>(&'a mut self) -> (r: RawState<'a>)
        requires
            old(self).wf(),
        ensures
            *r.state == *old(self),
            *final(self) == *final(r.state),
    {
        RawState { state: self }
    }
}

impl<'a> RawState<'a> {
    /// Returns the index of the top element of the stack.
    pub fn gettop(&self) -> (r: i32)
        requires
            self.state.wf(),
        ensures
            r == old(self.state).top(),
    {
        self.state.gettop()
    }

    /// Pushes a nil value, leaving the stack space as it was.
    pub fn pushnil(&mut self)
        requires
            old(self).state.wf(),
            old(self).state.top() < MAXCSTACK,
        ensures
            final(self).state.wf(),
            final(self).state@.stack == old(self).state@.stack.push(ValueModel::Nil),
            final(self).state@.space == old(self).state@.space,
            *final(old(self).state) == *final(final(self).state),
    {
        self.state.push_raw(StackValue::Nil);
    }

    /// Pushes a boolean, leaving the stack space as it was.
    pub fn pushboolean(&mut self, b: bool)
        requires
            old(self).state.wf(),
            old(self).state.top() < MAXCSTACK,
        ensures
            final(self).state.wf(),
            final(self).state@.stack == old(self).state@.stack.push(ValueModel::Boolean(b)),
            final(self).state@.space == old(self).state@.space,
            *final(old(self).state) == *final(final(self).state),
    {
        self.state.push_raw(StackValue::Boolean(b));
    }

    /// Pushes an integer, leaving the stack space as it was.
    pub fn pushinteger(&mut self, n: i64)
        requires
            old(self).state.wf(),
            old(self).state.top() < MAXCSTACK,
        ensures
            final(self).state.wf(),
            final(self).state@.stack == old(self).state@.stack.push(ValueModel::Integer(n)),
            final(self).state@.space == old(self).state@.space,
            *final(old(self).state) == *final(final(self).state),
    {
        self.state.push_raw(StackValue::Integer(n));
    }

    /// Pushes bytes as a string, leaving the stack space as it was.
    pub fn pushbytes(&mut self, bytes: &[u8])
        requires
            old(self).state.wf(),
            old(self).state.top() < MAXCSTACK,
        ensures
            final(self).state.wf(),
            final(self).state@.stack == old(self).state@.stack.push(ValueModel::Str(bytes@)),
            final(self).state@.space == old(self).state@.space,
            *final(old(self).state) == *final(final(self).state),
    {
        self.state.push_raw(StackValue::Str(copy_bytes(bytes)));
    }

    /// Pushes a string as its UTF-8 bytes, leaving the stack space as it
    /// was.
    pub fn pushstring(&mut self, s: &str)
        requires
            old(self).state.wf(),
            old(self).state.top() < MAXCSTACK,
        ensures
            final(self).state.wf(),
            final(self).state@.stack == old(self).state@.stack.push(ValueModel::Str(s.spec_bytes())),
            final(self).state@.space == old(self).state@.space,
            *final(old(self).state) == *final(final(self).state),
    {
        self.pushbytes(s.as_bytes());
    }

    /// Pushes a copy of the value at a valid non-pseudo index, leaving the
    /// stack space as it was.
    pub fn pushvalue(&mut self, idx: i32)
        requires
            old(self).state.wf(),
            old(self).state.valid(idx as int, false),
            old(self).state.top() < MAXCSTACK,
        ensures
            final(self).state.wf(),
            final(self).state@.stack == old(self).state@.stack.push(
                old(self).state@.stack[slot_pos(idx as int, old(self).state.top())]),
            final(self).state@.space == old(self).state@.space,
            *final(old(self).state) == *final(final(self).state),
    {
        let v = match self.state.fetch(idx) {
            Some(v) => v,
            None => StackValue::Nil,
        };
        self.state.push_raw(v);
    }

    /// Sets the stack top (see `State::settop`).
    pub fn settop(&mut self, idx: i32)
        requires
            old(self).state.wf(),
            idx == 0 || (old(self).state.acceptable(idx as int) && !is_pseudo(idx as int)),
        ensures
            final(self).state.wf(),
            final(self).state@.stack == settop_model(old(self).state@.stack, idx as int),
            final(self).state@.space == old(self).state@.space,
            *final(old(self).state) == *final(final(self).state),
    {
        self.state.settop(idx);
    }

    /// Pops `n` elements.
    pub fn pop(&mut self, n: i32)
        requires
            old(self).state.wf(),
            0 <= n <= old(self).state.top(),
        ensures
            final(self).state.wf(),
            final(self).state@.stack == old(self).state@.stack.subrange(0, old(self).state.top() - n),
            final(self).state@.space == old(self).state@.space,
            *final(old(self).state) == *final(final(self).state),
    {
        self.state.pop(n);
    }
}

} // verus!
