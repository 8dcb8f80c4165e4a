//! Native functions: host closures that the engine can call.
use vstd::prelude::*;

use crate::calls::no_nul;
use crate::engine::{create_native, runtime_error, share_engine, sort_value};
use crate::index::{MAXCSTACK, MINSTACK};
use crate::state::State;
use vstd::string::StringSliceAdditionalSpecFns;
use crate::types::PCallError;
use crate::value::StackValue;

verus! {

/// Runs a native function for one call from the engine.
///
/// The arguments sit on a fresh stack over the same engine, from index 1
/// up, with `MINSTACK` free slots reserved above them.  The function returns
/// how many values at the top of that stack are its results; a negative
/// count raises the value at the top as an error instead.  A count larger
/// than the stack, or a stack that the function left ill formed, is an
/// error too.
pub fn run_native<F: Fn(&mut State) -> i32>(lua: &mlua::Lua, f: &F, args: Vec<mlua::Value>) -> (r: Result<Vec<mlua::Value>, mlua::Error>)
    requires
        forall|s: &mut State| #[trigger] f.requires((s,)),
{
    if args.len() > (MAXCSTACK - MINSTACK) as usize {
        return Err(runtime_error("stack overflow"));
    }
    let nargs = args.len() as i32;
    let mut st = State::over_engine(share_engine(lua), nargs + MINSTACK);
    let mut i: usize = 0;
    while i < args.len()
        invariant
            st.wf(),
            i <= args@.len(),
            args@.len() <= MAXCSTACK - MINSTACK,
            st.top() == i,
        decreases args@.len() - i,
    {
        st.push_raw(sort_value(crate::engine::clone_value(&args[i])));
        i = i + 1;
    }
    let n = f(&mut st);
    if !st.check_wf() {
        return Err(runtime_error("native function left the stack ill formed"));
    }
    let top = st.gettop();
    if n < 0 {
        if top == 0 {
            return Err(runtime_error("native function raised an error without a value"));
        }
        let msg = st.describe_(-1, false);
        return Err(runtime_error(msg.as_str()));
    }
    if n > top {
        return Err(runtime_error("native function returned more results than it pushed"));
    }
    let mut out: Vec<mlua::Value> = Vec::new();
    let mut p: usize = (top - n) as usize;
    while p < top as usize
        invariant
            st.wf(),
            st.top() == top,
            p <= top,
        decreases top - p,
    {
        let v = st.value_at_pos(p);
        match st.to_engine(&v) {
            Ok(ev) => out.push(ev),
            Err(e) => return Err(e),
        }
        p = p + 1;
    }
    Ok(out)
}

impl State {
    /// Pushes a native function onto the stack; on an engine error pushes
    /// the error message instead.  When called, the function sees a stack
    /// holding its arguments and returns the number of results it left on
    /// top (negative to raise the top value as an error).
    pub fn pushcfunction<F: Fn(&mut State) -> i32 + 'static>(&mut self, f: F) -> (r: Result<(), PCallError>)
        requires
            old(self).wf(),
            old(self).top() < MAXCSTACK,
            forall|s: &mut State| #[trigger] f.requires((s,)),
        ensures
            final(self).wf(),
            final(self).top() == old(self).top() + 1,
            final(self)@.stack.drop_last() == old(self)@.stack,
            r is Ok ==> final(self)@.stack.last() is Function,
            r is Err ==> final(self)@.stack.last() is Str,
    {
        match create_native(&self.lua, f) {
            Ok(func) => {
                self.push_checked(StackValue::Function(func));
                proof { assert(final(self)@.stack.drop_last() =~= old(self)@.stack); }
                Ok(())
            },
            Err(e) => {
                let _ = self.push_failure(&e);
                Err(PCallError::ErrMem)
            },
        }
    }

    /// Sets the native function `f` as the new value of the global `name`.
    pub fn register<F: Fn(&mut State) -> i32 + 'static>(&mut self, name: &str, f: F) -> (r: Result<(), PCallError>)
        requires
            old(self).wf(),
            old(self).top() < MAXCSTACK,
            no_nul(name.spec_bytes()),
            forall|s: &mut State| #[trigger] f.requires((s,)),
        ensures
            final(self).wf(),
            r is Ok ==> final(self)@.stack == old(self)@.stack,
    {
        match self.pushcfunction(f) {
            Ok(()) => {
                let r = self.setglobal(name);
                proof { assert(old(self)@.stack =~= old(self)@.stack); }
                r
            },
            Err(e) => Err(e),
        }
    }

    /// Registers the native functions of `l` under their names in a
    /// library table.  With `libname`, the table is the global of that name
    /// (created when the global is not a table) and is left pushed; without
    /// it, the table is the one on top of the stack.  On an engine error the
    /// error is returned with its message on top.
    pub fn registerlib<F: Fn(&mut State) -> i32 + Copy + 'static>(&mut self, libname: Option<&str>, l: &[(&str, F)])
        -> (r: Result<(), PCallError>)
        requires
            old(self).wf(),
            old(self).top() + 3 <= MAXCSTACK,
            libname matches Some(n) ==> no_nul(n.spec_bytes()),
            libname is None ==> old(self).top() >= 1 && old(self)@.stack.last() is Table,
            forall|i: int| 0 <= i < l@.len() ==> no_nul((#[trigger] l@[i]).0.spec_bytes()),
            forall|i: int, s: &mut State| 0 <= i < l@.len() ==> #[trigger] l@[i].1.requires((s,)),
        ensures
            final(self).wf(),
            r is Ok ==> final(self)@.stack.last() is Table,
            r is Ok && libname is Some ==> final(self)@.stack.drop_last() == old(self)@.stack,
            r is Ok && libname is None ==> final(self)@.stack == old(self)@.stack,
    {
        match libname {
            Some(name) => {
                match self.getglobal(name) {
                    Ok(()) => {},
                    Err(e) => return Err(e),
                }
                proof { self.lemma_values_wf(); }
                if !self.istable(-1) {
                    self.pop(1);
                    match self.newtable() {
                        Ok(()) => {},
                        Err(e) => return Err(e),
                    }
                    self.pushvalue(-1);
                    match self.setglobal(name) {
                        Ok(()) => {},
                        Err(e) => return Err(e),
                    }
                }
            },
            None => {},
        }
        let ghost with_table = self@.stack;
        let mut i: usize = 0;
        while i < l.len()
            invariant
                self.wf(),
                self@.stack == with_table,
                with_table.len() >= 1,
                with_table.last() is Table,
                with_table.len() + 2 <= MAXCSTACK,
                forall|k: int| 0 <= k < l@.len() ==> no_nul((#[trigger] l@[k]).0.spec_bytes()),
                forall|k: int, s: &mut State| 0 <= k < l@.len() ==> #[trigger] l@[k].1.requires((s,)),
            decreases l@.len() - i,
        {
            let (name, f) = l[i];
            match self.pushcfunction(f) {
                Ok(()) => {},
                Err(e) => return Err(e),
            }
            match self.setfield(-2, name) {
                Ok(()) => {},
                Err(e) => return Err(e),
            }
            i = i + 1;
        }
        Ok(())
    }
}

} // verus!
