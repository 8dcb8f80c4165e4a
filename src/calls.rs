//! Operations of a state that hand work to the engine: table access,
//! loading chunks, protected calls, libraries and the collector.
use vstd::prelude::*;
use vstd::string::StringSliceAdditionalSpecFns;

use crate::engine::{
    Failure, Lib, call_function, compiles, clone_value, create_string, create_table, engine_boolean,
    engine_function, engine_integer, engine_nil, engine_table, failure_of, load_chunk, load_lib,
    raw_equal, same_engine, table_metatable, table_set_metatable, table_raw_get, table_raw_set, registry_get, registry_set, sort_value, table_get, table_set, gc_collect, gc_restart,
    gc_step, gc_stop, gc_tune, used_memory,
};
use crate::index::{
    ENVIRONINDEX, GLOBALSINDEX, MAXCSTACK, MULTRET, REGISTRYINDEX, call_extra, call_reserve,
    is_pseudo,
};
use crate::aux::same_bytes;
use crate::state::{State, grow_ok, grown_space, slot_pos, type_at, value_at};
use crate::types::{GC, LoadError, PCallError, Type, type_label};
use vstd::utf8::encode_utf8;
use crate::value::{StackValue, ValueModel, append_bytes, copy_bytes, model_type};

verus! {

/// Whether a key holds no zero byte (the engine's string terminator).
pub open spec fn no_nul(k: Seq<u8>) -> bool {
    forall|i: int| 0 <= i < k.len() ==> k[i] != 0u8
}

/// The kind of protected-call error that an engine failure stands for.
pub open spec fn pcall_failure(f: Failure) -> PCallError {
    match f {
        Failure::Memory => PCallError::ErrMem,
        _ => PCallError::ErrRun,
    }
}

/// The kind of load error that an engine failure stands for.
pub open spec fn load_failure(f: Failure) -> LoadError {
    match f {
        Failure::Memory => LoadError::ErrMem,
        _ => LoadError::ErrSyntax,
    }
}

fn to_pcall_error(f: Failure) -> (r: PCallError)
    ensures
        r == pcall_failure(f),
{
    match f {
        Failure::Memory => PCallError::ErrMem,
        _ => PCallError::ErrRun,
    }
}

fn to_load_error(f: Failure) -> (r: LoadError)
    ensures
        r == load_failure(f),
{
    match f {
        Failure::Memory => LoadError::ErrMem,
        _ => LoadError::ErrSyntax,
    }
}

impl State {
    /// Pushes the message of an engine failure and returns its kind.
    pub(crate) fn push_failure(&mut self, e: &mlua::Error) -> (r: Failure)
        requires
            old(self).wf(),
            old(self).top() < MAXCSTACK,
        ensures
            final(self).wf(),
            final(self)@.stack.drop_last() == old(self)@.stack,
            final(self).top() == old(self).top() + 1,
            final(self)@.stack.last() is Str,
            final(self)@.space == grown_space(old(self).top(), old(self)@.space, 1),
    {
        let (kind, msg) = failure_of(e);
        self.push_checked(StackValue::Str(msg));
        proof { assert(final(self)@.stack.drop_last() =~= old(self)@.stack); }
        kind
    }

    /// The engine value for a value of the stack.
    pub(crate) fn to_engine(&self, v: &StackValue) -> (r: Result<mlua::Value, mlua::Error>) {
        match v {
            StackValue::Nil => Ok(engine_nil()),
            StackValue::Boolean(b) => Ok(engine_boolean(*b)),
            StackValue::Integer(i) => Ok(engine_integer(*i)),
            StackValue::Str(b) => create_string(&self.lua, b.as_slice()),
            StackValue::Table(t) => Ok(engine_table(t)),
            StackValue::Function(f) => Ok(engine_function(f)),
            StackValue::Other(_, v) => Ok(clone_value(v)),
        }
    }

    /// Pushes onto the stack the value `t[k]`, where `t` is the table at the
    /// given valid index (metamethods apply).  The registry pseudo-index
    /// reads the registry entry named `k`.  On an engine error the error
    /// message is pushed instead and its kind returned; one value is pushed
    /// either way.  The value indexed must be a table: the engine binding
    /// offers indexing on tables only.
    pub fn getfield(&mut self, idx: i32, k: &str) -> (r: Result<(), PCallError>)
        requires
            old(self).wf(),
            old(self).valid(idx as int, true),
            type_at(old(self)@.stack, idx as int) == Some(Type::Table),
            old(self).top() < MAXCSTACK,
            no_nul(k.spec_bytes()),
        ensures
            final(self).wf(),
            final(self).top() == old(self).top() + 1,
            final(self)@.stack.drop_last() == old(self)@.stack,
            final(self)@.space == grown_space(old(self).top(), old(self)@.space, 1),
            r is Err ==> final(self)@.stack.last() is Str,
    {
        proof { self.lemma_view(); }
        let got = if idx == REGISTRYINDEX {
            registry_get(&self.lua, k)
        } else {
            match self.fetch(idx) {
                Some(StackValue::Table(t)) => match create_string(&self.lua, k.as_bytes()) {
                    Ok(key) => table_get(&t, key),
                    Err(e) => Err(e),
                },
                _ => Ok(engine_nil()),
            }
        };
        match got {
            Ok(v) => {
                self.push_checked(sort_value(v));
                proof { assert(final(self)@.stack.drop_last() =~= old(self)@.stack); }
                Ok(())
            },
            Err(e) => {
                let f = self.push_failure(&e);
                Err(to_pcall_error(f))
            },
        }
    }

    /// Does the equivalent of `t[k] = v`, where `t` is the table at the
    /// given valid index and `v` the value at the top, which is popped
    /// (metamethods apply).  The registry pseudo-index sets the registry
    /// entry named `k`.  On an engine error the error message takes the
    /// place of the popped value and its kind is returned.  The value
    /// indexed must be a table, as for `getfield`.
    pub fn setfield(&mut self, idx: i32, k: &str) -> (r: Result<(), PCallError>)
        requires
            old(self).wf(),
            old(self).valid(idx as int, true),
            type_at(old(self)@.stack, idx as int) == Some(Type::Table),
            old(self).top() >= 1,
            no_nul(k.spec_bytes()),
        ensures
            final(self).wf(),
            r is Ok ==> final(self)@.stack == old(self)@.stack.drop_last(),
            r is Err ==> final(self)@.stack.drop_last() == old(self)@.stack.drop_last()
                && final(self)@.stack.last() is Str,
            r is Ok ==> final(self)@.space == old(self)@.space,
    {
        let target = self.fetch(idx);
        let v = self.pop_value();
        proof { old(self).lemma_bounds(); }
        let res = match self.to_engine(&v) {
            Err(e) => Err(e),
            Ok(ev) => if idx == REGISTRYINDEX {
                registry_set(&self.lua, k, ev)
            } else {
                match target {
                    Some(StackValue::Table(t)) => match create_string(&self.lua, k.as_bytes()) {
                        Ok(key) => table_set(&t, key, ev),
                        Err(e) => Err(e),
                    },
                    _ => Ok(()),
                }
            },
        };
        match res {
            Ok(()) => Ok(()),
            Err(e) => {
                let f = self.push_failure(&e);
                Err(to_pcall_error(f))
            },
        }
    }

    /// Pushes onto the stack the value of the global `name` (see
    /// `getfield`).
    pub fn getglobal(&mut self, name: &str) -> (r: Result<(), PCallError>)
        requires
            old(self).wf(),
            old(self).top() < MAXCSTACK,
            no_nul(name.spec_bytes()),
        ensures
            final(self).wf(),
            final(self).top() == old(self).top() + 1,
            final(self)@.stack.drop_last() == old(self)@.stack,
            r is Err ==> final(self)@.stack.last() is Str,
    {
        self.getfield(GLOBALSINDEX, name)
    }

    /// Pops a value from the stack and sets it as the new value of the
    /// global `name` (see `setfield`).
    pub fn setglobal(&mut self, name: &str) -> (r: Result<(), PCallError>)
        requires
            old(self).wf(),
            old(self).top() >= 1,
            no_nul(name.spec_bytes()),
        ensures
            final(self).wf(),
            r is Ok ==> final(self)@.stack == old(self)@.stack.drop_last(),
            r is Err ==> final(self)@.stack.drop_last() == old(self)@.stack.drop_last()
                && final(self)@.stack.last() is Str,
    {
        self.setfield(GLOBALSINDEX, name)
    }

    /// Creates a new empty table with room for `narr` array elements and
    /// `nrec` other elements, and pushes it; on an engine error pushes the
    /// error message instead.
    pub fn createtable(&mut self, narr: i32, nrec: i32) -> (r: Result<(), PCallError>)
        requires
            old(self).wf(),
            old(self).top() < MAXCSTACK,
        ensures
            final(self).wf(),
            final(self).top() == old(self).top() + 1,
            final(self)@.stack.drop_last() == old(self)@.stack,
            final(self)@.space == grown_space(old(self).top(), old(self)@.space, 1),
            r is Ok ==> final(self)@.stack.last() is Table,
            r is Err ==> final(self)@.stack.last() is Str,
    {
        let na: usize = if narr > 0 { narr as usize } else { 0 };
        let nr: usize = if nrec > 0 { nrec as usize } else { 0 };
        match create_table(&self.lua, na, nr) {
            Ok(t) => {
                self.push_checked(StackValue::Table(t));
                proof { assert(final(self)@.stack.drop_last() =~= old(self)@.stack); }
                Ok(())
            },
            Err(e) => {
                let f = self.push_failure(&e);
                Err(to_pcall_error(f))
            },
        }
    }

    /// Creates a new empty table and pushes it (see `createtable`).
    pub fn newtable(&mut self) -> (r: Result<(), PCallError>)
        requires
            old(self).wf(),
            old(self).top() < MAXCSTACK,
        ensures
            final(self).wf(),
            final(self).top() == old(self).top() + 1,
            final(self)@.stack.drop_last() == old(self)@.stack,
            r is Ok ==> final(self)@.stack.last() is Table,
            r is Err ==> final(self)@.stack.last() is Str,
    {
        self.createtable(0, 0)
    }

    /// Pushes the first `n` of the values, nil for those missing, without
    /// reserving room (the engine made room for them).
    pub(crate) fn push_results(&mut self, vals: &Vec<StackValue>, n: usize)
        requires
            old(self).wf(),
            old(self).top() + n <= MAXCSTACK,
            forall|i: int| 0 <= i < vals@.len() ==> (#[trigger] vals@[i]).wf(),
        ensures
            final(self).wf(),
            final(self)@.stack == old(self)@.stack + adjusted(models(vals@), n as nat),
            final(self)@.space == old(self)@.space,
    {
        let ghost start = old(self)@.stack;
        let mut i: usize = 0;
        while i < n
            invariant
                i <= n,
                self.wf(),
                start.len() + n <= MAXCSTACK,
                forall|k: int| 0 <= k < vals@.len() ==> (#[trigger] vals@[k]).wf(),
                self@.stack == start + adjusted(models(vals@), n as nat).subrange(0, i as int),
                self@.space == old(self)@.space,
            decreases n - i,
        {
            let v = if i < vals.len() {
                vals[i].copy()
            } else {
                StackValue::Nil
            };
            self.push_raw(v);
            i = i + 1;
            proof {
                assert(self@.stack =~= start + adjusted(models(vals@), n as nat).subrange(0, i as int));
            }
        }
        proof { assert(adjusted(models(vals@), n as nat).subrange(0, n as int) =~= adjusted(models(vals@), n as nat)); }
    }

    /// Pushes the outcome of a call: on success its values, adjusted to
    /// `nresults` unless that is `MULTRET` (a runtime error when they do not
    /// fit on the stack); on failure the engine's message, returning the
    /// kind of error.
    pub(crate) fn push_call_outcome(&mut self, nresults: i32, outcome: Result<Vec<StackValue>, (Failure, Vec<u8>)>)
        -> (r: Result<(), PCallError>)
        requires
            old(self).wf(),
            old(self).top() < MAXCSTACK,
            MULTRET <= nresults,
            outcome matches Ok(vals) ==> forall|i: int| 0 <= i < vals@.len() ==> (#[trigger] vals@[i]).wf(),
        ensures
            final(self).wf(),
            match outcome {
                Ok(vals) => {
                    let n = if nresults == MULTRET { vals@.len() as int } else { nresults as int };
                    if old(self).top() + n <= MAXCSTACK {
                        r is Ok && final(self)@.stack == old(self)@.stack + adjusted(models(vals@), n as nat)
                    } else {
                        r == Err::<(), PCallError>(PCallError::ErrRun) && final(self)@.stack
                            == old(self)@.stack.push(ValueModel::Str("stack overflow".spec_bytes()))
                    }
                },
                Err((k, m)) => r == Err::<(), PCallError>(pcall_failure(k))
                    && final(self)@.stack == old(self)@.stack.push(ValueModel::Str(m@)),
            },
    {
        proof { self.lemma_bounds(); }
        match outcome {
            Ok(vals) => {
                let n: usize = if nresults == MULTRET { vals.len() } else { nresults as usize };
                if n > MAXCSTACK as usize - self.gettop() as usize {
                    self.push_message(copy_bytes("stack overflow".as_bytes()));
                    return Err(PCallError::ErrRun);
                }
                self.push_results(&vals, n);
                Ok(())
            },
            Err((k, m)) => {
                self.push_message(m);
                Err(to_pcall_error(k))
            },
        }
    }

    /// Pushes a message built from bytes.
    pub(crate) fn push_message(&mut self, msg: Vec<u8>)
        requires
            old(self).wf(),
            old(self).top() < MAXCSTACK,
        ensures
            final(self).wf(),
            final(self)@.stack == old(self)@.stack.push(ValueModel::Str(msg@)),
            final(self)@.space == grown_space(old(self).top(), old(self)@.space, 1),
    {
        self.push_checked(StackValue::Str(msg));
    }

    /// Calls a function in protected mode.
    ///
    /// The function and then its `nargs` arguments must be on the stack;
    /// they are always removed, and the arguments are handed to the
    /// function in order.  A value that is not a function is not called: the
    /// result is a runtime error with the message `attempt to call a <type>
    /// value`.  Otherwise the outcome is pushed as `push_call_outcome`
    /// states: the results adjusted to `nresults` unless that is `MULTRET`,
    /// or one error value.  With an error handler at the valid index
    /// `errfunc` (not 0), the error value is what the handler returns for
    /// the message; an error in the handler is `ErrErr`.
    pub fn pcall(&mut self, nargs: i32, nresults: i32, errfunc: i32) -> (r: Result<(), PCallError>)
        requires
            old(self).wf(),
            0 <= nargs < old(self).top(),
            MULTRET <= nresults <= MAXCSTACK,
            grow_ok(old(self).top(), old(self)@.space, call_reserve(nargs as int, nresults as int)),
            errfunc != 0 ==> old(self).valid(errfunc as int, false),
        ensures
            final(self).wf(),
            final(self).top() >= old(self).top() - nargs - 1,
            final(self)@.stack.subrange(0, old(self).top() - nargs - 1)
                == old(self)@.stack.subrange(0, old(self).top() - nargs - 1),
            r is Ok && nresults != MULTRET ==> final(self).top() == old(self).top() - nargs - 1 + nresults,
            r is Err ==> final(self).top() == old(self).top() - nargs,
            r is Err && errfunc == 0 ==> final(self)@.stack.last() is Str,
            model_type(old(self)@.stack[old(self).top() - nargs - 1]) != Type::Function ==> {
                &&& r == Err::<(), PCallError>(PCallError::ErrRun)
                &&& final(self)@.stack == old(self)@.stack.subrange(0, old(self).top() - nargs - 1).push(
                    ValueModel::Str(call_error(model_type(old(self)@.stack[old(self).top() - nargs - 1]))))
            },
    {
        proof { self.lemma_bounds(); }
        let top = self.gettop();
        self.checkstack_(call_extra(nargs, nresults));
        let base = (top - nargs - 1) as usize;
        let ghost kept = self@.stack.subrange(0, base as int);
        let handler = if errfunc != 0 { self.fetch(errfunc) } else { None };
        let func = self.value_at_pos(base);
        let f = match func {
            StackValue::Function(f) => f,
            other => {
                self.truncate_to(base);
                let mut msg = copy_bytes("attempt to call a ".as_bytes());
                append_bytes(&mut msg, other.value_type().name().as_bytes());
                append_bytes(&mut msg, " value".as_bytes());
                self.push_message(msg);
                return Err(PCallError::ErrRun);
            },
        };
        let mut args: Vec<mlua::Value> = Vec::new();
        let mut conv: Result<(), mlua::Error> = Ok(());
        let mut i: usize = base + 1;
        while i < top as usize
            invariant
                self.wf(),
                self.top() == top,
                self@.stack.subrange(0, base as int) == kept,
                base < i <= top,
            decreases top - i,
        {
            let v = self.value_at_pos(i);
            match self.to_engine(&v) {
                Ok(ev) => args.push(ev),
                Err(e) => {
                    conv = Err(e);
                    break;
                },
            }
            i = i + 1;
        }
        self.truncate_to(base);
        let outcome = match conv {
            Err(e) => Err(failure_of(&e)),
            Ok(()) => match call_function(&f, args) {
                Ok(res) => Ok(sort_all(res)),
                Err(e) => Err(failure_of(&e)),
            },
        };
        let hf = match handler {
            Some(StackValue::Function(hf)) => hf,
            Some(_) => {
                if outcome.is_err() {
                    self.push_message(copy_bytes("error in error handling".as_bytes()));
                    return Err(PCallError::ErrErr);
                }
                let r = self.push_call_outcome(nresults, outcome);
                return r;
            },
            None => {
                let r = self.push_call_outcome(nresults, outcome);
                return r;
            },
        };
        match outcome {
            Ok(vals) => self.push_call_outcome(nresults, Ok(vals)),
            Err((kind, msg)) => {
                let code = to_pcall_error(kind);
                let handled = match create_string(&self.lua, msg.as_slice()) {
                    Ok(mv) => {
                        let mut hargs: Vec<mlua::Value> = Vec::new();
                        hargs.push(mv);
                        call_function(&hf, hargs)
                    },
                    Err(e2) => Err(e2),
                };
                match handled {
                    Ok(vals) => {
                        let sorted = sort_all(vals);
                        self.push_results(&sorted, 1);
                        Err(code)
                    },
                    Err(e2) => {
                        let _ = self.push_failure(&e2);
                        Err(PCallError::ErrErr)
                    },
                }
            },
        }
    }

    /// Pushes the outcome of loading a chunk: the compiled function, or
    /// the engine's message, returning the kind of error.
    pub(crate) fn push_load_outcome(&mut self, outcome: Result<mlua::Function, (Failure, Vec<u8>)>)
        -> (r: Result<(), LoadError>)
        requires
            old(self).wf(),
            old(self).top() < MAXCSTACK,
        ensures
            final(self).wf(),
            final(self)@.space == grown_space(old(self).top(), old(self)@.space, 1),
            match outcome {
                Ok(f) => r is Ok && final(self)@.stack == old(self)@.stack.push(ValueModel::Function(f)),
                Err((k, m)) => r == Err::<(), LoadError>(load_failure(k))
                    && final(self)@.stack == old(self)@.stack.push(ValueModel::Str(m@)),
            },
    {
        match outcome {
            Ok(f) => {
                self.push_checked(StackValue::Function(f));
                Ok(())
            },
            Err((k, m)) => {
                self.push_message(m);
                Err(to_load_error(k))
            },
        }
    }

    /// Loads a chunk named `name` without running it.  On success pushes
    /// the compiled chunk as a function; otherwise pushes the error message
    /// and returns the kind of error (see `push_load_outcome`).  Only a chunk
    /// that compiles loads, and one that does not never does.
    pub fn loadbuffer(&mut self, buf: &str, name: &str) -> (r: Result<(), LoadError>)
        requires
            old(self).wf(),
            old(self).top() < MAXCSTACK,
            no_nul(name.spec_bytes()),
        ensures
            final(self).wf(),
            final(self).top() == old(self).top() + 1,
            final(self)@.stack.drop_last() == old(self)@.stack,
            final(self)@.space == grown_space(old(self).top(), old(self)@.space, 1),
            r is Ok ==> final(self)@.stack.last() is Function && compiles(buf.spec_bytes()),
            !compiles(buf.spec_bytes()) ==> r is Err,
            r is Err ==> final(self)@.stack.last() is Str,
    {
        let outcome = match load_chunk(&self.lua, buf.as_bytes(), name) {
            Ok(f) => Ok(f),
            Err(e) => Err(failure_of(&e)),
        };
        let r = self.push_load_outcome(outcome);
        proof { assert(final(self)@.stack.drop_last() =~= old(self)@.stack); }
        r
    }

    /// Loads a string as a chunk without running it; the string is also the
    /// chunk's name (see `loadbuffer`).
    pub fn loadstring(&mut self, s: &str) -> (r: Result<(), LoadError>)
        requires
            old(self).wf(),
            old(self).top() < MAXCSTACK,
            no_nul(s.spec_bytes()),
        ensures
            final(self).wf(),
            final(self).top() == old(self).top() + 1,
            final(self)@.stack.drop_last() == old(self)@.stack,
            final(self)@.space == grown_space(old(self).top(), old(self)@.space, 1),
            r is Ok ==> final(self)@.stack.last() is Function && compiles(s.spec_bytes()),
            !compiles(s.spec_bytes()) ==> r is Err,
            r is Err ==> final(self)@.stack.last() is Str,
    {
        self.loadbuffer(s, s)
    }

    /// Loads and runs the given string, keeping all its results.  Returns
    /// `true` if there were no errors; otherwise the error message is left
    /// on the stack.
    pub fn dostring(&mut self, s: &str) -> (r: bool)
        requires
            old(self).wf(),
            old(self).top() < MAXCSTACK,
            no_nul(s.spec_bytes()),
        ensures
            final(self).wf(),
            final(self).top() >= old(self).top(),
            final(self)@.stack.subrange(0, old(self).top()) == old(self)@.stack,
            !r ==> final(self).top() == old(self).top() + 1 && final(self)@.stack.last() is Str,
            !compiles(s.spec_bytes()) ==> !r,
    {
        match self.loadstring(s) {
            Err(_) => false,
            Ok(()) => {
                proof { self.lemma_bounds(); }
                let res = self.pcall(0, MULTRET, 0);
                proof {
                    assert(old(self)@.stack =~= old(self)@.stack.subrange(0, old(self).top()));
                }
                res.is_ok()
            },
        }
    }

    /// Opens one standard library; returns whether the engine loaded it.
    /// The stack is left as it was.
    fn open_lib(&mut self, lib: Lib) -> (r: bool)
        requires
            old(self).wf(),
        ensures
            final(self).wf(),
            final(self)@ == old(self)@,
    {
        load_lib(&self.lua, lib).is_ok()
    }

    /// Opens the base library.  The engine loads it when the state is
    /// created, so there is nothing left to load; returns `true`.
    pub fn open_base(&mut self) -> (r: bool)
        requires
            old(self).wf(),
        ensures
            final(self).wf(),
            final(self)@ == old(self)@,
            r,
    {
        true
    }

    /// Opens the table library; returns whether the engine loaded it.
    pub fn open_table(&mut self) -> (r: bool)
        requires
            old(self).wf(),
        ensures
            final(self).wf(),
            final(self)@ == old(self)@,
    {
        self.open_lib(Lib::Table)
    }

    /// Opens the io library; returns whether the engine loaded it.
    pub fn open_io(&mut self) -> (r: bool)
        requires
            old(self).wf(),
        ensures
            final(self).wf(),
            final(self)@ == old(self)@,
    {
        self.open_lib(Lib::Io)
    }

    /// Opens the os library; returns whether the engine loaded it.
    pub fn open_os(&mut self) -> (r: bool)
        requires
            old(self).wf(),
        ensures
            final(self).wf(),
            final(self)@ == old(self)@,
    {
        self.open_lib(Lib::Os)
    }

    /// Opens the string library; returns whether the engine loaded it.
    pub fn open_string(&mut self) -> (r: bool)
        requires
            old(self).wf(),
        ensures
            final(self).wf(),
            final(self)@ == old(self)@,
    {
        self.open_lib(Lib::String)
    }

    /// Opens the math library; returns whether the engine loaded it.
    pub fn open_math(&mut self) -> (r: bool)
        requires
            old(self).wf(),
        ensures
            final(self).wf(),
            final(self)@ == old(self)@,
    {
        self.open_lib(Lib::Math)
    }

    /// Opens the debug library; returns whether the engine loaded it (an
    /// engine in safe mode refuses it).
    pub fn open_debug(&mut self) -> (r: bool)
        requires
            old(self).wf(),
        ensures
            final(self).wf(),
            final(self)@ == old(self)@,
    {
        self.open_lib(Lib::Debug)
    }

    /// Opens the package library; returns whether the engine loaded it.
    pub fn open_package(&mut self) -> (r: bool)
        requires
            old(self).wf(),
        ensures
            final(self).wf(),
            final(self)@ == old(self)@,
    {
        self.open_lib(Lib::Package)
    }

    /// Opens the standard libraries that the engine accepts; returns whether
    /// every one of them was loaded.
    pub fn openlibs(&mut self) -> (r: bool)
        requires
            old(self).wf(),
        ensures
            final(self).wf(),
            final(self)@ == old(self)@,
    {
        let a = self.open_base();
        let b = self.open_table();
        let c = self.open_io();
        let d = self.open_os();
        let e = self.open_string();
        let f = self.open_math();
        let g = self.open_package();
        a && b && c && d && e && f && g
    }

    /// Pushes onto the stack the value `t[k]`, where `t` is the table at the
    /// given valid index and `k` the value at the top, which the result
    /// replaces (metamethods apply).  On an engine error the error message
    /// replaces the key instead and its kind is returned.  The registry is
    /// reached by name only (`getfield`).
    pub fn gettable(&mut self, idx: i32) -> (r: Result<(), PCallError>)
        requires
            old(self).wf(),
            old(self).valid(idx as int, true),
            idx != REGISTRYINDEX,
            type_at(old(self)@.stack, idx as int) == Some(Type::Table),
            old(self).top() >= 1,
        ensures
            final(self).wf(),
            final(self).top() == old(self).top(),
            final(self)@.stack.drop_last() == old(self)@.stack.drop_last(),
            r is Err ==> final(self)@.stack.last() is Str,
    {
        let target = self.fetch(idx);
        let key = self.pop_value();
        proof { old(self).lemma_bounds(); }
        let got = match self.to_engine(&key) {
            Err(e) => Err(e),
            Ok(k) => match target {
                Some(StackValue::Table(t)) => table_get(&t, k),
                _ => Ok(engine_nil()),
            },
        };
        let ghost mid = self@.stack;
        match got {
            Ok(v) => {
                self.push_checked(sort_value(v));
                proof { assert(final(self)@.stack.drop_last() =~= mid); }
                Ok(())
            },
            Err(e) => {
                let f = self.push_failure(&e);
                Err(to_pcall_error(f))
            },
        }
    }

    /// Does the equivalent of `t[k] = v`, where `t` is the table at the
    /// given valid index, `v` the value at the top and `k` the value just
    /// below it; both are popped (metamethods apply).  On an engine error
    /// the error message is pushed after popping them and its kind returned.
    /// The registry is reached by name only (`setfield`).
    pub fn settable(&mut self, idx: i32) -> (r: Result<(), PCallError>)
        requires
            old(self).wf(),
            old(self).valid(idx as int, true),
            idx != REGISTRYINDEX,
            type_at(old(self)@.stack, idx as int) == Some(Type::Table),
            old(self).top() >= 2,
        ensures
            final(self).wf(),
            r is Ok ==> final(self)@.stack == old(self)@.stack.subrange(0, old(self).top() - 2),
            r is Err ==> final(self)@.stack.drop_last() == old(self)@.stack.subrange(0, old(self).top() - 2)
                && final(self)@.stack.last() is Str,
    {
        let target = self.fetch(idx);
        let v = self.pop_value();
        let k = self.pop_value();
        proof {
            old(self).lemma_bounds();
            assert(self@.stack =~= old(self)@.stack.subrange(0, old(self).top() - 2));
        }
        let res = match (self.to_engine(&k), self.to_engine(&v)) {
            (Ok(ek), Ok(ev)) => match target {
                Some(StackValue::Table(t)) => table_set(&t, ek, ev),
                _ => Ok(()),
            },
            (Err(e), _) => Err(e),
            (_, Err(e)) => Err(e),
        };
        match res {
            Ok(()) => Ok(()),
            Err(e) => {
                let f = self.push_failure(&e);
                Err(to_pcall_error(f))
            },
        }
    }

    /// If the registry already holds a value under `tname`, pushes it and
    /// returns `Ok(false)`; otherwise creates a new table, registers it under
    /// `tname`, pushes it and returns `Ok(true)`.  On an engine error pushes
    /// the error message and returns its kind.
    pub fn newmetatable(&mut self, tname: &str) -> (r: Result<bool, PCallError>)
        requires
            old(self).wf(),
            old(self).top() < MAXCSTACK,
            no_nul(tname.spec_bytes()),
        ensures
            final(self).wf(),
            final(self).top() == old(self).top() + 1,
            final(self)@.stack.drop_last() == old(self)@.stack,
            r == Ok::<bool, PCallError>(true) ==> final(self)@.stack.last() is Table,
            r is Err ==> final(self)@.stack.last() is Str,
    {
        let existing = match registry_get(&self.lua, tname) {
            Ok(v) => v,
            Err(e) => {
                let f = self.push_failure(&e);
                return Err(to_pcall_error(f));
            },
        };
        let sorted = sort_value(existing);
        if sorted.value_type() != Type::Nil {
            self.push_checked(sorted);
            proof { assert(final(self)@.stack.drop_last() =~= old(self)@.stack); }
            return Ok(false);
        }
        let t = match create_table(&self.lua, 0, 0) {
            Ok(t) => t,
            Err(e) => {
                let f = self.push_failure(&e);
                return Err(to_pcall_error(f));
            },
        };
        match registry_set(&self.lua, tname, engine_table(&t)) {
            Ok(()) => {
                self.push_checked(StackValue::Table(t));
                proof { assert(final(self)@.stack.drop_last() =~= old(self)@.stack); }
                Ok(true)
            },
            Err(e) => {
                let f = self.push_failure(&e);
                Err(to_pcall_error(f))
            },
        }
    }

    /// Whether the values at two acceptable indices are primitively equal
    /// (without metamethods); `false` if either index holds no value.
    /// Nil, booleans, integers and strings compare by content.
    pub fn rawequal(&self, index1: i32, index2: i32) -> (r: bool)
        requires
            self.wf(),
            self.acceptable(index1 as int),
            self.acceptable(index2 as int),
        ensures
            type_at(self@.stack, index1 as int) is None || type_at(self@.stack, index2 as int) is None ==> !r,
            (value_at(self@.stack, index1 as int) matches Some(a) && plain(a))
                && (value_at(self@.stack, index2 as int) matches Some(b) && plain(b))
                ==> r == (value_at(self@.stack, index1 as int) == value_at(self@.stack, index2 as int)),
    {
        let a = match self.fetch(index1) {
            Some(v) => v,
            None => return index1 == REGISTRYINDEX && index2 == REGISTRYINDEX,
        };
        let b = match self.fetch(index2) {
            Some(v) => v,
            None => return false,
        };
        match (&a, &b) {
            (StackValue::Nil, StackValue::Nil) => true,
            (StackValue::Boolean(x), StackValue::Boolean(y)) => *x == *y,
            (StackValue::Integer(x), StackValue::Integer(y)) => *x == *y,
            (StackValue::Str(x), StackValue::Str(y)) => {
                let e = same_bytes(x.as_slice(), y.as_slice());
                proof {
                    if e {
                        assert(a@ == b@);
                    }
                }
                e
            },
            (StackValue::Nil, _) | (StackValue::Boolean(_), _) | (StackValue::Integer(_), _)
                | (StackValue::Str(_), _) => false,
            (_, StackValue::Nil) | (_, StackValue::Boolean(_)) | (_, StackValue::Integer(_))
                | (_, StackValue::Str(_)) => false,
            _ => match (self.to_engine(&a), self.to_engine(&b)) {
                (Ok(x), Ok(y)) => raw_equal(&x, &y),
                _ => false,
            },
        }
    }

    /// Exchanges values between two threads of the same engine: pops `n`
    /// values from this stack and pushes them, in order, onto `to`, which
    /// first reserves room for them.  Returns `false`, and moves nothing,
    /// when the two states are not on the same engine.
    pub fn xmove(&mut self, to: &mut State, n: i32) -> (r: bool)
        requires
            old(self).wf(),
            old(to).wf(),
            0 <= n <= old(self).top(),
            grow_ok(old(to).top(), old(to)@.space, n as int),
        ensures
            final(self).wf(),
            final(to).wf(),
            r ==> final(self)@.stack == old(self)@.stack.subrange(0, old(self).top() - n),
            r ==> final(to)@.stack == old(to)@.stack + old(self)@.stack.subrange(old(self).top() - n, old(self).top()),
            r ==> final(to)@.space == grown_space(old(to).top(), old(to)@.space, n as int),
            !r ==> final(self)@ == old(self)@ && final(to)@ == old(to)@,
            old(self).engine() == old(to).engine() ==> r,
            final(self)@.space == old(self)@.space,
    {
        proof { self.lemma_bounds(); to.lemma_bounds(); self.lemma_engine(); to.lemma_engine(); }
        if !same_engine(&self.lua, &to.lua) {
            return false;
        }
        to.checkstack_(n);
        let top = self.gettop() as usize;
        let first = top - n as usize;
        let ghost moved = self@.stack.subrange(first as int, top as int);
        let ghost start = to@.stack;
        let mut i: usize = first;
        while i < top
            invariant
                self.wf(),
                to.wf(),
                self@ == old(self)@,
                first <= i <= top,
                top == old(self).top(),
                first + n == top,
                moved == old(self)@.stack.subrange(first as int, top as int),
                to@.stack == start + moved.subrange(0, i - first),
                start.len() + n <= MAXCSTACK,
                to@.space == grown_space(old(to).top(), old(to)@.space, n as int),
            decreases top - i,
        {
            let v = self.value_at_pos(i);
            to.push_raw(v);
            i = i + 1;
            proof { assert(to@.stack =~= start + moved.subrange(0, i - first)); }
        }
        self.truncate_to(first);
        proof { assert(moved.subrange(0, n as int) =~= moved); }
        true
    }

    /// Pushes onto the stack `t[k]`, where `t` is the table at the given
    /// valid index and `k` the value at the top, which the result replaces;
    /// the access is raw (no metamethods).  On an engine error the error
    /// message replaces the key instead.  The registry is reached by name
    /// only (`getfield`).
    pub fn rawget(&mut self, idx: i32) -> (r: Result<(), PCallError>)
        requires
            old(self).wf(),
            old(self).valid(idx as int, true),
            idx != REGISTRYINDEX,
            type_at(old(self)@.stack, idx as int) == Some(Type::Table),
            old(self).top() >= 1,
        ensures
            final(self).wf(),
            final(self).top() == old(self).top(),
            final(self)@.stack.drop_last() == old(self)@.stack.drop_last(),
            r is Err ==> final(self)@.stack.last() is Str,
    {
        let target = self.fetch(idx);
        let key = self.pop_value();
        proof { old(self).lemma_bounds(); }
        let got = match self.to_engine(&key) {
            Err(e) => Err(e),
            Ok(k) => match target {
                Some(StackValue::Table(t)) => table_raw_get(&t, k),
                _ => Ok(engine_nil()),
            },
        };
        let ghost mid = self@.stack;
        match got {
            Ok(v) => {
                self.push_checked(sort_value(v));
                proof { assert(final(self)@.stack.drop_last() =~= mid); }
                Ok(())
            },
            Err(e) => {
                let f = self.push_failure(&e);
                Err(to_pcall_error(f))
            },
        }
    }

    /// Pushes onto the stack `t[n]`, where `t` is the table at the given
    /// valid index; the access is raw.  On an engine error pushes the error
    /// message instead.
    pub fn rawgeti(&mut self, idx: i32, n: i32) -> (r: Result<(), PCallError>)
        requires
            old(self).wf(),
            old(self).valid(idx as int, true),
            idx != REGISTRYINDEX,
            type_at(old(self)@.stack, idx as int) == Some(Type::Table),
            old(self).top() < MAXCSTACK,
        ensures
            final(self).wf(),
            final(self).top() == old(self).top() + 1,
            final(self)@.stack.drop_last() == old(self)@.stack,
            r is Err ==> final(self)@.stack.last() is Str,
    {
        let got = match self.fetch(idx) {
            Some(StackValue::Table(t)) => table_raw_get(&t, engine_integer(n as i64)),
            _ => Ok(engine_nil()),
        };
        match got {
            Ok(v) => {
                self.push_checked(sort_value(v));
                proof { assert(final(self)@.stack.drop_last() =~= old(self)@.stack); }
                Ok(())
            },
            Err(e) => {
                let f = self.push_failure(&e);
                Err(to_pcall_error(f))
            },
        }
    }

    /// Does `t[k] = v` without metamethods, where `t` is the table at the
    /// given valid index, `v` the value at the top and `k` the value below
    /// it; both are popped.  On an engine error (a nil key, for instance)
    /// the error message is pushed after popping them.
    pub fn rawset(&mut self, idx: i32) -> (r: Result<(), PCallError>)
        requires
            old(self).wf(),
            old(self).valid(idx as int, true),
            idx != REGISTRYINDEX,
            type_at(old(self)@.stack, idx as int) == Some(Type::Table),
            old(self).top() >= 2,
        ensures
            final(self).wf(),
            r is Ok ==> final(self)@.stack == old(self)@.stack.subrange(0, old(self).top() - 2),
            r is Err ==> final(self)@.stack.drop_last() == old(self)@.stack.subrange(0, old(self).top() - 2)
                && final(self)@.stack.last() is Str,
    {
        let target = self.fetch(idx);
        let v = self.pop_value();
        let k = self.pop_value();
        proof {
            old(self).lemma_bounds();
            assert(self@.stack =~= old(self)@.stack.subrange(0, old(self).top() - 2));
        }
        let res = match (self.to_engine(&k), self.to_engine(&v)) {
            (Ok(ek), Ok(ev)) => match target {
                Some(StackValue::Table(t)) => table_raw_set(&t, ek, ev),
                _ => Ok(()),
            },
            (Err(e), _) => Err(e),
            (_, Err(e)) => Err(e),
        };
        match res {
            Ok(()) => Ok(()),
            Err(e) => {
                let f = self.push_failure(&e);
                Err(to_pcall_error(f))
            },
        }
    }

    /// Does `t[n] = v` without metamethods, where `t` is the table at the
    /// given valid index and `v` the value at the top, which is popped.  On
    /// an engine error the error message takes the place of the value.
    pub fn rawseti(&mut self, idx: i32, n: i32) -> (r: Result<(), PCallError>)
        requires
            old(self).wf(),
            old(self).valid(idx as int, true),
            idx != REGISTRYINDEX,
            type_at(old(self)@.stack, idx as int) == Some(Type::Table),
            old(self).top() >= 1,
        ensures
            final(self).wf(),
            r is Ok ==> final(self)@.stack == old(self)@.stack.drop_last(),
            r is Err ==> final(self)@.stack.drop_last() == old(self)@.stack.drop_last()
                && final(self)@.stack.last() is Str,
    {
        let target = self.fetch(idx);
        let v = self.pop_value();
        proof { old(self).lemma_bounds(); }
        let res = match self.to_engine(&v) {
            Ok(ev) => match target {
                Some(StackValue::Table(t)) => table_raw_set(&t, engine_integer(n as i64), ev),
                _ => Ok(()),
            },
            Err(e) => Err(e),
        };
        match res {
            Ok(()) => Ok(()),
            Err(e) => {
                let f = self.push_failure(&e);
                Err(to_pcall_error(f))
            },
        }
    }

    /// Pushes the metatable of the table at the given acceptable index and
    /// returns `true`; returns `false` and pushes nothing when the index
    /// holds no table or the table has no metatable.  The binding reaches
    /// the metatables of tables only.
    pub fn getmetatable(&mut self, idx: i32) -> (r: bool)
        requires
            old(self).wf(),
            old(self).acceptable(idx as int),
            old(self).top() < MAXCSTACK,
        ensures
            final(self).wf(),
            r ==> final(self)@.stack.drop_last() == old(self)@.stack && final(self)@.stack.last() is Table,
            !r ==> final(self)@.stack == old(self)@.stack,
            type_at(old(self)@.stack, idx as int) != Some(Type::Table) ==> !r,
    {
        proof { self.lemma_values_wf(); }
        let mt = match self.fetch(idx) {
            Some(StackValue::Table(t)) => table_metatable(&t),
            _ => None,
        };
        match mt {
            Some(m) => {
                self.push_checked(StackValue::Table(m));
                proof { assert(final(self)@.stack.drop_last() =~= old(self)@.stack); }
                true
            },
            None => false,
        }
    }

    /// Pops a table or nil from the stack and sets it as the metatable of
    /// the table at the given valid index (nil removes it).  On an engine
    /// error the error message takes the place of the popped value.
    pub fn setmetatable(&mut self, idx: i32) -> (r: Result<(), PCallError>)
        requires
            old(self).wf(),
            old(self).valid(idx as int, true),
            idx != REGISTRYINDEX,
            type_at(old(self)@.stack, idx as int) == Some(Type::Table),
            old(self).top() >= 1,
            old(self)@.stack.last() is Table || old(self)@.stack.last() is Nil,
        ensures
            final(self).wf(),
            r is Ok ==> final(self)@.stack == old(self)@.stack.drop_last(),
            r is Err ==> final(self)@.stack.drop_last() == old(self)@.stack.drop_last()
                && final(self)@.stack.last() is Str,
    {
        let target = self.fetch(idx);
        let v = self.pop_value();
        proof { old(self).lemma_bounds(); }
        let mt = match v {
            StackValue::Table(m) => Some(m),
            _ => None,
        };
        let res = match target {
            Some(StackValue::Table(t)) => table_set_metatable(&t, mt),
            _ => Ok(()),
        };
        match res {
            Ok(()) => Ok(()),
            Err(e) => {
                let f = self.push_failure(&e);
                Err(to_pcall_error(f))
            },
        }
    }

    /// Controls the garbage collector.  `Count` gives the memory in use in
    /// Kbytes and `CountB` the remainder in bytes; `Step` gives 1 when the
    /// step finished a cycle; `SetPause` and `SetStepMul` set the parameter
    /// to `data` and give 0, as the binding does not report the previous
    /// value.  The other options give 0.
    pub fn gc(&mut self, what: GC, data: i32) -> (r: i32)
        requires
            old(self).wf(),
        ensures
            final(self).wf(),
            final(self)@ == old(self)@,
            (what == GC::Stop || what == GC::Restart || what == GC::Collect || what == GC::SetPause
                || what == GC::SetStepMul) ==> r == 0,
            what == GC::CountB ==> 0 <= r < 1024,
            what == GC::Step ==> (r == 0 || r == 1),
    {
        match what {
            GC::Stop => {
                gc_stop(&self.lua);
                0
            },
            GC::Restart => {
                gc_restart(&self.lua);
                0
            },
            GC::Collect => {
                let _ = gc_collect(&self.lua);
                0
            },
            GC::Count => {
                let kb = used_memory(&self.lua) / 1024;
                if kb > i32::MAX as usize { i32::MAX } else { kb as i32 }
            },
            GC::CountB => (used_memory(&self.lua) % 1024) as i32,
            GC::Step => match gc_step(&self.lua) {
                Ok(true) => 1,
                _ => 0,
            },
            GC::SetPause => {
                gc_tune(&self.lua, Some(data), None);
                0
            },
            GC::SetStepMul => {
                gc_tune(&self.lua, None, Some(data));
                0
            },
        }
    }

    /// Concatenates the `n` values at the top of the stack, which must be
    /// strings or numbers (numbers by the engine's text for them), pops
    /// them and pushes the result; for `n` 0 pushes the empty string.
    pub fn concat(&mut self, n: i32)
        requires
            old(self).wf(),
            0 <= n <= old(self).top(),
            n == 0 ==> old(self).top() < MAXCSTACK,
            forall|i: int| old(self).top() - n <= i < old(self).top() ==>
                model_type(#[trigger] old(self)@.stack[i]) == Type::String
                || model_type(old(self)@.stack[i]) == Type::Number,
        ensures
            final(self).wf(),
            final(self).top() == old(self).top() - n + 1,
            final(self)@.stack.drop_last() == old(self)@.stack.subrange(0, old(self).top() - n),
            final(self)@.stack.last() is Str,
            (forall|i: int| old(self).top() - n <= i < old(self).top() ==> (#[trigger] old(self)@.stack[i]) is Str)
                ==> final(self)@.stack.last() == ValueModel::Str(
                    joined(old(self)@.stack.subrange(old(self).top() - n, old(self).top()))),
    {
        proof { self.lemma_bounds(); }
        let top = self.gettop();
        let first = top - n;
        let ghost all_str = forall|i: int| first <= i < top ==> (#[trigger] old(self)@.stack[i]) is Str;
        let mut out: Vec<u8> = Vec::new();
        let mut i: i32 = first;
        while i < top
            invariant
                self.wf(),
                first <= i <= top,
                top == old(self).top(),
                top <= MAXCSTACK,
                0 <= n <= top,
                first == top - n,
                all_str == (forall|k: int| first <= k < top ==> (#[trigger] old(self)@.stack[k]) is Str),
                self.top() == top,
                self@.space == old(self)@.space,
                self@.stack.subrange(0, first as int) == old(self)@.stack.subrange(0, first as int),
                all_str ==> self@.stack == old(self)@.stack,
                all_str ==> out@ == joined(old(self)@.stack.subrange(first as int, i as int)),
            decreases top - i,
        {
            let ghost before = self@.stack;
            proof {
                if all_str {
                    assert(old(self)@.stack[i as int] is Str);
                }
            }
            let b = match self.tobytes(i - top) {
                Some(b) => b,
                None => Vec::new(),
            };
            proof {
                assert(self@.stack.subrange(0, first as int) =~= before.subrange(0, first as int));
                if all_str {
                    let sub = old(self)@.stack.subrange(first as int, i + 1);
                    assert(sub.drop_last() =~= old(self)@.stack.subrange(first as int, i as int));
                    assert(sub.last() == old(self)@.stack[i as int]);
                }
            }
            append_bytes(&mut out, b.as_slice());
            i = i + 1;
        }
        self.truncate_to(first as usize);
        let ghost mid = self@.stack;
        self.push_checked(StackValue::Str(out));
        proof {
            assert(self@.stack.drop_last() =~= mid);
        }
    }
}

/// The bytes of a sequence of strings, one after another (other values
/// count as empty).
pub open spec fn joined(s: Seq<ValueModel>) -> Seq<u8>
    decreases s.len(),
{
    if s.len() == 0 {
        Seq::empty()
    } else {
        joined(s.drop_last()) + match s.last() {
            ValueModel::Str(b) => b,
            _ => Seq::empty(),
        }
    }
}

/// Nil, booleans, integers and strings: the values compared by content.
pub open spec fn plain(m: ValueModel) -> bool {
    m is Nil || m is Boolean || m is Integer || m is Str
}

/// The message for calling a value of type `t`, which is not a function.
pub open spec fn call_error(t: Type) -> Seq<u8> {
    "attempt to call a ".spec_bytes() + encode_utf8(type_label(t)) + " value".spec_bytes()
}

/// The models of a sequence of values.
pub open spec fn models(vals: Seq<StackValue>) -> Seq<ValueModel> {
    vals.map_values(|v: StackValue| v@)
}

/// The first `n` values, nil for those missing.
pub open spec fn adjusted(vals: Seq<ValueModel>, n: nat) -> Seq<ValueModel> {
    Seq::new(n, |i: int| if i < vals.len() { vals[i] } else { ValueModel::Nil })
}

/// Sorts values handed back by the engine.
pub(crate) fn sort_all(vals: Vec<mlua::Value>) -> (r: Vec<StackValue>)
    ensures
        r@.len() == vals@.len(),
        forall|i: int| 0 <= i < r@.len() ==> (#[trigger] r@[i]).wf(),
{
    let mut out: Vec<StackValue> = Vec::new();
    let mut i: usize = 0;
    while i < vals.len()
        invariant
            i <= vals@.len(),
            out@.len() == i,
            forall|k: int| 0 <= k < out@.len() ==> (#[trigger] out@[k]).wf(),
        decreases vals@.len() - i,
    {
        out.push(sort_value(clone_value(&vals[i])));
        i = i + 1;
    }
    out
}

} // verus!
