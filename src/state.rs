//! The interpreter handle and its checked stack operations.
use vstd::prelude::*;
use vstd::string::StringSliceAdditionalSpecFns;

use crate::engine::{
    clone_value, coerce_integer, coerce_text, create_string, engine_function, engine_integer,
    engine_table, globals, is_numeric, new_engine, pointer_of, sort_value, table_len,
};
use crate::index::{
    ENVIRONINDEX, GLOBALSINDEX, MAXCSTACK, MINSTACK, REGISTRYINDEX, acceptable_index,
    is_named_pseudo, is_pseudo, valid_index,
};
use crate::types::{Type, none_name, type_label};
use crate::value::{StackValue, ValueModel, copy_bytes, decode_text, model_type, model_wf, truthy};
use vstd::string::StringExecFns;
use vstd::utf8::{decode_utf8, valid_utf8};

verus! {

/// The Lua state: a handle on an engine together with a stack of values.
///
/// Each operation states in `requires` which indices it takes (acceptable:
/// positive ones within the stack space recorded by `checkstack`, negative
/// ones within the current top; valid: within the current top) and how
/// much stack room it needs.  Operations that push reserve their slot
/// first, raising the recorded space when they must.  A state made by
/// `newthread` may also carry a coroutine.
pub struct State {
    pub(crate) lua: mlua::Lua,
    pub(crate) stack: Vec<StackValue>,
    pub(crate) stackspace: i32,
    pub(crate) coroutine: Option<mlua::Thread>,
    pub(crate) yielded: bool,
}

/// The model of a state: its stack of values and the reserved stack space
/// (the watermark).
pub struct StateView {
    pub stack: Seq<ValueModel>,
    pub space: int,
}

impl View for State {
    type V = StateView;

    closed spec fn view(&self) -> StateView {
        StateView {
            stack: self.stack@.map_values(|v: StackValue| v@),
            space: self.stackspace as int,
        }
    }
}

/// The 0-based position that a non-pseudo index names in a stack of
/// height `top`.
pub open spec fn slot_pos(idx: int, top: int) -> int {
    if idx > 0 { idx - 1 } else { top + idx }
}

/// The value at a non-pseudo index, if the index refers to a live value.
pub open spec fn value_at(s: Seq<ValueModel>, idx: int) -> Option<ValueModel> {
    let p = slot_pos(idx, s.len() as int);
    if idx != 0 && !is_pseudo(idx) && 0 <= p < s.len() { Some(s[p]) } else { None }
}

/// The type at an index: the named pseudo-indices hold tables, upvalue
/// pseudo-indices hold nothing in a host-side state.
pub open spec fn type_at(s: Seq<ValueModel>, idx: int) -> Option<Type> {
    if is_named_pseudo(idx) {
        Some(Type::Table)
    } else {
        match value_at(s, idx) {
            Some(m) => Some(model_type(m)),
            None => None,
        }
    }
}

/// The stack after setting its top to `idx` (0 empties it, a positive index
/// sets the height, a negative one counts from the top); new slots are nil.
pub open spec fn settop_model(s: Seq<ValueModel>, idx: int) -> Seq<ValueModel> {
    let n = if idx >= 0 { idx } else { s.len() + idx + 1 };
    if n <= s.len() {
        s.subrange(0, n)
    } else {
        s + Seq::new((n - s.len()) as nat, |i: int| ValueModel::Nil)
    }
}

/// Whether a request for `extra` free slots can be met.
pub open spec fn grow_ok(top: int, space: int, extra: int) -> bool {
    top + extra <= space || top + extra <= MAXCSTACK
}

/// The stack space after a request for `extra` free slots: raised to
/// `top + extra` when that exceeds the recorded space and the engine can
/// grow, unchanged otherwise.
pub open spec fn grown_space(top: int, space: int, extra: int) -> int {
    if top + extra > space && top + extra <= MAXCSTACK { top + extra } else { space }
}

/// The name that `typename` gives for the type at an index.
pub open spec fn typename_at(s: Seq<ValueModel>, idx: int) -> Seq<char> {
    match type_at(s, idx) {
        Some(t) => type_label(t),
        None => none_name(),
    }
}

impl State {
    /// The state's invariant: the stack and the recorded stack space stay
    /// within the engine's capacity, and every value is well formed.
    pub closed spec fn wf(&self) -> bool {
        &&& self.stack@.len() <= MAXCSTACK
        &&& MINSTACK <= self.stackspace <= MAXCSTACK
        &&& forall|i: int| 0 <= i < self.stack@.len() ==> (#[trigger] self.stack@[i]).wf()
    }

    /// Whether a coroutine was started on this state.
    pub closed spec fn has_coroutine(&self) -> bool {
        self.coroutine is Some
    }

    /// The engine this state runs on; threads made by `newthread` share it.
    pub closed spec fn engine(&self) -> mlua::Lua {
        self.lua
    }

    pub(crate) proof fn lemma_engine(&self)
        ensures
            self.engine() == self.lua,
    {
    }

    /// Whether this thread's coroutine is suspended in a yield.
    pub closed spec fn suspended(&self) -> bool {
        self.yielded
    }

    pub(crate) proof fn lemma_coroutine(&self)
        ensures
            self.has_coroutine() == (self.coroutine is Some),
            self.suspended() == self.yielded,
    {
    }

    /// The height of the stack.
    pub open spec fn top(&self) -> int {
        self@.stack.len() as int
    }

    /// Whether `idx` is acceptable in this state.
    pub open spec fn acceptable(&self, idx: int) -> bool {
        acceptable_index(idx, self.top(), self@.space)
    }

    /// Whether `idx` is valid in this state.
    pub open spec fn valid(&self, idx: int, allow_pseudo: bool) -> bool {
        valid_index(idx, self.top(), allow_pseudo)
    }

    pub(crate) proof fn lemma_view(&self)
        ensures
            self@.stack.len() == self.stack@.len(),
            forall|i: int| 0 <= i < self.stack@.len() ==> #[trigger] self@.stack[i] == self.stack@[i]@,
            self@.space == self.stackspace,
    {
    }

    /// Every value of a well-formed state is well formed: the type of a
    /// string, a table or a function is that of its own kind.
    pub proof fn lemma_values_wf(&self)
        requires
            self.wf(),
        ensures
            forall|i: int| 0 <= i < self@.stack.len() ==> model_wf(#[trigger] self@.stack[i]),
    {
        self.lemma_view();
    }

    /// A well-formed state holds at most `MAXCSTACK` values and records a
    /// stack space between `MINSTACK` and `MAXCSTACK`.
    pub proof fn lemma_bounds(&self)
        requires
            self.wf(),
        ensures
            self.top() <= MAXCSTACK,
            MINSTACK <= self@.space <= MAXCSTACK,
    {
    }

    /// Returns a new state with a fresh engine that has loaded only the base
    /// library, an empty stack and the minimum stack space.
    pub fn new() -> (r: State)
        ensures
            r.wf(),
            !r.has_coroutine(),
            r@.stack.len() == 0,
            r@.space == MINSTACK,
    {
        let lua = new_engine();
        let st = State {
            lua,
            stack: Vec::new(),
            stackspace: MINSTACK,
            coroutine: None,
            yielded: false,
        };
        assert(st@.stack =~= Seq::<ValueModel>::empty());
        st
    }

    /// A state over a shared engine with an empty stack and the given
    /// stack space.
    pub(crate) fn over_engine(lua: mlua::Lua, space: i32) -> (r: State)
        requires
            MINSTACK <= space <= MAXCSTACK,
        ensures
            r.wf(),
            !r.has_coroutine(),
            r.engine() == lua,
            r@.stack.len() == 0,
            r@.space == space,
    {
        let st = State { lua, stack: Vec::new(), stackspace: space, coroutine: None, yielded: false };
        assert(st@.stack =~= Seq::<ValueModel>::empty());
        st
    }

    /// The stack space recorded by the last successful `checkstack` (the
    /// bound for acceptable positive indices).
    pub fn stackspace(&self) -> (r: i32)
        requires
            self.wf(),
        ensures
            r == self@.space,
    {
        proof { self.lemma_view(); }
        self.stackspace
    }

    /// Decides whether the state is well formed.
    pub(crate) fn check_wf(&self) -> (r: bool)
        ensures
            r == self.wf(),
    {
        if self.stack.len() > MAXCSTACK as usize || self.stackspace < MINSTACK || self.stackspace > MAXCSTACK {
            return false;
        }
        let mut i: usize = 0;
        while i < self.stack.len()
            invariant
                i <= self.stack@.len(),
                forall|k: int| 0 <= k < i ==> (#[trigger] self.stack@[k]).wf(),
            decreases self.stack@.len() - i,
        {
            if !self.stack[i].check_wf() {
                return false;
            }
            i = i + 1;
        }
        true
    }

    /// Returns the index of the top element of the stack; 0 means the stack
    /// is empty.
    pub fn gettop(&self) -> (r: i32)
        requires
            self.wf(),
        ensures
            r == self.top(),
            0 <= r <= MAXCSTACK,
    {
        proof { self.lemma_view(); }
        self.stack.len() as i32
    }

    /// The position in the stack vector that a non-pseudo index names, if
    /// the index refers to a live value.
    pub(crate) fn position(&self, idx: i32) -> (r: Option<usize>)
        requires
            self.wf(),
        ensures
            r matches Some(p) ==> value_at(self@.stack, idx as int) == Some(self@.stack[p as int])
                && p == slot_pos(idx as int, self.top()) && p < self.top(),
            r is None ==> value_at(self@.stack, idx as int) is None,
    {
        proof { self.lemma_view(); }
        let top = self.stack.len() as i32;
        if idx == 0 || idx <= REGISTRYINDEX {
            None
        } else if idx > 0 {
            if idx <= top {
                Some((idx - 1) as usize)
            } else {
                None
            }
        } else if -idx <= top {
            Some((top + idx) as usize)
        } else {
            None
        }
    }

    /// Drops every value above the first `n`.
    pub(crate) fn truncate_to(&mut self, n: usize)
        requires
            old(self).wf(),
            n <= old(self).top(),
        ensures
            final(self).wf(),
            final(self)@.stack == old(self)@.stack.subrange(0, n as int),
            final(self)@.space == old(self)@.space,
    {
        proof { self.lemma_view(); }
        self.stack.truncate(n);
        proof {
            self.lemma_view();
            assert(self@.stack =~= old(self)@.stack.subrange(0, n as int));
        }
    }

    /// A copy of the value at 0-based position `p`.
    pub(crate) fn value_at_pos(&self, p: usize) -> (r: StackValue)
        requires
            self.wf(),
            p < self.top(),
        ensures
            r@ == self@.stack[p as int],
            r.wf(),
    {
        proof { self.lemma_view(); }
        self.stack[p].copy()
    }

    /// Replaces the value at 0-based position `p`.
    pub(crate) fn set_at_pos(&mut self, p: usize, v: StackValue)
        requires
            old(self).wf(),
            p < old(self).top(),
            v.wf(),
        ensures
            final(self).wf(),
            final(self)@.stack == old(self)@.stack.update(p as int, v@),
            final(self)@.space == old(self)@.space,
    {
        proof { self.lemma_view(); }
        let ghost m = v@;
        self.stack.set(p, v);
        proof {
            self.lemma_view();
            assert(self@.stack =~= old(self)@.stack.update(p as int, m));
        }
    }

    /// Records the coroutine of this thread and whether it is suspended in
    /// a yield.
    pub(crate) fn set_thread(&mut self, co: Option<mlua::Thread>, yielded: bool)
        requires
            old(self).wf(),
        ensures
            final(self).wf(),
            final(self)@ == old(self)@,
            final(self).coroutine == co,
            final(self).yielded == yielded,
    {
        self.coroutine = co;
        self.yielded = yielded;
    }

    /// Pops the top value.
    pub(crate) fn pop_value(&mut self) -> (r: StackValue)
        requires
            old(self).wf(),
            old(self).top() >= 1,
        ensures
            final(self).wf(),
            final(self)@.stack == old(self)@.stack.drop_last(),
            r@ == old(self)@.stack.last(),
            r.wf(),
            final(self)@.space == old(self)@.space,
    {
        proof { self.lemma_view(); }
        let v = self.stack.pop().unwrap();
        proof {
            self.lemma_view();
            assert(self@.stack =~= old(self)@.stack.drop_last());
        }
        v
    }

    /// Pushes a value, which must be well formed, with no check of room.
    pub(crate) fn push_raw(&mut self, v: StackValue)
        requires
            old(self).wf(),
            old(self).top() < MAXCSTACK,
            v.wf(),
        ensures
            final(self).wf(),
            final(self)@.stack == old(self)@.stack.push(v@),
            final(self)@.space == old(self)@.space,
    {
        proof { self.lemma_view(); }
        let ghost m = v@;
        self.stack.push(v);
        proof {
            self.lemma_view();
            assert(self@.stack =~= old(self)@.stack.push(m));
        }
    }

    /// Ensures the stack has room for at least `extra` more values.
    /// Returns `false` if it cannot grow the stack as requested; otherwise
    /// records the new stack space.
    pub fn checkstack(&mut self, extra: i32) -> (r: bool)
        requires
            old(self).wf(),
        ensures
            final(self).wf(),
            r == grow_ok(old(self).top(), old(self)@.space, extra as int),
            final(self)@.space == grown_space(old(self).top(), old(self)@.space, extra as int),
            final(self)@.stack == old(self)@.stack,
    {
        proof { self.lemma_view(); }
        let top = self.stack.len() as i32;
        if extra > self.stackspace - top {
            if extra <= MAXCSTACK - top {
                self.stackspace = top + extra;
                proof { self.lemma_view(); }
                true
            } else {
                false
            }
        } else {
            true
        }
    }

    /// Ensures the stack has room for at least `extra` more values; the
    /// request must be one that can be met.
    pub fn checkstack_(&mut self, extra: i32)
        requires
            old(self).wf(),
            grow_ok(old(self).top(), old(self)@.space, extra as int),
        ensures
            final(self).wf(),
            final(self)@.space == grown_space(old(self).top(), old(self)@.space, extra as int),
            final(self)@.stack == old(self)@.stack,
    {
        let _ = self.checkstack(extra);
    }

    /// Reserves one slot and pushes a value.
    pub(crate) fn push_checked(&mut self, v: StackValue)
        requires
            old(self).wf(),
            old(self).top() < MAXCSTACK,
            v.wf(),
        ensures
            final(self).wf(),
            final(self)@.stack == old(self)@.stack.push(v@),
            final(self)@.space == grown_space(old(self).top(), old(self)@.space, 1),
    {
        self.checkstack_(1);
        self.push_raw(v);
    }

    /// A copy of the value at the given acceptable index, in the library's
    /// own representation; `None` where the index holds no value, and for
    /// the registry, which is reached by name only.  No operation takes such
    /// a value back: a stack only ever holds handles of its own engine.
    pub fn value(&self, idx: i32) -> (r: Option<StackValue>)
        requires
            self.wf(),
            self.acceptable(idx as int),
        ensures
            !is_pseudo(idx as int) ==> match value_at(self@.stack, idx as int) {
                Some(m) => r matches Some(v) && v@ == m,
                None => r is None,
            },
            r matches Some(v) ==> v.wf(),
    {
        self.fetch(idx)
    }

    /// Pushes a nil value onto the stack.
    pub fn pushnil(&mut self)
        requires
            old(self).wf(),
            old(self).top() < MAXCSTACK,
        ensures
            final(self).wf(),
            final(self)@.stack == old(self)@.stack.push(ValueModel::Nil),
            final(self)@.space == grown_space(old(self).top(), old(self)@.space, 1),
    {
        self.push_checked(StackValue::Nil);
    }

    /// Pushes a boolean value onto the stack.
    pub fn pushboolean(&mut self, b: bool)
        requires
            old(self).wf(),
            old(self).top() < MAXCSTACK,
        ensures
            final(self).wf(),
            final(self)@.stack == old(self)@.stack.push(ValueModel::Boolean(b)),
            final(self)@.space == grown_space(old(self).top(), old(self)@.space, 1),
    {
        self.push_checked(StackValue::Boolean(b));
    }

    /// Pushes a number with the integer value `n` onto the stack.
    pub fn pushinteger(&mut self, n: i64)
        requires
            old(self).wf(),
            old(self).top() < MAXCSTACK,
        ensures
            final(self).wf(),
            final(self)@.stack == old(self)@.stack.push(ValueModel::Integer(n)),
            final(self)@.space == grown_space(old(self).top(), old(self)@.space, 1),
    {
        self.push_checked(StackValue::Integer(n));
    }

    /// Pushes a byte vector onto the stack as a Lua string.
    pub fn pushbytes(&mut self, bytes: &[u8])
        requires
            old(self).wf(),
            old(self).top() < MAXCSTACK,
        ensures
            final(self).wf(),
            final(self)@.stack == old(self)@.stack.push(ValueModel::Str(bytes@)),
            final(self)@.space == grown_space(old(self).top(), old(self)@.space, 1),
    {
        let v = copy_bytes(bytes);
        self.push_checked(StackValue::Str(v));
    }

    /// Pushes a string onto the stack, as its UTF-8 bytes.
    pub fn pushstring(&mut self, s: &str)
        requires
            old(self).wf(),
            old(self).top() < MAXCSTACK,
        ensures
            final(self).wf(),
            final(self)@.stack == old(self)@.stack.push(ValueModel::Str(s.spec_bytes())),
            final(self)@.space == grown_space(old(self).top(), old(self)@.space, 1),
    {
        self.pushbytes(s.as_bytes());
    }

    /// Sets the stack top to the given index, or empties the stack for 0.
    /// A larger top fills the new slots with nil.
    pub fn settop(&mut self, idx: i32)
        requires
            old(self).wf(),
            idx == 0 || (old(self).acceptable(idx as int) && !is_pseudo(idx as int)),
        ensures
            final(self).wf(),
            final(self)@.stack == settop_model(old(self)@.stack, idx as int),
            final(self)@.space == old(self)@.space,
    {
        proof { self.lemma_view(); }
        let top = self.stack.len();
        let n: usize = if idx >= 0 { idx as usize } else { (top as i32 + idx + 1) as usize };
        if n <= top {
            self.stack.truncate(n);
            proof {
                self.lemma_view();
                assert(self@.stack =~= settop_model(old(self)@.stack, idx as int));
            }
        } else {
            while self.stack.len() < n
                invariant
                    n <= MAXCSTACK,
                    top <= self.stack@.len() <= n,
                    self.stackspace == old(self).stackspace,
                    forall|i: int| 0 <= i < top ==> #[trigger] self.stack@[i] == old(self).stack@[i],
                    forall|i: int| top <= i < self.stack@.len() ==> #[trigger] self.stack@[i] == StackValue::Nil,
                decreases n - self.stack@.len(),
            {
                self.stack.push(StackValue::Nil);
            }
            proof {
                self.lemma_view();
                old(self).lemma_view();
                assert(self@.stack =~= settop_model(old(self)@.stack, idx as int));
            }
        }
    }

    /// Pops `n` elements from the stack.
    pub fn pop(&mut self, n: i32)
        requires
            old(self).wf(),
            0 <= n <= old(self).top(),
        ensures
            final(self).wf(),
            final(self)@.stack == old(self)@.stack.subrange(0, old(self).top() - n),
            final(self)@.space == old(self)@.space,
    {
        proof { self.lemma_view(); }
        let top = self.stack.len();
        self.stack.truncate(top - n as usize);
        proof {
            self.lemma_view();
            assert(self@.stack =~= old(self)@.stack.subrange(0, old(self).top() - n));
        }
    }

    /// A copy of the value at an index: the globals table for the globals
    /// and environment pseudo-indices; nothing for the registry (reached by
    /// name only) and for upvalues (a host-side state runs no C function).
    pub(crate) fn fetch(&self, idx: i32) -> (r: Option<StackValue>)
        requires
            self.wf(),
        ensures
            !is_pseudo(idx as int) ==> match value_at(self@.stack, idx as int) {
                Some(m) => r matches Some(v) && v@ == m,
                None => r is None,
            },
            (idx == GLOBALSINDEX || idx == ENVIRONINDEX) ==> (r matches Some(v) && v@ is Table),
            (idx == REGISTRYINDEX || idx < GLOBALSINDEX) ==> r is None,
            r matches Some(v) ==> v.wf(),
    {
        proof { self.lemma_view(); }
        if idx == GLOBALSINDEX || idx == ENVIRONINDEX {
            Some(StackValue::Table(globals(&self.lua)))
        } else {
            match self.position(idx) {
                Some(p) => Some(self.stack[p].copy()),
                None => None,
            }
        }
    }

    /// Returns the type of the value at the given acceptable index, or
    /// `None` for an index that holds no value.
    pub fn type_(&self, idx: i32) -> (r: Option<Type>)
        requires
            self.wf(),
            self.acceptable(idx as int),
        ensures
            r == type_at(self@.stack, idx as int),
    {
        if is_named(idx) {
            Some(Type::Table)
        } else {
            match self.position(idx) {
                Some(p) => Some(self.stack[p].value_type()),
                None => None,
            }
        }
    }

    /// Returns the name of the type of the value at the given acceptable
    /// index; "no value" for an index that holds none.
    pub fn typename(&self, idx: i32) -> (r: &'static str)
        requires
            self.wf(),
            self.acceptable(idx as int),
        ensures
            r@ == typename_at(self@.stack, idx as int),
    {
        match self.type_(idx) {
            Some(t) => t.name(),
            None => "no value",
        }
    }

    /// Whether the value at the given acceptable index is nil.
    pub fn isnil(&self, idx: i32) -> (r: bool)
        requires
            self.wf(),
            self.acceptable(idx as int),
        ensures
            r == (type_at(self@.stack, idx as int) == Some(Type::Nil)),
    {
        self.type_(idx) == Some(Type::Nil)
    }

    /// Whether the given acceptable index holds no value.
    pub fn isnone(&self, idx: i32) -> (r: bool)
        requires
            self.wf(),
            self.acceptable(idx as int),
        ensures
            r == type_at(self@.stack, idx as int) is None,
    {
        self.type_(idx).is_none()
    }

    /// Whether the given acceptable index holds no value or nil.
    pub fn isnoneornil(&self, idx: i32) -> (r: bool)
        requires
            self.wf(),
            self.acceptable(idx as int),
        ensures
            r == (type_at(self@.stack, idx as int) is None
                || type_at(self@.stack, idx as int) == Some(Type::Nil)),
    {
        match self.type_(idx) {
            None => true,
            Some(t) => t == Type::Nil,
        }
    }

    /// Whether the value at the given acceptable index is a boolean.
    pub fn isboolean(&self, idx: i32) -> (r: bool)
        requires
            self.wf(),
            self.acceptable(idx as int),
        ensures
            r == (type_at(self@.stack, idx as int) == Some(Type::Boolean)),
    {
        self.type_(idx) == Some(Type::Boolean)
    }

    /// Whether the value at the given acceptable index is a table.
    pub fn istable(&self, idx: i32) -> (r: bool)
        requires
            self.wf(),
            self.acceptable(idx as int),
        ensures
            r == (type_at(self@.stack, idx as int) == Some(Type::Table)),
    {
        self.type_(idx) == Some(Type::Table)
    }

    /// Whether the value at the given acceptable index is a function.
    pub fn isfunction(&self, idx: i32) -> (r: bool)
        requires
            self.wf(),
            self.acceptable(idx as int),
        ensures
            r == (type_at(self@.stack, idx as int) == Some(Type::Function)),
    {
        self.type_(idx) == Some(Type::Function)
    }

    /// Whether the value at the given acceptable index is a userdata,
    /// full or light.
    pub fn isuserdata(&self, idx: i32) -> (r: bool)
        requires
            self.wf(),
            self.acceptable(idx as int),
        ensures
            r == (type_at(self@.stack, idx as int) == Some(Type::Userdata)
                || type_at(self@.stack, idx as int) == Some(Type::LightUserdata)),
    {
        match self.type_(idx) {
            Some(t) => t == Type::Userdata || t == Type::LightUserdata,
            None => false,
        }
    }

    /// Whether the value at the given acceptable index is a light userdata.
    pub fn islightuserdata(&self, idx: i32) -> (r: bool)
        requires
            self.wf(),
            self.acceptable(idx as int),
        ensures
            r == (type_at(self@.stack, idx as int) == Some(Type::LightUserdata)),
    {
        self.type_(idx) == Some(Type::LightUserdata)
    }

    /// Whether the value at the given acceptable index is a thread.
    pub fn isthread(&self, idx: i32) -> (r: bool)
        requires
            self.wf(),
            self.acceptable(idx as int),
        ensures
            r == (type_at(self@.stack, idx as int) == Some(Type::Thread)),
    {
        self.type_(idx) == Some(Type::Thread)
    }

    /// Whether the value at the given acceptable index is a string or a
    /// number (which is always convertible to a string).
    pub fn isstring(&self, idx: i32) -> (r: bool)
        requires
            self.wf(),
            self.acceptable(idx as int),
        ensures
            r == (type_at(self@.stack, idx as int) == Some(Type::String)
                || type_at(self@.stack, idx as int) == Some(Type::Number)),
    {
        match self.type_(idx) {
            Some(t) => t == Type::String || t == Type::Number,
            None => false,
        }
    }

    /// Whether the value at the given acceptable index is a number or a
    /// string convertible to a number.
    pub fn isnumber(&self, idx: i32) -> (r: bool)
        requires
            self.wf(),
            self.acceptable(idx as int),
        ensures
            type_at(self@.stack, idx as int) == Some(Type::Number) ==> r,
            type_at(self@.stack, idx as int) != Some(Type::Number)
                && type_at(self@.stack, idx as int) != Some(Type::String) ==> !r,
    {
        if is_named(idx) {
            return false;
        }
        match self.position(idx) {
            Some(p) => match &self.stack[p] {
                StackValue::Integer(_) => true,
                StackValue::Other(t, _) => *t == Type::Number,
                StackValue::Str(b) => match create_string(&self.lua, b.as_slice()) {
                    Ok(v) => match is_numeric(&self.lua, v) {
                        Ok(n) => n,
                        Err(_) => false,
                    },
                    Err(_) => false,
                },
                _ => false,
            },
            None => false,
        }
    }

    /// Converts the value at the given acceptable index to a boolean: false
    /// for nil, false and an index that holds no value, true otherwise.
    pub fn toboolean(&self, idx: i32) -> (r: bool)
        requires
            self.wf(),
            self.acceptable(idx as int),
        ensures
            r == (is_named_pseudo(idx as int) || match value_at(self@.stack, idx as int) {
                Some(m) => truthy(m),
                None => false,
            }),
    {
        if is_named(idx) {
            true
        } else {
            match self.position(idx) {
                Some(p) => self.stack[p].is_truthy(),
                None => false,
            }
        }
    }

    /// Converts the value at the given acceptable index to an integer.  A
    /// number with an integer value converts to itself; numeric strings and
    /// other numbers convert as the engine converts them; everything else
    /// gives 0.
    pub fn tointeger(&self, idx: i32) -> (r: i64)
        requires
            self.wf(),
            self.acceptable(idx as int),
        ensures
            value_at(self@.stack, idx as int) matches Some(ValueModel::Integer(i)) ==> r == i,
            match value_at(self@.stack, idx as int) {
                Some(ValueModel::Str(_)) | Some(ValueModel::Integer(_)) => true,
                Some(ValueModel::Other(t, _)) => t != Type::Number ==> r == 0,
                _ => r == 0,
            },
    {
        if is_named(idx) {
            return 0;
        }
        match self.position(idx) {
            Some(p) => match &self.stack[p] {
                StackValue::Integer(i) => *i,
                StackValue::Str(b) => {
                    let v = match create_string(&self.lua, b.as_slice()) {
                        Ok(v) => v,
                        Err(_) => return 0,
                    };
                    match coerce_integer(&self.lua, v) {
                        Ok(Some(i)) => i,
                        _ => 0,
                    }
                },
                StackValue::Other(t, v) => {
                    if *t == Type::Number {
                        match coerce_integer(&self.lua, clone_value(v)) {
                            Ok(Some(i)) => i,
                            _ => 0,
                        }
                    } else {
                        0
                    }
                },
                _ => 0,
            },
            None => 0,
        }
    }

    /// Converts the value at the given acceptable index into a Lua string
    /// and returns its bytes; `None` if the value is not a string or a
    /// number.  A number is converted in place: the slot then holds the
    /// string.
    pub fn tobytes(&mut self, idx: i32) -> (r: Option<Vec<u8>>)
        requires
            old(self).wf(),
            old(self).acceptable(idx as int),
        ensures
            final(self).wf(),
            final(self)@.space == old(self)@.space,
            final(self)@.stack.len() == old(self)@.stack.len(),
            forall|i: int| 0 <= i < old(self)@.stack.len() && i != slot_pos(idx as int, old(self).top())
                ==> #[trigger] final(self)@.stack[i] == old(self)@.stack[i],
            match value_at(old(self)@.stack, idx as int) {
                Some(ValueModel::Str(b)) => (r matches Some(v) && v@ == b)
                    && final(self)@.stack == old(self)@.stack,
                Some(m) => if model_type(m) == Type::Number {
                    match r {
                        Some(v) => final(self)@.stack == old(self)@.stack.update(
                            slot_pos(idx as int, old(self).top()), ValueModel::Str(v@)),
                        None => final(self)@.stack == old(self)@.stack,
                    }
                } else {
                    r is None && final(self)@.stack == old(self)@.stack
                },
                None => r is None && final(self)@.stack == old(self)@.stack,
            },
    {
        proof { self.lemma_view(); }
        if is_named(idx) {
            return None;
        }
        let p = match self.position(idx) {
            Some(p) => p,
            None => return None,
        };
        let ev = match &self.stack[p] {
            StackValue::Str(b) => return Some(copy_bytes(b.as_slice())),
            StackValue::Integer(i) => engine_integer(*i),
            StackValue::Other(t, v) => {
                if *t == Type::Number {
                    clone_value(v)
                } else {
                    return None;
                }
            },
            _ => return None,
        };
        match coerce_text(&self.lua, ev) {
            Ok(Some(b)) => {
                let c = copy_bytes(b.as_slice());
                self.stack.set(p, StackValue::Str(c));
                proof {
                    self.lemma_view();
                    assert(self@.stack =~= old(self)@.stack.update(p as int, ValueModel::Str(b@)));
                }
                Some(b)
            },
            _ => None,
        }
    }

    /// Converts the value at the given acceptable index into a string, as
    /// `tobytes` does, and decodes it; `None` if it is not a string or a
    /// number, or if its bytes are not UTF-8.  A number is replaced in place
    /// by its text.
    pub fn tostring(&mut self, idx: i32) -> (r: Option<String>)
        requires
            old(self).wf(),
            old(self).acceptable(idx as int),
        ensures
            final(self).wf(),
            final(self)@.space == old(self)@.space,
            final(self)@.stack.len() == old(self)@.stack.len(),
            forall|i: int| 0 <= i < old(self)@.stack.len() && i != slot_pos(idx as int, old(self).top())
                ==> #[trigger] final(self)@.stack[i] == old(self)@.stack[i],
            value_at(old(self)@.stack, idx as int) matches Some(ValueModel::Str(b)) ==> {
                &&& (r is Some <==> valid_utf8(b))
                &&& (r matches Some(s) ==> s@ == decode_utf8(b))
                &&& final(self)@.stack == old(self)@.stack
            },
            type_at(old(self)@.stack, idx as int) != Some(Type::String)
                && type_at(old(self)@.stack, idx as int) != Some(Type::Number) ==> r is None
                    && final(self)@.stack == old(self)@.stack,
            type_at(old(self)@.stack, idx as int) == Some(Type::Number) && r is Some ==> exists|b: Seq<u8>|
                #![trigger valid_utf8(b)]
                final(self)@.stack == old(self)@.stack.update(slot_pos(idx as int, old(self).top()), ValueModel::Str(b))
                && valid_utf8(b) && r->Some_0@ == decode_utf8(b),
            type_at(old(self)@.stack, idx as int) == Some(Type::Number) && r is None ==> (final(self)@.stack
                == old(self)@.stack || exists|b: Seq<u8>| #![trigger valid_utf8(b)]
                final(self)@.stack == old(self)@.stack.update(slot_pos(idx as int, old(self).top()),
                ValueModel::Str(b)) && !valid_utf8(b)),
    {
        match self.tobytes(idx) {
            Some(b) => {
                let ghost bb = b@;
                let r = decode_text(b);
                proof {
                    if type_at(old(self)@.stack, idx as int) == Some(Type::Number) {
                        assert(valid_utf8(bb) || !valid_utf8(bb));
                    }
                }
                r
            },
            None => None,
        }
    }

    /// Returns the "length" of the value at the given acceptable index: the
    /// byte length of a string, the length of the text of a number (which
    /// is converted in place, as `tobytes` does), the border of a table's
    /// sequence, and 0 for the other values.
    pub fn objlen(&mut self, idx: i32) -> (r: usize)
        requires
            old(self).wf(),
            old(self).acceptable(idx as int),
        ensures
            final(self).wf(),
            final(self)@.space == old(self)@.space,
            value_at(old(self)@.stack, idx as int) matches Some(ValueModel::Str(b)) ==> r == b.len()
                && final(self)@.stack == old(self)@.stack,
            type_at(old(self)@.stack, idx as int) != Some(Type::Number) ==> final(self)@.stack == old(self)@.stack,
            type_at(old(self)@.stack, idx as int) is None
                || type_at(old(self)@.stack, idx as int) == Some(Type::Nil)
                || type_at(old(self)@.stack, idx as int) == Some(Type::Boolean)
                || type_at(old(self)@.stack, idx as int) == Some(Type::Function) ==> r == 0,
    {
        if idx == GLOBALSINDEX || idx == ENVIRONINDEX {
            return table_len(&globals(&self.lua));
        }
        if idx == REGISTRYINDEX {
            return 0;
        }
        let p = match self.position(idx) {
            Some(p) => p,
            None => return 0,
        };
        match &self.stack[p] {
            StackValue::Str(b) => return b.len(),
            StackValue::Table(t) => return table_len(t),
            StackValue::Integer(_) => {},
            StackValue::Other(t, _) => {
                if *t != Type::Number {
                    return 0;
                }
            },
            _ => return 0,
        }
        match self.tobytes(idx) {
            Some(b) => b.len(),
            None => 0,
        }
    }

    /// Pushes a copy of the value at the given valid index.  The globals and
    /// environment pseudo-indices give the globals table, an upvalue gives
    /// nil; the registry is reached by name only (`getfield`).
    pub fn pushvalue(&mut self, idx: i32)
        requires
            old(self).wf(),
            old(self).valid(idx as int, true),
            idx != REGISTRYINDEX,
            old(self).top() < MAXCSTACK,
        ensures
            final(self).wf(),
            final(self)@.space == grown_space(old(self).top(), old(self)@.space, 1),
            final(self).top() == old(self).top() + 1,
            final(self)@.stack.subrange(0, old(self).top()) == old(self)@.stack,
            !is_pseudo(idx as int) ==> final(self)@.stack == old(self)@.stack.push(
                old(self)@.stack[slot_pos(idx as int, old(self).top())]),
            is_named_pseudo(idx as int) ==> final(self)@.stack.last() is Table,
            idx < GLOBALSINDEX ==> final(self)@.stack == old(self)@.stack.push(ValueModel::Nil),
    {
        proof { self.lemma_view(); }
        let v = match self.fetch(idx) {
            Some(v) => v,
            None => StackValue::Nil,
        };
        self.push_checked(v);
        proof {
            assert(final(self)@.stack.subrange(0, old(self).top()) =~= old(self)@.stack);
        }
    }

    /// Removes the element at the given valid index, shifting down the
    /// elements above it.  Pseudo-indices are not valid here.
    pub fn remove(&mut self, idx: i32)
        requires
            old(self).wf(),
            old(self).valid(idx as int, false),
        ensures
            final(self).wf(),
            final(self)@.stack == old(self)@.stack.remove(slot_pos(idx as int, old(self).top())),
            final(self)@.space == old(self)@.space,
    {
        proof { self.lemma_view(); }
        let p = self.position(idx).unwrap();
        let _ = self.stack.remove(p);
        proof {
            self.lemma_view();
            assert(self@.stack =~= old(self)@.stack.remove(p as int));
        }
    }

    /// Moves the top element into the given valid index, shifting up the
    /// elements above it.  Pseudo-indices are not valid here.
    pub fn insert(&mut self, idx: i32)
        requires
            old(self).wf(),
            old(self).valid(idx as int, false),
        ensures
            final(self).wf(),
            final(self)@.stack == old(self)@.stack.drop_last().insert(
                slot_pos(idx as int, old(self).top()), old(self)@.stack.last()),
            final(self)@.space == old(self)@.space,
    {
        proof { self.lemma_view(); }
        let p = self.position(idx).unwrap();
        let v = self.stack.pop().unwrap();
        self.stack.insert(p, v);
        proof {
            self.lemma_view();
            assert(self@.stack =~= old(self)@.stack.drop_last().insert(p as int, old(self)@.stack.last()));
        }
    }

    /// Moves the top element into the given valid index without shifting
    /// any element, popping it.  Pseudo-indices name tables that live in the
    /// engine and are not replaced here.
    pub fn replace(&mut self, idx: i32)
        requires
            old(self).wf(),
            old(self).valid(idx as int, false),
        ensures
            final(self).wf(),
            final(self)@.stack == old(self)@.stack.update(
                slot_pos(idx as int, old(self).top()), old(self)@.stack.last()).drop_last(),
            final(self)@.space == old(self)@.space,
    {
        proof { self.lemma_view(); }
        let p = self.position(idx).unwrap();
        let v = self.stack.pop().unwrap();
        if p < self.stack.len() {
            self.stack.set(p, v);
        }
        proof {
            self.lemma_view();
            assert(self@.stack =~= old(self)@.stack.update(p as int, old(self)@.stack.last()).drop_last());
        }
    }

    /// Returns a textual description of the value at the given acceptable
    /// index: "" for an index that holds no value, "nil", "true", "false",
    /// the text of a string ("<invalid utf8>" if it is not UTF-8), the
    /// engine's text of a number, and the type name and address of any
    /// other value.  With `usestack`, a number is converted on a copy pushed
    /// for the purpose, which needs one free slot; without it, the number is
    /// converted in place.
    pub fn describe_(&mut self, idx: i32, usestack: bool) -> (r: String)
        requires
            old(self).wf(),
            old(self).acceptable(idx as int),
            usestack ==> old(self).top() < MAXCSTACK,
        ensures
            final(self).wf(),
            describe_text(type_at(old(self)@.stack, idx as int), value_at(old(self)@.stack, idx as int))
                matches Some(t) ==> r@ == t,
            is_object(type_at(old(self)@.stack, idx as int)) && idx != REGISTRYINDEX ==> exists|p: nat|
                r@ == object_label(type_at(old(self)@.stack, idx as int)->Some_0, p),
            usestack ==> final(self)@.stack == old(self)@.stack,
            usestack ==> final(self)@.space == grown_space(old(self).top(), old(self)@.space, 1),
            !usestack ==> final(self)@.space == old(self)@.space,
            type_at(old(self)@.stack, idx as int) != Some(Type::Number) ==> final(self)@.stack == old(self)@.stack,
    {
        if usestack {
            self.checkstack_(1);
        }
        let t = match self.type_(idx) {
            None => return String::new(),
            Some(t) => t,
        };
        match t {
            Type::Nil => String::from_str("nil"),
            Type::Boolean => {
                if self.toboolean(idx) {
                    String::from_str("true")
                } else {
                    String::from_str("false")
                }
            },
            Type::Number => {
                if usestack {
                    self.pushvalue(idx);
                    let s = self.tostring(-1);
                    self.pop(1);
                    proof {
                        assert(self@.stack =~= old(self)@.stack);
                    }
                    match s {
                        Some(s) => s,
                        None => String::new(),
                    }
                } else {
                    match self.tostring(idx) {
                        Some(s) => s,
                        None => String::new(),
                    }
                }
            },
            Type::String => match self.tostring(idx) {
                Some(s) => s,
                None => String::from_str("<invalid utf8>"),
            },
            _ => {
                let name = t.name();
                let p = match self.fetch(idx) {
                    Some(StackValue::Table(tb)) => pointer_of(&engine_table(&tb)),
                    Some(StackValue::Function(f)) => pointer_of(&engine_function(&f)),
                    Some(StackValue::Other(_, v)) => pointer_of(&v),
                    _ => return String::new(),
                };
                let r = object_text(name, p);
                proof { assert(r@ =~= object_label(t, p as nat)); }
                r
            },
        }
    }

    /// Returns the textual description of the value at the given acceptable
    /// index (see `describe_`), using one free stack slot.
    pub fn describe(&mut self, idx: i32) -> (r: String)
        requires
            old(self).wf(),
            old(self).acceptable(idx as int),
            old(self).top() < MAXCSTACK,
        ensures
            final(self).wf(),
            describe_text(type_at(old(self)@.stack, idx as int), value_at(old(self)@.stack, idx as int))
                matches Some(t) ==> r@ == t,
            is_object(type_at(old(self)@.stack, idx as int)) && idx != REGISTRYINDEX ==> exists|p: nat|
                r@ == object_label(type_at(old(self)@.stack, idx as int)->Some_0, p),
            final(self)@.stack == old(self)@.stack,
            final(self)@.space == grown_space(old(self).top(), old(self)@.space, 1),
    {
        self.describe_(idx, true)
    }
}

/// The kinds that are described by type name and address.
pub open spec fn is_object(t: Option<Type>) -> bool {
    match t {
        Some(Type::Table) | Some(Type::Function) | Some(Type::Userdata) | Some(Type::LightUserdata)
            | Some(Type::Thread) => true,
        _ => false,
    }
}

/// One lower-case hexadecimal digit.
pub open spec fn hex_digit(d: nat) -> char {
    if d == 0 { '0' } else if d == 1 { '1' } else if d == 2 { '2' } else if d == 3 { '3' }
    else if d == 4 { '4' } else if d == 5 { '5' } else if d == 6 { '6' } else if d == 7 { '7' }
    else if d == 8 { '8' } else if d == 9 { '9' } else if d == 10 { 'a' } else if d == 11 { 'b' }
    else if d == 12 { 'c' } else if d == 13 { 'd' } else if d == 14 { 'e' } else { 'f' }
}

/// The lower-case hexadecimal digits of `n`, without leading zeros.
pub open spec fn hex_chars(n: nat) -> Seq<char>
    decreases n,
{
    if n < 16 { seq![hex_digit(n)] } else { hex_chars(n / 16).push(hex_digit(n % 16)) }
}

/// The description of a reference value: `<typename 0xaddress>`.
pub open spec fn object_label(t: Type, p: nat) -> Seq<char> {
    "<"@ + type_label(t) + " 0x"@ + hex_chars(p) + ">"@
}

fn hex_digit_text(d: usize) -> (r: &'static str)
    requires
        d < 16,
    ensures
        r@ == seq![hex_digit(d as nat)],
{
    proof {
        reveal_strlit("0"); reveal_strlit("1"); reveal_strlit("2"); reveal_strlit("3");
        reveal_strlit("4"); reveal_strlit("5"); reveal_strlit("6"); reveal_strlit("7");
        reveal_strlit("8"); reveal_strlit("9"); reveal_strlit("a"); reveal_strlit("b");
        reveal_strlit("c"); reveal_strlit("d"); reveal_strlit("e"); reveal_strlit("f");
    }
    let r = if d == 0 { "0" } else if d == 1 { "1" } else if d == 2 { "2" } else if d == 3 { "3" }
    else if d == 4 { "4" } else if d == 5 { "5" } else if d == 6 { "6" } else if d == 7 { "7" }
    else if d == 8 { "8" } else if d == 9 { "9" } else if d == 10 { "a" } else if d == 11 { "b" }
    else if d == 12 { "c" } else if d == 13 { "d" } else if d == 14 { "e" } else { "f" };
    assert(r@ =~= seq![hex_digit(d as nat)]);
    r
}

/// The lower-case hexadecimal text of `n`.
fn hex_text(n: usize) -> (r: String)
    ensures
        r@ == hex_chars(n as nat),
    decreases n,
{
    if n < 16 {
        String::from_str(hex_digit_text(n))
    } else {
        let mut s = hex_text(n / 16);
        s.append(hex_digit_text(n % 16));
        s
    }
}

/// Renders a reference value as `<name 0xaddress>`.
fn object_text(name: &str, p: usize) -> (r: String)
    ensures
        r@ == "<"@ + name@ + " 0x"@ + hex_chars(p as nat) + ">"@,
{
    let mut s = String::from_str("<");
    s.append(name);
    s.append(" 0x");
    let h = hex_text(p);
    s.append(h.as_str());
    s.append(">");
    s
}

/// The description of a value where it does not depend on the engine:
/// "" for no value, "nil", "true", "false", and the decoded text of a
/// string ("<invalid utf8>" for bytes that are not UTF-8).
pub open spec fn describe_text(t: Option<Type>, m: Option<ValueModel>) -> Option<Seq<char>> {
    match t {
        None => Some(Seq::empty()),
        Some(Type::Nil) => Some("nil"@),
        Some(Type::Boolean) => match m {
            Some(ValueModel::Boolean(b)) => Some(if b { "true"@ } else { "false"@ }),
            _ => None,
        },
        Some(Type::String) => match m {
            Some(ValueModel::Str(b)) => Some(if valid_utf8(b) { decode_utf8(b) } else { "<invalid utf8>"@ }),
            _ => None,
        },
        _ => None,
    }
}

/// Whether `idx` is one of the three named pseudo-indices.
pub(crate) fn is_named(idx: i32) -> (r: bool)
    ensures
        r == is_named_pseudo(idx as int),
{
    idx == REGISTRYINDEX || idx == GLOBALSINDEX || idx == ENVIRONINDEX
}

/// A request for `n` free slots that needed the engine and succeeded sets
/// the stack space to `top + n`; from then on every index from 1 to
/// `top + n` is acceptable, and any request for at most `n` slots above the
/// same top is met from the recorded space without asking the engine.
pub proof fn lemma_grow(top: int, space: int, n: int)
    requires
        0 <= top,
        top + n > space,
        grow_ok(top, space, n),
    ensures
        grown_space(top, space, n) == top + n,
        forall|k: int| 1 <= k <= top + n ==> acceptable_index(k, top, #[trigger] grown_space(top, space, n)),
        forall|m: int| m <= n ==> #[trigger] grown_space(top, grown_space(top, space, n), m) == top + n,
{
}

/// A value pushed onto a stack is what the top index then reads back, with
/// its type: a number keeps its integer value and a string its bytes.
pub proof fn lemma_push_read_back(s: Seq<ValueModel>, m: ValueModel)
    ensures
        value_at(s.push(m), -1) == Some(m),
        type_at(s.push(m), -1) == Some(model_type(m)),
        valid_index(-1, s.len() + 1 as int, false),
{
}

/// Setting the top to 0 empties the stack, and doing it again leaves the
/// same empty stack.
pub proof fn lemma_settop_zero_idempotent(s: Seq<ValueModel>)
    ensures
        settop_model(s, 0) == Seq::<ValueModel>::empty(),
        settop_model(settop_model(s, 0), 0) == settop_model(s, 0),
{
    assert(settop_model(s, 0) =~= Seq::<ValueModel>::empty());
    assert(settop_model(Seq::<ValueModel>::empty(), 0) =~= Seq::<ValueModel>::empty());
}

} // verus!
