//! The engine itself, reached through the `mlua` crate.  Every item here is
//! trusted: its contract states what the crate's source shows.
//!
//! mlua panics when it is handed a handle (table, function, string, thread)
//! of another engine.  The library keeps that from happening by
//! construction: handles enter a stack only from calls on that stack's own
//! engine (or one shared with it by `newthread` and native calls), no public
//! operation takes a handle from its caller, and `xmove` checks
//! `same_engine` before it moves anything.  Every handle handed to the items
//! below therefore belongs to the engine of the state that hands it.
use vstd::prelude::*;

use crate::types::Type;
use crate::native::run_native;
use crate::state::State;
use crate::value::StackValue;

verus! {

#[verifier::external_type_specification]
#[verifier::external_body]
pub struct ExLua(mlua::Lua);

#[verifier::external_type_specification]
#[verifier::external_body]
pub struct ExEngineValue(mlua::Value);

#[verifier::external_type_specification]
#[verifier::external_body]
pub struct ExEngineError(mlua::Error);

#[verifier::external_type_specification]
#[verifier::external_body]
pub struct ExTable(mlua::Table);

#[verifier::external_type_specification]
#[verifier::external_body]
pub struct ExFunction(mlua::Function);

#[verifier::external_type_specification]
#[verifier::external_body]
pub struct ExThread(mlua::Thread);

/// Where a coroutine stands.
#[derive(Clone, Copy, PartialEq, Eq, Structural, Debug)]
pub enum CoStatus {
    /// Created or suspended: it can be resumed
    Resumable,
    /// Running, or resuming another coroutine
    Active,
    /// Its body returned
    Finished,
    /// Its body raised an error
    Failed,
}

/// The standard libraries that can be opened besides the base library.
#[derive(Clone, Copy, PartialEq, Eq, Structural, Debug)]
pub enum Lib {
    Table,
    Io,
    Os,
    String,
    Math,
    Debug,
    Package,
}

/// How the engine classifies a failure.
#[derive(Clone, Copy, PartialEq, Eq, Structural, Debug)]
pub enum Failure {
    /// A syntax error while compiling a chunk
    Syntax,
    /// A runtime error raised by a chunk or a function
    Runtime,
    /// A memory allocation error
    Memory,
    /// A refusal or a fault of the binding itself
    Other,
}

/// Relies on `mlua::Lua::new_with`: a fresh engine that has loaded only the
/// base library.  `new_with` fails only when asked for the debug or ffi
/// library, so the fallback to `Lua::new` (which would load the safe
/// libraries as well) is never taken.
#[verifier::external_body]
pub fn new_engine() -> (r: mlua::Lua) {
    match mlua::Lua::new_with(mlua::StdLib::NONE, mlua::LuaOptions::default()) {
        Ok(lua) => lua,
        Err(_) => mlua::Lua::new(),
    }
}

/// Relies on `mlua::Lua::load_std_libs`: loads one standard library into
/// the engine, or reports why it did not.
#[verifier::external_body]
pub fn load_lib(lua: &mlua::Lua, lib: Lib) -> (r: Result<(), mlua::Error>) {
    let flag = match lib {
        Lib::Table => mlua::StdLib::TABLE,
        Lib::Io => mlua::StdLib::IO,
        Lib::Os => mlua::StdLib::OS,
        Lib::String => mlua::StdLib::STRING,
        Lib::Math => mlua::StdLib::MATH,
        Lib::Debug => mlua::StdLib::DEBUG,
        Lib::Package => mlua::StdLib::PACKAGE,
    };
    lua.load_std_libs(flag)
}

/// Relies on `mlua::Lua::globals`: the table of global variables.
#[verifier::external_body]
pub fn globals(lua: &mlua::Lua) -> (r: mlua::Table) {
    lua.globals()
}

/// Relies on `mlua::Lua::create_table`: a new empty table.
#[verifier::external_body]
pub fn create_table(lua: &mlua::Lua, narr: usize, nrec: usize) -> (r: Result<mlua::Table, mlua::Error>) {
    lua.create_table_with_capacity(narr, nrec)
}

/// Relies on `mlua::Lua::create_string`: an engine string holding exactly
/// the given bytes.
#[verifier::external_body]
pub fn create_string(lua: &mlua::Lua, b: &[u8]) -> (r: Result<mlua::Value, mlua::Error>) {
    lua.create_string(b).map(mlua::Value::String)
}

/// Relies on the variants of `mlua::Value`: each value is sorted by its kind,
/// and strings are copied out byte for byte.
#[verifier::external_body]
pub fn sort_value(v: mlua::Value) -> (r: StackValue)
    ensures
        r.wf(),
{
    match v {
        mlua::Value::Nil => StackValue::Nil,
        mlua::Value::Boolean(b) => StackValue::Boolean(b),
        mlua::Value::Integer(i) => StackValue::Integer(i),
        mlua::Value::String(s) => StackValue::Str(s.as_bytes().to_vec()),
        mlua::Value::Table(t) => StackValue::Table(t),
        mlua::Value::Function(f) => StackValue::Function(f),
        v @ mlua::Value::Number(_) => StackValue::Other(Type::Number, v),
        v @ mlua::Value::LightUserData(_) => StackValue::Other(Type::LightUserdata, v),
        v @ mlua::Value::Thread(_) => StackValue::Other(Type::Thread, v),
        v => StackValue::Other(Type::Userdata, v),
    }
}

/// Relies on the variants of `mlua::Value`: nil, booleans and integers
/// become the engine's values of the same content.
#[verifier::external_body]
pub fn engine_nil() -> (r: mlua::Value) {
    mlua::Value::Nil
}

/// Relies on `mlua::Value::Boolean`.
#[verifier::external_body]
pub fn engine_boolean(b: bool) -> (r: mlua::Value) {
    mlua::Value::Boolean(b)
}

/// Relies on `mlua::Value::Integer`.
#[verifier::external_body]
pub fn engine_integer(i: i64) -> (r: mlua::Value) {
    mlua::Value::Integer(i)
}

/// Relies on `mlua::Value::Table`.
#[verifier::external_body]
pub fn engine_table(t: &mlua::Table) -> (r: mlua::Value) {
    mlua::Value::Table(t.clone())
}

/// Relies on `mlua::Value::Function`.
#[verifier::external_body]
pub fn engine_function(f: &mlua::Function) -> (r: mlua::Value) {
    mlua::Value::Function(f.clone())
}

/// Relies on `Clone for mlua::Value`: a clone refers to the same engine
/// value.
#[verifier::external_body]
pub fn clone_value(v: &mlua::Value) -> (r: mlua::Value)
    ensures
        r == *v,
{
    v.clone()
}

/// Relies on `Clone for mlua::Table`: a clone refers to the same table.
#[verifier::external_body]
pub fn clone_table(t: &mlua::Table) -> (r: mlua::Table)
    ensures
        r == *t,
{
    t.clone()
}

/// Relies on `Clone for mlua::Function`: a clone refers to the same
/// function.
#[verifier::external_body]
pub fn clone_function(f: &mlua::Function) -> (r: mlua::Function)
    ensures
        r == *f,
{
    f.clone()
}

/// Relies on `mlua::Table::get`: reads `t[k]`, metamethods included.
#[verifier::external_body]
pub fn table_get(t: &mlua::Table, k: mlua::Value) -> (r: Result<mlua::Value, mlua::Error>) {
    t.get(k)
}

/// Relies on `mlua::Table::set`: performs `t[k] = v`, metamethods included.
#[verifier::external_body]
pub fn table_set(t: &mlua::Table, k: mlua::Value, v: mlua::Value) -> (r: Result<(), mlua::Error>) {
    t.set(k, v)
}

/// Whether a chunk compiles: a matter of its source alone.
pub uninterp spec fn compiles(src: Seq<u8>) -> bool;

/// Relies on `mlua::Lua::load` and `mlua::Chunk::into_function`: compiles
/// a chunk under the given name without running it; a chunk that does not
/// compile is refused.
#[verifier::external_body]
pub fn load_chunk(lua: &mlua::Lua, src: &[u8], name: &str) -> (r: Result<mlua::Function, mlua::Error>)
    ensures
        r is Ok ==> compiles(src@),
        !compiles(src@) ==> r is Err,
{
    lua.load(src).set_name(name).into_function()
}

/// Relies on `mlua::Function::call`: calls the function with the arguments
/// in order and hands back every result in order.
#[verifier::external_body]
pub fn call_function(f: &mlua::Function, args: Vec<mlua::Value>) -> (r: Result<Vec<mlua::Value>, mlua::Error>) {
    f.call::<mlua::MultiValue>(mlua::MultiValue::from_vec(args)).map(|m| m.into_vec())
}

/// Relies on `mlua::Lua::coerce_string`: the engine's text for a number,
/// or `None` where the value has none.
#[verifier::external_body]
pub fn coerce_text(lua: &mlua::Lua, v: mlua::Value) -> (r: Result<Option<Vec<u8>>, mlua::Error>) {
    lua.coerce_string(v).map(|o| o.map(|s| s.as_bytes().to_vec()))
}

/// Relies on `mlua::Lua::coerce_integer`: the engine's integer for a number
/// or a numeric string, or `None` where there is none.
#[verifier::external_body]
pub fn coerce_integer(lua: &mlua::Lua, v: mlua::Value) -> (r: Result<Option<i64>, mlua::Error>) {
    lua.coerce_integer(v)
}

/// Relies on the variants of `mlua::Error`: the kind of a failure and the
/// message that the engine gave with it.
#[verifier::external_body]
pub fn failure_of(e: &mlua::Error) -> (r: (Failure, Vec<u8>)) {
    match e {
        mlua::Error::SyntaxError { message, .. } => (Failure::Syntax, message.as_bytes().to_vec()),
        mlua::Error::RuntimeError(m) => (Failure::Runtime, m.as_bytes().to_vec()),
        mlua::Error::MemoryError(m) => (Failure::Memory, m.as_bytes().to_vec()),
        other => (Failure::Other, other.to_string().into_bytes()),
    }
}

/// Relies on `mlua::Lua::inspect_stack`: whether a function runs at the
/// given level of the call stack.
#[verifier::external_body]
pub fn has_stack_level(lua: &mlua::Lua, level: usize) -> (r: bool) {
    lua.inspect_stack(level, |_| ()).is_some()
}

/// Relies on `mlua::Value::to_pointer`: the address at which the engine
/// keeps a reference value.
#[verifier::external_body]
pub fn pointer_of(v: &mlua::Value) -> (r: usize) {
    v.to_pointer() as usize
}

/// Relies on `mlua::Lua::named_registry_value`: reads the registry entry
/// of the given name (nil where there is none).
#[verifier::external_body]
pub fn registry_get(lua: &mlua::Lua, key: &str) -> (r: Result<mlua::Value, mlua::Error>) {
    lua.named_registry_value::<mlua::Value>(key)
}

/// Relies on `mlua::Lua::set_named_registry_value`: sets the registry entry
/// of the given name.
#[verifier::external_body]
pub fn registry_set(lua: &mlua::Lua, key: &str, v: mlua::Value) -> (r: Result<(), mlua::Error>) {
    lua.set_named_registry_value(key, v)
}

/// Relies on `Clone for mlua::Lua`: a second handle on the same engine.
#[verifier::external_body]
pub fn share_engine(lua: &mlua::Lua) -> (r: mlua::Lua)
    ensures
        r == *lua,
{
    lua.clone()
}

/// Relies on `mlua::Error::runtime`: a runtime error carrying the message.
#[verifier::external_body]
pub fn runtime_error(msg: &str) -> (r: mlua::Error) {
    mlua::Error::runtime(msg)
}

/// Relies on `mlua::Lua::create_function`: an engine function that, when
/// called, hands its arguments to `run_native` with `f` and returns what
/// that returns.
#[verifier::external_body]
pub fn create_native<F: Fn(&mut State) -> i32 + 'static>(lua: &mlua::Lua, f: F) -> (r: Result<mlua::Function, mlua::Error>)
    requires
        forall|s: &mut State| #[trigger] f.requires((s,)),
{
    lua.create_function(move |lua, args: mlua::MultiValue| {
        run_native(lua, &f, args.into_vec()).map(mlua::MultiValue::from_vec)
    })
}

/// Relies on `mlua::Lua::create_thread`: a new coroutine whose body is `f`.
#[verifier::external_body]
pub fn create_thread(lua: &mlua::Lua, f: &mlua::Function) -> (r: Result<mlua::Thread, mlua::Error>) {
    lua.create_thread(f.clone())
}

/// Relies on `mlua::Thread::resume`: runs the coroutine until it yields or
/// returns, handing it the arguments in order; gives back the yielded or
/// returned values in order.
#[verifier::external_body]
pub fn resume_thread(t: &mlua::Thread, args: Vec<mlua::Value>) -> (r: Result<Vec<mlua::Value>, mlua::Error>) {
    t.resume::<mlua::MultiValue>(mlua::MultiValue::from_vec(args)).map(|m| m.into_vec())
}

/// Relies on `Clone for mlua::Thread`: a clone refers to the same
/// coroutine.
#[verifier::external_body]
pub fn clone_thread(t: &mlua::Thread) -> (r: mlua::Thread)
    ensures
        r == *t,
{
    t.clone()
}

/// Relies on `mlua::Thread::status`: where the coroutine stands.
#[verifier::external_body]
pub fn thread_status(t: &mlua::Thread) -> (r: CoStatus) {
    match t.status() {
        mlua::thread::ThreadStatus::Resumable => CoStatus::Resumable,
        mlua::thread::ThreadStatus::Running => CoStatus::Active,
        mlua::thread::ThreadStatus::Normal => CoStatus::Active,
        mlua::thread::ThreadStatus::Finished => CoStatus::Finished,
        mlua::thread::ThreadStatus::Error => CoStatus::Failed,
    }
}

/// Relies on `PartialEq for mlua::Value`: primitive equality, without
/// metamethods; reference values are equal when they are the same object.
#[verifier::external_body]
pub fn raw_equal(a: &mlua::Value, b: &mlua::Value) -> (r: bool) {
    a == b
}

/// Relies on `mlua::Lua::gc_collect`: a full collection cycle.
#[verifier::external_body]
pub fn gc_collect(lua: &mlua::Lua) -> (r: Result<(), mlua::Error>) {
    lua.gc_collect()
}

/// Relies on `mlua::Lua::gc_stop`: stops the collector.
#[verifier::external_body]
pub fn gc_stop(lua: &mlua::Lua) {
    lua.gc_stop()
}

/// Relies on `mlua::Lua::gc_restart`: restarts the collector.
#[verifier::external_body]
pub fn gc_restart(lua: &mlua::Lua) {
    lua.gc_restart()
}

/// Relies on `mlua::Lua::gc_step`: one incremental step; `true` when it
/// finished a cycle.
#[verifier::external_body]
pub fn gc_step(lua: &mlua::Lua) -> (r: Result<bool, mlua::Error>) {
    lua.gc_step()
}

/// Relies on `mlua::Lua::used_memory`: the bytes the engine has in use.
#[verifier::external_body]
pub fn used_memory(lua: &mlua::Lua) -> (r: usize) {
    lua.used_memory()
}

/// Relies on `mlua::Lua::gc_set_mode` with incremental parameters: sets
/// the pause and the step multiplier that are given, keeps the others.
#[verifier::external_body]
pub fn gc_tune(lua: &mlua::Lua, pause: Option<i32>, stepmul: Option<i32>) {
    let mut params = mlua::state::GcIncParams::default();
    params.pause = pause;
    params.step_multiplier = stepmul;
    let _ = lua.gc_set_mode(mlua::state::GcMode::Incremental(params));
}

/// Relies on `mlua::Lua::coerce_number`: whether the engine reads the
/// value as a number (a number, or a string convertible to one).
#[verifier::external_body]
pub fn is_numeric(lua: &mlua::Lua, v: mlua::Value) -> (r: Result<bool, mlua::Error>) {
    lua.coerce_number(v).map(|o| o.is_some())
}

/// Relies on `mlua::Table::raw_len`: the length of the table, without
/// metamethods.
#[verifier::external_body]
pub fn table_len(t: &mlua::Table) -> (r: usize) {
    t.raw_len()
}

/// Relies on `mlua::Lua::weak` and `PartialEq for mlua::WeakLua`: whether
/// two handles are on the same engine.
#[verifier::external_body]
pub fn same_engine(a: &mlua::Lua, b: &mlua::Lua) -> (r: bool)
    ensures
        *a == *b ==> r,
{
    a.weak() == b.weak()
}

/// Relies on `mlua::Table::raw_get`: reads `t[k]` without metamethods.
#[verifier::external_body]
pub fn table_raw_get(t: &mlua::Table, k: mlua::Value) -> (r: Result<mlua::Value, mlua::Error>) {
    t.raw_get(k)
}

/// Relies on `mlua::Table::raw_set`: performs `t[k] = v` without
/// metamethods.
#[verifier::external_body]
pub fn table_raw_set(t: &mlua::Table, k: mlua::Value, v: mlua::Value) -> (r: Result<(), mlua::Error>) {
    t.raw_set(k, v)
}

/// Relies on `mlua::Table::metatable`: the metatable of the table, if it
/// has one.
#[verifier::external_body]
pub fn table_metatable(t: &mlua::Table) -> (r: Option<mlua::Table>) {
    t.metatable()
}

/// Relies on `mlua::Table::set_metatable`: sets or removes the table's
/// metatable.
#[verifier::external_body]
pub fn table_set_metatable(t: &mlua::Table, mt: Option<mlua::Table>) -> (r: Result<(), mlua::Error>) {
    t.set_metatable(mt)
}

} // verus!
