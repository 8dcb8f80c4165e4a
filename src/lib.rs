//! Checked access to the value stack of an embedded Lua 5.1 engine.
//!
//! A `State` owns an engine and a stack of values.  Every operation states
//! which indices it accepts and how much stack room it needs; the index
//! classification and the stack-space accounting are proved, and the engine
//! is reached only through the trusted items of the `engine` module.
use vstd::prelude::*;

pub mod index;
pub mod types;
mod engine;
pub mod value;
pub mod state;
pub mod calls;
pub mod aux;
pub mod buffer;
pub mod debug;
pub mod native;
pub mod thread;
pub mod raw;

pub use aux::{find_option, replace_bytes};
pub use buffer::{BUFFERSIZE, Buffer};
pub use index::{
    ENVIRONINDEX, GLOBALSINDEX, MAXCSTACK, MINSTACK, MULTRET, REGISTRYINDEX, check_acceptable,
    check_valid, lua_upvalueindex, upvalueindex,
};
pub use raw::RawState;
pub use state::State;
pub use types::{
    DebugEvent, GC, LoadError, LoadFileError, MASKCALL, MASKCOUNT, MASKLINE, MASKRET, PCallError,
    Type,
};
pub use value::StackValue;

verus! {

} // verus!
