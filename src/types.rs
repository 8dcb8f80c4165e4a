//! The engine's value types, its status codes, and the closed enumerations
//! that name them.
use vstd::prelude::*;

verus! {

/// Lua value types.
#[derive(Clone, Copy, PartialEq, Eq, Structural, Debug)]
pub enum Type {
    /// Type for nil
    Nil,
    /// Type for booleans
    Boolean,
    /// Type for light userdata
    LightUserdata,
    /// Type for numbers
    Number,
    /// Type for strings
    String,
    /// Type for tables
    Table,
    /// Type for functions
    Function,
    /// Type for userdata
    Userdata,
    /// Type for threads
    Thread,
}

/// The engine's numeric code of each type.
pub open spec fn type_code(t: Type) -> int {
    match t {
        Type::Nil => 0,
        Type::Boolean => 1,
        Type::LightUserdata => 2,
        Type::Number => 3,
        Type::String => 4,
        Type::Table => 5,
        Type::Function => 6,
        Type::Userdata => 7,
        Type::Thread => 8,
    }
}

/// The engine's display name of each type; both kinds of userdata are
/// named "userdata".
pub open spec fn type_label(t: Type) -> Seq<char> {
    match t {
        Type::Nil => "nil"@,
        Type::Boolean => "boolean"@,
        Type::LightUserdata => "userdata"@,
        Type::Number => "number"@,
        Type::String => "string"@,
        Type::Table => "table"@,
        Type::Function => "function"@,
        Type::Userdata => "userdata"@,
        Type::Thread => "thread"@,
    }
}

/// Name that the engine gives to an absent value (an index with no value).
pub open spec fn none_name() -> Seq<char> {
    "no value"@
}

impl Type {
    /// Returns the name of the type.
    pub fn name(&self) -> (r: &'static str)
        ensures
            r@ == type_label(*self),
    {
        match self {
            Type::Nil => "nil",
            Type::Boolean => "boolean",
            Type::LightUserdata => "userdata",
            Type::Number => "number",
            Type::String => "string",
            Type::Table => "table",
            Type::Function => "function",
            Type::Userdata => "userdata",
            Type::Thread => "thread",
        }
    }

    /// Returns the engine's numeric code of the type.
    pub fn code(&self) -> (r: i32)
        ensures
            r == type_code(*self),
    {
        match self {
            Type::Nil => 0,
            Type::Boolean => 1,
            Type::LightUserdata => 2,
            Type::Number => 3,
            Type::String => 4,
            Type::Table => 5,
            Type::Function => 6,
            Type::Userdata => 7,
            Type::Thread => 8,
        }
    }

    /// Converts a numeric type code into a `Type`; `None` for the code of
    /// an absent value and for unknown codes.
    pub fn from_code(code: i32) -> (r: Option<Type>)
        ensures
            r matches Some(t) ==> type_code(t) == code,
            r is None <==> !(0 <= code <= 8),
    {
        match code {
            0 => Some(Type::Nil),
            1 => Some(Type::Boolean),
            2 => Some(Type::LightUserdata),
            3 => Some(Type::Number),
            4 => Some(Type::String),
            5 => Some(Type::Table),
            6 => Some(Type::Function),
            7 => Some(Type::Userdata),
            8 => Some(Type::Thread),
            _ => None,
        }
    }
}

/// Garbage collection options (used with `State::gc`).
#[derive(Clone, Copy, PartialEq, Eq, Structural, Debug)]
pub enum GC {
    /// Stops the garbage collector
    Stop,
    /// Restarts the garbage collector
    Restart,
    /// Performs a full garbage-collection cycle
    Collect,
    /// Returns the current amount of memory (in Kbytes) in use by Lua
    Count,
    /// Returns the remainder of dividing the current amount of bytes in
    /// memory in use by Lua by 1024
    CountB,
    /// Performs an incremental step of garbage collection; returns 1 if the
    /// step finished a cycle
    Step,
    /// Sets `data` as the new value for the pause of the collector
    SetPause,
    /// Sets `data` as the new value for the step multiplier of the collector
    SetStepMul,
}

/// `State::load` errors.
#[derive(Clone, Copy, PartialEq, Eq, Structural, Debug)]
pub enum LoadError {
    /// Syntax error during pre-compilation
    ErrSyntax,
    /// Memory allocation error
    ErrMem,
}

/// `State::loadfile` errors.
#[derive(Clone, Copy, PartialEq, Eq, Structural, Debug)]
pub enum LoadFileError {
    /// Syntax error during pre-compilation
    ErrSyntax,
    /// Memory allocation error
    ErrMem,
    /// Cannot read/open the file
    ErrFile,
}

/// `State::pcall` errors.
#[derive(Clone, Copy, PartialEq, Eq, Structural, Debug)]
pub enum PCallError {
    /// Runtime error
    ErrRun,
    /// Memory allocation error
    ErrMem,
    /// Error while running the error handler function
    ErrErr,
}

/// Status codes of the engine for a failed call.
pub const ERRRUN: i32 = 2;
/// Status code of a syntax error.
pub const ERRSYNTAX: i32 = 3;
/// Status code of a memory allocation error.
pub const ERRMEM: i32 = 4;
/// Status code of an error in the error handler.
pub const ERRERR: i32 = 5;
/// Status code of a file that cannot be read.
pub const ERRFILE: i32 = 6;

/// The status code that a protected-call error stands for.
pub open spec fn pcall_code(e: PCallError) -> int {
    match e {
        PCallError::ErrRun => ERRRUN as int,
        PCallError::ErrMem => ERRMEM as int,
        PCallError::ErrErr => ERRERR as int,
    }
}

impl PCallError {
    /// Converts an error code from a protected call into a `PCallError`.
    pub fn from_code(code: i32) -> (r: Option<PCallError>)
        ensures
            r matches Some(e) ==> pcall_code(e) == code,
            r is None <==> (code != ERRRUN && code != ERRMEM && code != ERRERR),
    {
        match code {
            ERRRUN => Some(PCallError::ErrRun),
            ERRMEM => Some(PCallError::ErrMem),
            ERRERR => Some(PCallError::ErrErr),
            _ => None,
        }
    }

    /// A short description of the error.
    pub fn describe(&self) -> (r: &'static str)
        ensures
            r@ == match *self {
                PCallError::ErrRun => "runtime error"@,
                PCallError::ErrMem => "memory allocation error"@,
                PCallError::ErrErr => "error handler func error"@,
            },
    {
        match self {
            PCallError::ErrRun => "runtime error",
            PCallError::ErrMem => "memory allocation error",
            PCallError::ErrErr => "error handler func error",
        }
    }
}

impl LoadError {
    /// A short description of the error.
    pub fn describe(&self) -> (r: &'static str)
        ensures
            r@ == match *self {
                LoadError::ErrSyntax => "syntax error"@,
                LoadError::ErrMem => "memory allocation error"@,
            },
    {
        match self {
            LoadError::ErrSyntax => "syntax error",
            LoadError::ErrMem => "memory allocation error",
        }
    }
}

impl LoadFileError {
    /// A short description of the error.
    pub fn describe(&self) -> (r: &'static str)
        ensures
            r@ == match *self {
                LoadFileError::ErrSyntax => "syntax error"@,
                LoadFileError::ErrMem => "memory allocation error"@,
                LoadFileError::ErrFile => "file read/open error"@,
            },
    {
        match self {
            LoadFileError::ErrSyntax => "syntax error",
            LoadFileError::ErrMem => "memory allocation error",
            LoadFileError::ErrFile => "file read/open error",
        }
    }
}

/// Debug hook event codes.
#[derive(Clone, Copy, PartialEq, Eq, Structural, Debug)]
pub enum DebugEvent {
    /// The interpreter calls a function
    HookCall,
    /// The interpreter returns from a function
    HookRet,
    /// The interpreter is about to start the execution of a new line
    HookLine,
    /// The interpreter executed `count` instructions
    HookCount,
    /// A return simulated for a function that did a tail call
    HookTailRet,
}

/// The engine's numeric code of each hook event.
pub open spec fn event_code(e: DebugEvent) -> int {
    match e {
        DebugEvent::HookCall => 0,
        DebugEvent::HookRet => 1,
        DebugEvent::HookLine => 2,
        DebugEvent::HookCount => 3,
        DebugEvent::HookTailRet => 4,
    }
}

/// Event mask for `HookCall`.
pub const MASKCALL: i32 = 1;
/// Event mask for `HookRet`.
pub const MASKRET: i32 = 2;
/// Event mask for `HookLine`.
pub const MASKLINE: i32 = 4;
/// Event mask for `HookCount`.
pub const MASKCOUNT: i32 = 8;

impl DebugEvent {
    /// Converts an event code into a `DebugEvent`.
    pub fn from_event(event: i32) -> (r: Option<DebugEvent>)
        ensures
            r matches Some(e) ==> event_code(e) == event,
            r is None <==> !(0 <= event <= 4),
    {
        match event {
            0 => Some(DebugEvent::HookCall),
            1 => Some(DebugEvent::HookRet),
            2 => Some(DebugEvent::HookLine),
            3 => Some(DebugEvent::HookCount),
            4 => Some(DebugEvent::HookTailRet),
            _ => None,
        }
    }
}

} // verus!
