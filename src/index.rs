//! Classification of stack positions: absolute indices, indices relative to
//! the top, and the pseudo-indices that name the registry, the globals table,
//! the running function's environment and upvalues.
use vstd::prelude::*;

verus! {

/// Pseudo-index for the registry.
pub const REGISTRYINDEX: i32 = -10000;

/// Pseudo-index for the running C function environment.
pub const ENVIRONINDEX: i32 = -10001;

/// Pseudo-index for the thread environment (the globals table).
pub const GLOBALSINDEX: i32 = -10002;

/// Value for `call` and `pcall` that means "return all results".
pub const MULTRET: i32 = -1;

/// Minimum stack space available to a C function.
pub const MINSTACK: i32 = 20;

/// Largest number of slots that a stack can hold.
pub const MAXCSTACK: i32 = 8000;

/// Largest upvalue number that an upvalue pseudo-index may decode to.
pub const MAXUPVALUES: i32 = 256;

/// One of the three named pseudo-indices.
pub open spec fn is_named_pseudo(idx: int) -> bool {
    idx == REGISTRYINDEX || idx == GLOBALSINDEX || idx == ENVIRONINDEX
}

/// Any pseudo-index: a named one or an upvalue reference below the globals
/// pseudo-index.
pub open spec fn is_pseudo(idx: int) -> bool {
    is_named_pseudo(idx) || idx < GLOBALSINDEX
}

/// The upvalue number that an index below the globals pseudo-index encodes.
pub open spec fn upvalue_of(idx: int) -> int {
    GLOBALSINDEX - idx
}

/// Absolute value on mathematical integers.
pub open spec fn abs(i: int) -> int {
    if i < 0 { -i } else { i }
}

/// A valid index refers to a live value (within `top`), or is a permitted
/// pseudo-index; an upvalue pseudo-index must decode into [1, 256].
pub open spec fn valid_index(idx: int, top: int, allow_pseudo: bool) -> bool {
    if idx == 0 {
        false
    } else if is_named_pseudo(idx) {
        allow_pseudo
    } else if idx < GLOBALSINDEX {
        allow_pseudo && upvalue_of(idx) <= MAXUPVALUES
    } else {
        abs(idx) <= top
    }
}

/// An acceptable index lies within the reserved stack space when positive,
/// and is valid (pseudo-indices allowed) when negative.  Zero is never
/// acceptable.
pub open spec fn acceptable_index(idx: int, top: int, space: int) -> bool {
    if idx > 0 {
        idx <= space
    } else if idx < 0 {
        valid_index(idx, top, true)
    } else {
        false
    }
}

/// Decides whether `idx` is an acceptable index for a stack whose top is
/// `top` and whose reserved space is `space`.
pub fn check_acceptable(idx: i32, top: i32, space: i32) -> (r: bool)
    ensures
        r == acceptable_index(idx as int, top as int, space as int),
{
    if idx > 0 {
        idx <= space
    } else if idx < 0 {
        check_valid(idx, top, true)
    } else {
        false
    }
}

/// Decides whether `idx` is a valid index for a stack whose top is `top`;
/// pseudo-indices count only when `allow_pseudo` is set.
pub fn check_valid(idx: i32, top: i32, allow_pseudo: bool) -> (r: bool)
    ensures
        r == valid_index(idx as int, top as int, allow_pseudo),
{
    if idx == 0 {
        false
    } else if idx == GLOBALSINDEX || idx == REGISTRYINDEX || idx == ENVIRONINDEX {
        allow_pseudo
    } else if idx < GLOBALSINDEX {
        // the liveness of an upvalue cannot be confirmed here: only its range
        allow_pseudo && GLOBALSINDEX - idx <= MAXUPVALUES
    } else if idx < 0 {
        -idx <= top
    } else {
        idx <= top
    }
}

/// Calculates the pseudo-index for the upvalue number `n`.
pub fn lua_upvalueindex(n: i32) -> (r: i32)
    requires
        GLOBALSINDEX - n >= i32::MIN,
        GLOBALSINDEX - n <= i32::MAX,
    ensures
        r == GLOBALSINDEX - n,
{
    GLOBALSINDEX - n
}

/// Calculates the pseudo-index for the upvalue at the given index. Any index
/// in the range [1, 256] produces an acceptable index.
pub fn upvalueindex(n: i32) -> (r: i32)
    requires
        GLOBALSINDEX - n >= i32::MIN,
        GLOBALSINDEX - n <= i32::MAX,
    ensures
        r == GLOBALSINDEX - n,
        1 <= n <= MAXUPVALUES ==> upvalue_of(r as int) == n && valid_index(r as int, 0, true),
{
    lua_upvalueindex(n)
}

/// Extra slots that a call with `nargs` arguments and `nresults` results
/// needs beyond what the function and its arguments occupy:
/// `max(0, nresults - nargs - 1)`.
pub open spec fn call_reserve(nargs: int, nresults: int) -> int {
    if nresults > nargs + 1 { nresults - nargs - 1 } else { 0 }
}

/// Computes `call_reserve` for machine integers.
pub fn call_extra(nargs: i32, nresults: i32) -> (r: i32)
    requires
        0 <= nargs,
        MULTRET <= nresults <= MAXCSTACK,
    ensures
        r == call_reserve(nargs as int, nresults as int),
{
    if nresults - 1 > nargs {
        nresults - 1 - nargs
    } else {
        0
    }
}

/// A positive index is acceptable exactly when it lies within the reserved
/// space, whatever the current top.
pub proof fn lemma_positive_acceptable(i: int, top: int, space: int)
    requires
        i > 0,
    ensures
        acceptable_index(i, top, space) <==> i <= space,
        forall|t: int| acceptable_index(i, t, space) == acceptable_index(i, top, space),
{
}

/// A negative index that is not a pseudo-index is acceptable exactly when
/// its absolute value is at most the current top.
pub proof fn lemma_negative_acceptable(i: int, top: int, space: int)
    requires
        i < 0,
        !is_pseudo(i),
    ensures
        acceptable_index(i, top, space) <==> abs(i) <= top,
{
}

/// Index zero is never valid, whatever the state and whether pseudo-indices
/// are allowed.
pub proof fn lemma_zero_never_valid(top: int, allow_pseudo: bool)
    ensures
        !valid_index(0, top, allow_pseudo),
        !acceptable_index(0, top, top),
{
}

} // verus!
