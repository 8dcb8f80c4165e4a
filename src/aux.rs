//! Helpers for native functions: argument checks, option lookup, string
//! substitution and the registry of named metatables.
use vstd::prelude::*;
use vstd::string::StringSliceAdditionalSpecFns;
use vstd::utf8::{decode_utf8, valid_utf8};

use crate::calls::no_nul;
use crate::engine::{clone_value, coerce_integer, create_string};
use crate::index::{MAXCSTACK, REGISTRYINDEX};
use crate::state::{State, grown_space, is_named, slot_pos, type_at, value_at};
use crate::types::{PCallError, Type};
use crate::value::{StackValue, ValueModel, append_bytes, decode_text};

verus! {

/// `s` with every occurrence of the non-empty `p` replaced by `r`, scanning
/// from the left and resuming after each replaced occurrence.
pub open spec fn replace_all(s: Seq<u8>, p: Seq<u8>, r: Seq<u8>) -> Seq<u8>
    decreases s.len(),
{
    if p.len() == 0 || s.len() < p.len() {
        s
    } else if s.subrange(0, p.len() as int) == p {
        r + replace_all(s.subrange(p.len() as int, s.len() as int), p, r)
    } else {
        seq![s[0]] + replace_all(s.subrange(1, s.len() as int), p, r)
    }
}

/// Whether `p` occurs in `s` at position `i`.
fn occurs_at(s: &[u8], p: &[u8], i: usize) -> (r: bool)
    requires
        i + p@.len() <= s@.len(),
    ensures
        r == (s@.subrange(i as int, i + p@.len()) == p@),
{
    let mut j: usize = 0;
    while j < p.len()
        invariant
            j <= p@.len(),
            i + p@.len() <= s@.len(),
            s@.len() == s.len(),
            forall|k: int| 0 <= k < j ==> s@[i + k] == p@[k],
        decreases p@.len() - j,
    {
        if s[i + j] != p[j] {
            assert(s@.subrange(i as int, i + p@.len())[j as int] != p@[j as int]);
            return false;
        }
        j = j + 1;
    }
    assert(s@.subrange(i as int, i + p@.len()) =~= p@);
    true
}

/// Replaces every occurrence of the non-empty `p` in `s` by `r`
/// (see `replace_all`).
pub fn replace_bytes(s: &[u8], p: &[u8], r: &[u8]) -> (out: Vec<u8>)
    requires
        p@.len() > 0,
    ensures
        out@ == replace_all(s@, p@, r@),
{
    let mut out: Vec<u8> = Vec::new();
    let mut i: usize = 0;
    proof {
        assert(s@.subrange(0, s@.len() as int) =~= s@);
        assert(out@ + s@ =~= s@);
    }
    while i < s.len()
        invariant
            i <= s@.len(),
            p@.len() > 0,
            out@ + replace_all(s@.subrange(i as int, s@.len() as int), p@, r@) == replace_all(s@, p@, r@),
        decreases s@.len() - i,
    {
        let ghost rest = s@.subrange(i as int, s@.len() as int);
        if s.len() - i >= p.len() && occurs_at(s, p, i) {
            proof {
                assert(rest.subrange(0, p@.len() as int) =~= s@.subrange(i as int, i + p@.len()));
                assert(rest.subrange(p@.len() as int, rest.len() as int)
                    =~= s@.subrange(i + p@.len(), s@.len() as int));
            }
            let ghost before = out@;
            append_bytes(&mut out, r);
            i = i + p.len();
            proof {
                assert(before + (r@ + replace_all(s@.subrange(i as int, s@.len() as int), p@, r@))
                    =~= out@ + replace_all(s@.subrange(i as int, s@.len() as int), p@, r@));
            }
        } else {
            proof {
                if rest.len() >= p@.len() {
                    assert(rest.subrange(0, p@.len() as int) =~= s@.subrange(i as int, i + p@.len()));
                    assert(rest.subrange(1, rest.len() as int) =~= s@.subrange(i + 1, s@.len() as int));
                    assert(replace_all(rest, p@, r@) == seq![s@[i as int]] + replace_all(
                        s@.subrange(i + 1, s@.len() as int), p@, r@));
                }
            }
            let ghost before = out@;
            out.push(s[i]);
            i = i + 1;
            proof {
                if rest.len() >= p@.len() {
                    assert(before + (seq![s@[i - 1]] + replace_all(s@.subrange(i as int, s@.len() as int), p@, r@))
                        =~= out@ + replace_all(s@.subrange(i as int, s@.len() as int), p@, r@));
                } else {
                    // fewer bytes left than the pattern: the rest is copied
                    assert(replace_all(rest, p@, r@) == rest);
                    assert(replace_all(s@.subrange(i as int, s@.len() as int), p@, r@)
                        == s@.subrange(i as int, s@.len() as int));
                    assert(before + rest =~= out@ + s@.subrange(i as int, s@.len() as int));
                }
            }
        }
    }
    proof {
        assert(s@.subrange(s@.len() as int, s@.len() as int) =~= Seq::<u8>::empty());
        assert(out@ + Seq::<u8>::empty() =~= out@);
    }
    out
}

/// The first position in `keys` that holds `name`.
pub open spec fn first_index(keys: Seq<Seq<u8>>, name: Seq<u8>) -> Option<int>
    decreases keys.len(),
{
    if keys.len() == 0 {
        None
    } else if keys[0] == name {
        Some(0)
    } else {
        match first_index(keys.subrange(1, keys.len() as int), name) {
            Some(i) => Some(i + 1),
            None => None,
        }
    }
}

/// The option names of a list of (name, value) pairs, as bytes.
pub open spec fn option_keys<T>(lst: Seq<(&str, T)>) -> Seq<Seq<u8>> {
    lst.map_values(|e: (&str, T)| e.0.spec_bytes())
}

/// Whether two byte slices are equal.
pub(crate) fn same_bytes(a: &[u8], b: &[u8]) -> (r: bool)
    ensures
        r == (a@ == b@),
{
    if a.len() != b.len() {
        return false;
    }
    let mut i: usize = 0;
    while i < a.len()
        invariant
            i <= a@.len(),
            a@.len() == b@.len(),
            forall|k: int| 0 <= k < i ==> a@[k] == b@[k],
        decreases a@.len() - i,
    {
        if a[i] != b[i] {
            return false;
        }
        i = i + 1;
    }
    assert(a@ =~= b@);
    true
}

proof fn lemma_first_index_step(keys: Seq<Seq<u8>>, name: Seq<u8>, i: int)
    requires
        0 <= i < keys.len(),
        forall|k: int| 0 <= k < i ==> keys[k] != name,
    ensures
        first_index(keys, name) == match first_index(keys.subrange(i, keys.len() as int), name) {
            Some(j) => Some(j + i),
            None => None,
        },
    decreases i,
{
    if i > 0 {
        let tail = keys.subrange(1, keys.len() as int);
        assert(keys[0] != name);
        assert forall|k: int| 0 <= k < i - 1 implies tail[k] != name by {
            assert(tail[k] == keys[k + 1]);
        }
        lemma_first_index_step(tail, name, i - 1);
        assert(tail.subrange(i - 1, tail.len() as int) =~= keys.subrange(i, keys.len() as int));
    } else {
        assert(keys.subrange(0, keys.len() as int) =~= keys);
    }
}

proof fn lemma_first_index_none(keys: Seq<Seq<u8>>, name: Seq<u8>)
    requires
        forall|k: int| 0 <= k < keys.len() ==> keys[k] != name,
    ensures
        first_index(keys, name) is None,
    decreases keys.len(),
{
    if keys.len() > 0 {
        let tail = keys.subrange(1, keys.len() as int);
        assert forall|k: int| 0 <= k < tail.len() implies tail[k] != name by {
            assert(tail[k] == keys[k + 1]);
        }
        lemma_first_index_none(tail, name);
    }
}

/// Finds the first pair whose name is `name`.
pub fn find_option<'a, T>(name: &[u8], lst: &'a [(&str, T)]) -> (r: Option<&'a T>)
    ensures
        match first_index(option_keys(lst@), name@) {
            Some(i) => r matches Some(v) && *v == lst@[i].1,
            None => r is None,
        },
{
    let ghost keys = option_keys(lst@);
    let mut i: usize = 0;
    while i < lst.len()
        invariant
            i <= lst@.len(),
            keys == option_keys(lst@),
            forall|k: int| 0 <= k < i ==> keys[k] != name@,
        decreases lst@.len() - i,
    {
        let (k, v) = &lst[i];
        if same_bytes(k.as_bytes(), name) {
            proof {
                lemma_first_index_step(keys, name@, i as int);
                assert(keys.subrange(i as int, keys.len() as int)[0] == name@);
            }
            return Some(v);
        }
        i = i + 1;
    }
    proof {
        lemma_first_index_none(keys, name@);
    }
    None
}

impl State {
    /// Creates a copy of `s` with every occurrence of `p` replaced by `r`,
    /// pushes it onto the stack and returns it (`None` if the result is not
    /// UTF-8).
    pub fn gsub(&mut self, s: &str, p: &str, r: &str) -> (res: Option<String>)
        requires
            old(self).wf(),
            old(self).top() < MAXCSTACK,
            p.spec_bytes().len() > 0,
            no_nul(s.spec_bytes()),
            no_nul(p.spec_bytes()),
            no_nul(r.spec_bytes()),
        ensures
            final(self).wf(),
            final(self)@.stack == old(self)@.stack.push(ValueModel::Str(
                replace_all(s.spec_bytes(), p.spec_bytes(), r.spec_bytes()))),
            final(self)@.space == grown_space(old(self).top(), old(self)@.space, 1),
            res is Some <==> valid_utf8(replace_all(s.spec_bytes(), p.spec_bytes(), r.spec_bytes())),
            res matches Some(t) ==> t@ == decode_utf8(replace_all(s.spec_bytes(), p.spec_bytes(), r.spec_bytes())),
    {
        let out = replace_bytes(s.as_bytes(), p.as_bytes(), r.as_bytes());
        self.pushbytes(out.as_slice());
        decode_text(out)
    }

    /// Returns the function argument `narg` as bytes, converting a number
    /// in place (see `tobytes`).  An argument of any other kind is an
    /// argument error, which the caller must rule out; `None` comes only
    /// from an engine that fails to render a number.
    pub fn checkbytes(&mut self, narg: i32) -> (r: Option<Vec<u8>>)
        requires
            old(self).wf(),
            old(self).acceptable(narg as int),
            stringish(type_at(old(self)@.stack, narg as int)),
        ensures
            final(self).wf(),
            final(self)@.space == old(self)@.space,
            final(self)@.stack.len() == old(self)@.stack.len(),
            value_at(old(self)@.stack, narg as int) matches Some(ValueModel::Str(b)) ==>
                (r matches Some(v) && v@ == b) && final(self)@.stack == old(self)@.stack,
            r is Some && type_at(old(self)@.stack, narg as int) == Some(Type::Number) ==>
                final(self)@.stack == old(self)@.stack.update(slot_pos(narg as int, old(self).top()),
                ValueModel::Str(r->Some_0@)),
            r is None ==> final(self)@.stack == old(self)@.stack,
    {
        self.tobytes(narg)
    }

    /// Returns the function argument `narg` as a string (see `checkbytes`);
    /// `None` where its bytes are not UTF-8.
    pub fn checkstring(&mut self, narg: i32) -> (r: Option<String>)
        requires
            old(self).wf(),
            old(self).acceptable(narg as int),
            stringish(type_at(old(self)@.stack, narg as int)),
        ensures
            final(self).wf(),
            final(self)@.space == old(self)@.space,
            final(self)@.stack.len() == old(self)@.stack.len(),
            value_at(old(self)@.stack, narg as int) matches Some(ValueModel::Str(b)) ==> {
                &&& (r is Some <==> valid_utf8(b))
                &&& (r matches Some(t) ==> t@ == decode_utf8(b))
                &&& final(self)@.stack == old(self)@.stack
            },
            type_at(old(self)@.stack, narg as int) == Some(Type::Number) && r is Some ==> exists|b: Seq<u8>|
                #![trigger valid_utf8(b)]
                final(self)@.stack == old(self)@.stack.update(slot_pos(narg as int, old(self).top()), ValueModel::Str(b))
                && valid_utf8(b) && r->Some_0@ == decode_utf8(b),
    {
        self.tostring(narg)
    }

    /// Returns the function argument `narg` as bytes, or `d` if the argument
    /// is absent or nil (see `checkbytes`).
    pub fn optbytes(&mut self, narg: i32, d: &[u8]) -> (r: Option<Vec<u8>>)
        requires
            old(self).wf(),
            old(self).acceptable(narg as int),
            optional(type_at(old(self)@.stack, narg as int)),
        ensures
            final(self).wf(),
            final(self)@.space == old(self)@.space,
            final(self)@.stack.len() == old(self)@.stack.len(),
            absent(type_at(old(self)@.stack, narg as int)) ==> {
                &&& (r matches Some(v) && v@ == d@)
                &&& final(self)@.stack == old(self)@.stack
            },
            value_at(old(self)@.stack, narg as int) matches Some(ValueModel::Str(b)) ==>
                (r matches Some(v) && v@ == b) && final(self)@.stack == old(self)@.stack,
            r is Some && type_at(old(self)@.stack, narg as int) == Some(Type::Number) ==>
                final(self)@.stack == old(self)@.stack.update(slot_pos(narg as int, old(self).top()),
                ValueModel::Str(r->Some_0@)),
            r is None ==> final(self)@.stack == old(self)@.stack,
    {
        if self.isnoneornil(narg) {
            Some(crate::value::copy_bytes(d))
        } else {
            self.checkbytes(narg)
        }
    }

    /// Returns the function argument `narg` as a string, or `d` if the
    /// argument is absent or nil (see `checkstring`).
    pub fn optstring(&mut self, narg: i32, d: &str) -> (r: Option<String>)
        requires
            old(self).wf(),
            old(self).acceptable(narg as int),
            optional(type_at(old(self)@.stack, narg as int)),
        ensures
            final(self).wf(),
            final(self)@.space == old(self)@.space,
            final(self)@.stack.len() == old(self)@.stack.len(),
            absent(type_at(old(self)@.stack, narg as int)) ==> {
                &&& (r matches Some(t) && t@ == d@)
                &&& final(self)@.stack == old(self)@.stack
            },
            value_at(old(self)@.stack, narg as int) matches Some(ValueModel::Str(b)) ==> {
                &&& (r is Some <==> valid_utf8(b))
                &&& (r matches Some(t) ==> t@ == decode_utf8(b))
                &&& final(self)@.stack == old(self)@.stack
            },
            type_at(old(self)@.stack, narg as int) == Some(Type::Number) && r is Some ==> exists|b: Seq<u8>|
                #![trigger valid_utf8(b)]
                final(self)@.stack == old(self)@.stack.update(slot_pos(narg as int, old(self).top()), ValueModel::Str(b))
                && valid_utf8(b) && r->Some_0@ == decode_utf8(b),
    {
        if self.isnoneornil(narg) {
            Some(d.to_owned())
        } else {
            self.checkstring(narg)
        }
    }

    /// Returns the function argument `narg` as an integer: a number with an
    /// integer value is itself, a numeric string or another number converts
    /// as the engine converts it.  An argument that is neither a number nor
    /// a string is an argument error, which the caller must rule out; `None`
    /// is the engine finding no number in the string.  The stack is left as
    /// it was.
    pub fn checkinteger(&mut self, narg: i32) -> (r: Option<i64>)
        requires
            old(self).wf(),
            old(self).acceptable(narg as int),
            stringish(type_at(old(self)@.stack, narg as int)),
        ensures
            final(self).wf(),
            final(self)@ == old(self)@,
            value_at(old(self)@.stack, narg as int) matches Some(ValueModel::Integer(i)) ==> r == Some(i),
    {
        if is_named(narg) {
            return None;
        }
        match self.fetch(narg) {
            Some(StackValue::Integer(i)) => Some(i),
            Some(StackValue::Str(b)) => match create_string(&self.lua, b.as_slice()) {
                Ok(v) => match coerce_integer(&self.lua, v) {
                    Ok(o) => o,
                    Err(_) => None,
                },
                Err(_) => None,
            },
            Some(StackValue::Other(t, v)) => {
                if t == Type::Number {
                    match coerce_integer(&self.lua, v) {
                        Ok(o) => o,
                        Err(_) => None,
                    }
                } else {
                    None
                }
            },
            _ => None,
        }
    }

    /// Returns the function argument `narg` as an integer, or `d` if the
    /// argument is absent or nil (see `checkinteger`).
    pub fn optinteger(&mut self, narg: i32, d: i64) -> (r: Option<i64>)
        requires
            old(self).wf(),
            old(self).acceptable(narg as int),
            optional(type_at(old(self)@.stack, narg as int)),
        ensures
            final(self).wf(),
            final(self)@ == old(self)@,
            absent(type_at(old(self)@.stack, narg as int)) ==> r == Some(d),
            value_at(old(self)@.stack, narg as int) matches Some(ValueModel::Integer(i)) ==> r == Some(i),
    {
        if self.isnoneornil(narg) {
            Some(d)
        } else {
            self.checkinteger(narg)
        }
    }

    /// Whether the function argument `narg` has type `t` (`false` is an
    /// argument error).
    pub fn checktype(&self, narg: i32, t: Type) -> (r: bool)
        requires
            self.wf(),
            self.acceptable(narg as int),
        ensures
            r == (type_at(self@.stack, narg as int) == Some(t)),
    {
        self.type_(narg) == Some(t)
    }

    /// Whether there is a function argument, of any type (nil included),
    /// at position `narg` (`false` is an argument error).
    pub fn checkany(&self, narg: i32) -> (r: bool)
        requires
            self.wf(),
            self.acceptable(narg as int),
        ensures
            r == type_at(self@.stack, narg as int) is Some,
    {
        self.type_(narg).is_some()
    }

    /// Looks the function argument `narg` up among the names of `lst` and
    /// returns the value paired with the first match.  Where `def` is given,
    /// it stands for an absent or nil argument.  A missing argument without
    /// a default, an argument of another kind, or a name that is not listed
    /// is an argument error, which the caller must rule out (`find_option`
    /// decides the last).  `None` comes only from a number whose text is not
    /// listed; a number is converted in place, and the stack is otherwise
    /// left as it was.
    pub fn checkoption<'a, T>(&mut self, narg: i32, def: Option<&str>, lst: &'a [(&str, T)]) -> (r: Option<&'a T>)
        requires
            old(self).wf(),
            old(self).acceptable(narg as int),
            stringish(type_at(old(self)@.stack, narg as int))
                || (def is Some && absent(type_at(old(self)@.stack, narg as int))),
            value_at(old(self)@.stack, narg as int) matches Some(ValueModel::Str(b)) ==>
                first_index(option_keys(lst@), b) is Some,
            def is Some && absent(type_at(old(self)@.stack, narg as int)) ==>
                first_index(option_keys(lst@), def->Some_0.spec_bytes()) is Some,
        ensures
            final(self).wf(),
            final(self)@.space == old(self)@.space,
            type_at(old(self)@.stack, narg as int) != Some(Type::Number) ==> final(self)@.stack == old(self)@.stack,
            r is None ==> type_at(old(self)@.stack, narg as int) == Some(Type::Number),
            value_at(old(self)@.stack, narg as int) matches Some(ValueModel::Str(b)) ==>
                match first_index(option_keys(lst@), b) {
                    Some(i) => r matches Some(v) && *v == lst@[i].1,
                    None => false,
                },
            (def is Some && absent(type_at(old(self)@.stack, narg as int))) ==>
                match first_index(option_keys(lst@), def->Some_0.spec_bytes()) {
                    Some(i) => r matches Some(v) && *v == lst@[i].1,
                    None => false,
                },
    {
        proof { self.lemma_values_wf(); }
        let name = match def {
            Some(d) => self.optbytes(narg, d.as_bytes()),
            None => self.checkbytes(narg),
        };
        match name {
            Some(n) => find_option(n.as_slice(), lst),
            None => None,
        }
    }

    /// Pushes onto the stack the metatable registered under `tname` (nil
    /// if there is none); on an engine error pushes the message instead.
    pub fn getmetatable_reg(&mut self, tname: &str) -> (r: Result<(), PCallError>)
        requires
            old(self).wf(),
            old(self).top() < MAXCSTACK,
            no_nul(tname.spec_bytes()),
        ensures
            final(self).wf(),
            final(self).top() == old(self).top() + 1,
            final(self)@.stack.drop_last() == old(self)@.stack,
            r is Err ==> final(self)@.stack.last() is Str,
    {
        self.getfield(REGISTRYINDEX, tname)
    }
}

/// A string or a number: the kinds an argument check converts to text.
pub open spec fn stringish(t: Option<Type>) -> bool {
    t == Some(Type::String) || t == Some(Type::Number)
}

/// No value, or nil: an argument that an optional check replaces by its
/// default.
pub open spec fn absent(t: Option<Type>) -> bool {
    t is None || t == Some(Type::Nil)
}

/// What an optional argument check accepts.
pub open spec fn optional(t: Option<Type>) -> bool {
    stringish(t) || absent(t)
}

} // verus!
