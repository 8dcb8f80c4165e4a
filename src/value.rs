//! Values as they sit on a state's stack.
use vstd::prelude::*;

use crate::engine::{clone_function, clone_table, clone_value};
use crate::types::Type;
use vstd::utf8::{decode_utf8, valid_utf8};

verus! {

/// A value on the stack.  Nil, booleans, numbers with an integer value and
/// strings are held as plain data; tables, functions and the remaining kinds
/// are handles into the engine.
pub enum StackValue {
    Nil,
    Boolean(bool),
    Integer(i64),
    Str(Vec<u8>),
    Table(mlua::Table),
    Function(mlua::Function),
    Other(Type, mlua::Value),
}

/// The mathematical model of a `StackValue`: strings are byte sequences.
pub enum ValueModel {
    Nil,
    Boolean(bool),
    Integer(i64),
    Str(Seq<u8>),
    Table(mlua::Table),
    Function(mlua::Function),
    Other(Type, mlua::Value),
}

impl View for StackValue {
    type V = ValueModel;

    open spec fn view(&self) -> ValueModel {
        match self {
            StackValue::Nil => ValueModel::Nil,
            StackValue::Boolean(b) => ValueModel::Boolean(*b),
            StackValue::Integer(i) => ValueModel::Integer(*i),
            StackValue::Str(s) => ValueModel::Str(s@),
            StackValue::Table(t) => ValueModel::Table(*t),
            StackValue::Function(f) => ValueModel::Function(*f),
            StackValue::Other(t, v) => ValueModel::Other(*t, *v),
        }
    }
}

/// The type of a modelled value.
pub open spec fn model_type(m: ValueModel) -> Type {
    match m {
        ValueModel::Nil => Type::Nil,
        ValueModel::Boolean(_) => Type::Boolean,
        ValueModel::Integer(_) => Type::Number,
        ValueModel::Str(_) => Type::String,
        ValueModel::Table(_) => Type::Table,
        ValueModel::Function(_) => Type::Function,
        ValueModel::Other(t, _) => t,
    }
}

/// The truth value of a modelled value: everything but nil and false is
/// true.
pub open spec fn truthy(m: ValueModel) -> bool {
    match m {
        ValueModel::Nil => false,
        ValueModel::Boolean(b) => b,
        _ => true,
    }
}

/// A handle of the `Other` kind never stands for nil, a boolean, a string,
/// a table or a function.
pub open spec fn model_wf(m: ValueModel) -> bool {
    m matches ValueModel::Other(t, _) ==> (t == Type::Number || t == Type::LightUserdata
        || t == Type::Userdata || t == Type::Thread)
}

impl StackValue {
    /// Whether the value is well formed (see `model_wf`).
    pub open spec fn wf(&self) -> bool {
        model_wf(self@)
    }

    /// Copies the value; handles into the engine are shared.
    pub fn copy(&self) -> (r: StackValue)
        ensures
            r@ == self@,
    {
        match self {
            StackValue::Nil => StackValue::Nil,
            StackValue::Boolean(b) => StackValue::Boolean(*b),
            StackValue::Integer(i) => StackValue::Integer(*i),
            StackValue::Str(s) => {
                let c = s.clone();
                assert(c@ =~= s@);
                StackValue::Str(c)
            },
            StackValue::Table(t) => StackValue::Table(clone_table(t)),
            StackValue::Function(f) => StackValue::Function(clone_function(f)),
            StackValue::Other(t, v) => StackValue::Other(*t, clone_value(v)),
        }
    }

    /// Decides whether the value is well formed.
    pub fn check_wf(&self) -> (r: bool)
        ensures
            r == self.wf(),
    {
        match self {
            StackValue::Other(t, _) => *t == Type::Number || *t == Type::LightUserdata
                || *t == Type::Userdata || *t == Type::Thread,
            _ => true,
        }
    }

    /// The type of the value.
    pub fn value_type(&self) -> (r: Type)
        ensures
            r == model_type(self@),
    {
        match self {
            StackValue::Nil => Type::Nil,
            StackValue::Boolean(_) => Type::Boolean,
            StackValue::Integer(_) => Type::Number,
            StackValue::Str(_) => Type::String,
            StackValue::Table(_) => Type::Table,
            StackValue::Function(_) => Type::Function,
            StackValue::Other(t, _) => *t,
        }
    }

    /// The truth value: everything but nil and false is true.
    pub fn is_truthy(&self) -> (r: bool)
        ensures
            r == truthy(self@),
    {
        match self {
            StackValue::Nil => false,
            StackValue::Boolean(b) => *b,
            _ => true,
        }
    }
}

/// Copies a byte slice into a new vector.
pub fn copy_bytes(b: &[u8]) -> (r: Vec<u8>)
    ensures
        r@ == b@,
{
    let mut r: Vec<u8> = Vec::with_capacity(b.len());
    let mut i: usize = 0;
    while i < b.len()
        invariant
            i <= b@.len(),
            r@ == b@.subrange(0, i as int),
        decreases b@.len() - i,
    {
        r.push(b[i]);
        i = i + 1;
        assert(r@ =~= b@.subrange(0, i as int));
    }
    assert(r@ =~= b@);
    r
}

/// Appends the bytes of `src` to `dst`.
pub fn append_bytes(dst: &mut Vec<u8>, src: &[u8])
    ensures
        final(dst)@ == old(dst)@ + src@,
{
    let mut i: usize = 0;
    while i < src.len()
        invariant
            i <= src@.len(),
            dst@ == old(dst)@ + src@.subrange(0, i as int),
        decreases src@.len() - i,
    {
        dst.push(src[i]);
        i = i + 1;
        assert(dst@ =~= old(dst)@ + src@.subrange(0, i as int));
    }
    assert(src@.subrange(0, src@.len() as int) =~= src@);
}

/// Relies on `String::from_utf8`: succeeds exactly on valid UTF-8, and the
/// text is what the bytes encode.
#[verifier::external_body]
pub fn decode_text(b: Vec<u8>) -> (r: Option<String>)
    ensures
        r is Some <==> valid_utf8(b@),
        r matches Some(s) ==> s@ == decode_utf8(b@),
{
    String::from_utf8(b).ok()
}

} // verus!
