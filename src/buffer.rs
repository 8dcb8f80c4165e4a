//! Building a string piecemeal: bytes gather in a staging area that is
//! flushed to the owner's stack only when it is full.
use vstd::prelude::*;
use vstd::string::StringSliceAdditionalSpecFns;
use vstd::utf8::encode_utf8;

use crate::index::MAXCSTACK;
use crate::state::{State, type_at};
use crate::types::Type;
use crate::value::{StackValue, ValueModel, append_bytes, copy_bytes};

verus! {

/// Size of the staging area of a `Buffer`.
pub const BUFFERSIZE: usize = 8192;

/// String buffer for building Lua strings piecemeal.
///
/// The buffer borrows its state exclusively; what has been flushed lies in
/// one string at the stack height the buffer started at.
pub struct Buffer<'a> {
    /// The state that created this buffer.
    pub state: &'a mut State,
    /// The staging area: bytes not yet flushed.
    pub pending: Vec<u8>,
    /// The stack height at which the buffer started.
    pub base: usize,
    /// Whether a flushed string lies at height `base`.
    pub flushed: bool,
}

impl<'a> Buffer<'a> {
    /// The stack height at which the buffer started.
    pub open spec fn base(&self) -> int {
        self.base as int
    }

    /// The stack height that the buffer itself occupies.
    pub open spec fn level(&self) -> int {
        if self.flushed { self.base + 1 } else { self.base as int }
    }

    /// The bytes gathered so far.
    pub open spec fn contents(&self) -> Seq<u8> {
        if self.flushed {
            match self.state@.stack[self.base as int] {
                ValueModel::Str(b) => b + self.pending@,
                _ => self.pending@,
            }
        } else {
            self.pending@
        }
    }

    /// The buffer's invariant: its state is well formed and still holds the
    /// flushed string where the buffer put it.
    pub open spec fn wf(&self) -> bool {
        &&& self.state.wf()
        &&& self.pending@.len() <= BUFFERSIZE
        &&& self.level() <= self.state.top()
        &&& self.flushed ==> self.state@.stack[self.base as int] is Str
    }

    /// Moves the staging area into the flushed string.
    fn flush(&mut self)
        requires
            old(self).wf(),
            old(self).base() < MAXCSTACK,
            old(self).state.top() == old(self).level(),
        ensures
            final(self).wf(),
            final(self).contents() == old(self).contents(),
            final(self).base() == old(self).base(),
            final(self).pending@.len() == 0,
            final(self).flushed,
            final(self).state@.stack.subrange(0, final(self).base())
                == old(self).state@.stack.subrange(0, old(self).base()),
            final(self).state.top() == final(self).level(),
            *final(old(self).state) == *final(final(self).state),
    {
        let mut data: Vec<u8> = Vec::new();
        std::mem::swap(&mut data, &mut self.pending);
        proof { self.state.lemma_bounds(); }
        if self.flushed {
            let old_piece = self.state.value_at_pos(self.base);
            let mut joined = match old_piece {
                StackValue::Str(b) => b,
                _ => Vec::new(),
            };
            append_bytes(&mut joined, data.as_slice());
            self.state.set_at_pos(self.base, StackValue::Str(joined));
        } else {
            self.state.checkstack_(1);
            self.state.pushbytes(data.as_slice());
            self.flushed = true;
        }
        proof {
            assert(self.state@.stack.subrange(0, self.base as int)
                =~= old(self).state@.stack.subrange(0, old(self).base as int));
            assert(self.pending@ =~= Seq::<u8>::empty());
        }
    }

    /// Adds the byte `c` to the buffer.  Only when the staging area is
    /// full is it first flushed into the string on the stack (reserving
    /// the slot that string needs the first time).
    pub fn addbyte(&mut self, c: u8)
        requires
            old(self).wf(),
            old(self).base() < MAXCSTACK,
            old(self).state.top() == old(self).level(),
        ensures
            old(self).pending@.len() < BUFFERSIZE ==> {
                &&& final(self).pending@ == old(self).pending@.push(c)
                &&& final(self).flushed == old(self).flushed
                &&& final(self).state@ == old(self).state@
            },
            old(self).pending@.len() >= BUFFERSIZE ==> {
                &&& final(self).pending@ == seq![c]
                &&& final(self).flushed
            },
            final(self).wf(),
            final(self).contents() == old(self).contents().push(c),
            final(self).base() == old(self).base(),
            final(self).state.top() == final(self).level(),
            final(self).base() < MAXCSTACK,
            final(self).state@.stack.subrange(0, final(self).base())
                == old(self).state@.stack.subrange(0, old(self).base()),
            *final(old(self).state) == *final(final(self).state),
    {
        if self.pending.len() >= BUFFERSIZE {
            self.flush();
        }
        let ghost before = self.contents();
        let ghost staged = self.pending@;
        self.pending.push(c);
        proof {
            assert(self.contents() =~= before.push(c));
            if old(self).pending@.len() >= BUFFERSIZE {
                assert(self.pending@ =~= seq![c]);
            }
        }
    }

    /// Adds the bytes to the buffer.
    pub fn addbytes(&mut self, bytes: &[u8])
        requires
            old(self).wf(),
            old(self).base() < MAXCSTACK,
            old(self).state.top() == old(self).level(),
        ensures
            final(self).wf(),
            final(self).contents() == old(self).contents() + bytes@,
            final(self).base() == old(self).base(),
            final(self).state.top() == final(self).level(),
            final(self).base() < MAXCSTACK,
            final(self).state@.stack.subrange(0, final(self).base())
                == old(self).state@.stack.subrange(0, old(self).base()),
            *final(old(self).state) == *final(final(self).state),
    {
        let mut i: usize = 0;
        while i < bytes.len()
            invariant
                i <= bytes@.len(),
                self.wf(),
                self.contents() == old(self).contents() + bytes@.subrange(0, i as int),
                self.base() == old(self).base(),
                self.state.top() == self.level(),
                self.base() < MAXCSTACK,
                self.state@.stack.subrange(0, self.base()) == old(self).state@.stack.subrange(0, old(self).base()),
                *final(old(self).state) == *final(self.state),
            decreases bytes@.len() - i,
        {
            self.addbyte(bytes[i]);
            i = i + 1;
            proof {
                assert(old(self).contents() + bytes@.subrange(0, i as int)
                    =~= (old(self).contents() + bytes@.subrange(0, i - 1)).push(bytes@[i - 1]));
            }
        }
        proof { assert(bytes@.subrange(0, bytes@.len() as int) =~= bytes@); }
    }

    /// Adds the string to the buffer, as its UTF-8 bytes.
    pub fn addstring(&mut self, s: &str)
        requires
            old(self).wf(),
            old(self).base() < MAXCSTACK,
            old(self).state.top() == old(self).level(),
        ensures
            final(self).wf(),
            final(self).contents() == old(self).contents() + s.spec_bytes(),
            final(self).base() == old(self).base(),
            final(self).state.top() == final(self).level(),
            final(self).base() < MAXCSTACK,
            final(self).state@.stack.subrange(0, final(self).base())
                == old(self).state@.stack.subrange(0, old(self).base()),
            *final(old(self).state) == *final(final(self).state),
    {
        self.addbytes(s.as_bytes());
    }

    /// Adds the char `c` to the buffer, as its UTF-8 bytes.
    pub fn addchar(&mut self, c: char)
        requires
            old(self).wf(),
            old(self).base() < MAXCSTACK,
            old(self).state.top() == old(self).level(),
        ensures
            final(self).wf(),
            final(self).contents() == old(self).contents() + encode_utf8(seq![c]),
            final(self).base() == old(self).base(),
            final(self).state.top() == final(self).level(),
            final(self).base() < MAXCSTACK,
            final(self).state@.stack.subrange(0, final(self).base())
                == old(self).state@.stack.subrange(0, old(self).base()),
            *final(old(self).state) == *final(final(self).state),
    {
        let b = char_utf8(c);
        self.addbytes(b.as_slice());
    }

    /// Adds the value at the top of the stack, a string or a number, to the
    /// buffer and pops it.  This is the one operation that expects a value
    /// above the buffer on the stack.
    pub fn addvalue(&mut self)
        requires
            old(self).wf(),
            old(self).base() < MAXCSTACK,
            old(self).state.top() == old(self).level() + 1,
            type_at(old(self).state@.stack, -1) == Some(Type::String)
                || type_at(old(self).state@.stack, -1) == Some(Type::Number),
        ensures
            final(self).wf(),
            old(self).state@.stack.last() matches ValueModel::Str(b) ==>
                final(self).contents() == old(self).contents() + b,
            final(self).base() == old(self).base(),
            final(self).state.top() == final(self).level(),
            final(self).state@.stack.subrange(0, final(self).base())
                == old(self).state@.stack.subrange(0, old(self).base()),
            *final(old(self).state) == *final(final(self).state),
    {
        let ghost c0 = self.contents();
        let bytes = match self.state.tobytes(-1) {
            Some(b) => b,
            None => Vec::new(),
        };
        let ghost c1 = self.contents();
        assert(c1 == c0);
        self.state.pop(1);
        proof {
            assert(self.state@.stack.subrange(0, self.base as int)
                =~= old(self).state@.stack.subrange(0, old(self).base as int));
            assert(self.contents() == c0);
        }
        self.addbytes(bytes.as_slice());
    }

    /// Finishes the buffer, leaving the built string on top of the owner's
    /// stack, just above the height at which the buffer started.
    pub fn pushresult(self)
        requires
            self.wf(),
            self.base() < MAXCSTACK,
            self.state.top() == self.level(),
        ensures
            final(self.state).wf(),
            final(self.state)@.stack == old(self.state)@.stack.subrange(0, self.base()).push(
                ValueModel::Str(self.contents())),
    {
        let ghost below = self.state@.stack.subrange(0, self.base());
        let ghost c = self.contents();
        let mut b = self;
        b.flush();
        proof {
            assert(b.state@.stack =~= below.push(ValueModel::Str(c)));
        }
    }
}

/// Relies on `char::encode_utf8`: the UTF-8 encoding of one char.
#[verifier::external_body]
fn char_utf8(c: char) -> (r: Vec<u8>)
    ensures
        r@ == encode_utf8(seq![c]),
{
    let mut buf = [0u8; 4];
    c.encode_utf8(&mut buf).as_bytes().to_vec()
}

impl State {
    /// Starts a buffer on this state; it records the current top.
    pub fn buffinit<'a>(&'a mut self) -> (r: Buffer<'a>)
        requires
            old(self).wf(),
            old(self).top() < MAXCSTACK,
        ensures
            r.wf(),
            *r.state == *old(self),
            *final(self) == *final(r.state),
            r.base() == old(self).top(),
            r.level() == old(self).top(),
            r.contents() == Seq::<u8>::empty(),
    {
        proof { self.lemma_bounds(); }
        let base = self.gettop() as usize;
        let b = Buffer { state: self, pending: Vec::new(), base, flushed: false };
        proof { assert(b.contents() =~= Seq::<u8>::empty()); }
        b
    }
}

} // verus!
