//! Coroutines: states that share the engine's globals but run on a stack
//! of their own, resumed and suspended cooperatively.
use vstd::prelude::*;

use crate::engine::{CoStatus, clone_thread, create_thread, failure_of, resume_thread, share_engine, thread_status};
use crate::index::{MAXCSTACK, MINSTACK};
use crate::state::State;
use crate::types::{PCallError, Type};
use crate::value::{ValueModel, model_type};
use vstd::string::StringSliceAdditionalSpecFns;
use crate::value::{StackValue, copy_bytes};

verus! {

impl State {
    /// A handle on this thread's coroutine, if it was started.
    fn current_thread(&self) -> (r: Option<mlua::Thread>)
        ensures
            r == self.coroutine,
    {
        match &self.coroutine {
            Some(t) => Some(clone_thread(t)),
            None => None,
        }
    }

    /// Creates a new thread: a state that shares the engine and its global
    /// objects with this one but has an independent, empty stack.  The
    /// engine collects it like any other value; it is never closed
    /// explicitly.
    pub fn newthread(&mut self) -> (r: State)
        requires
            old(self).wf(),
        ensures
            final(self).wf(),
            final(self)@ == old(self)@,
            r.wf(),
            !r.has_coroutine(),
            r.engine() == old(self).engine(),
            final(self).engine() == old(self).engine(),
            r@.stack.len() == 0,
            r@.space == MINSTACK,
    {
        proof { self.lemma_engine(); }
        State::over_engine(share_engine(&self.lua), MINSTACK)
    }

    /// Starts or resumes the coroutine of this thread.
    ///
    /// To start it, push the body function and then `narg` arguments; to
    /// resume it, push only the `narg` values that the suspended yield
    /// returns.  Those values (and the function) are removed.  Returns
    /// `Ok(false)` when the coroutine yields and `Ok(true)` when it finishes;
    /// the yielded or returned values are then pushed.  On an error the
    /// error message is pushed and its kind returned.
    pub fn resume(&mut self, narg: i32) -> (r: Result<bool, PCallError>)
        requires
            old(self).wf(),
            0 <= narg <= old(self).top(),
            old(self).top() < MAXCSTACK,
        ensures
            final(self).wf(),
            final(self).top() >= old(self).top() - narg - 1,
            forall|i: int| 0 <= i < old(self).top() - narg - 1 ==> #[trigger] final(self)@.stack[i]
                == old(self)@.stack[i],
            r is Err ==> final(self)@.stack.last() is Str,
            !old(self).has_coroutine() && narg == old(self).top() ==> {
                &&& r == Err::<bool, PCallError>(PCallError::ErrRun)
                &&& final(self)@.stack == seq![ValueModel::Str("cannot resume dead coroutine".spec_bytes())]
            },
            !old(self).has_coroutine() && narg < old(self).top()
                && model_type(old(self)@.stack[old(self).top() - narg - 1]) != Type::Function ==> {
                &&& r == Err::<bool, PCallError>(PCallError::ErrRun)
                &&& final(self)@.stack == old(self)@.stack.subrange(0, old(self).top() - narg - 1).push(
                    ValueModel::Str("cannot resume non-suspended coroutine".spec_bytes()))
            },
            r matches Ok(finished) ==> final(self).has_coroutine() && final(self).suspended() == !finished,
    {
        proof { self.lemma_bounds(); self.lemma_coroutine(); }
        let top = self.gettop() as usize;
        let first = top - narg as usize;
        if self.coroutine.is_none() {
            if first == 0 {
                self.truncate_to(0);
                self.push_checked(StackValue::Str(copy_bytes("cannot resume dead coroutine".as_bytes())));
                proof { assert(self@.stack =~= seq![ValueModel::Str("cannot resume dead coroutine".spec_bytes())]); }
                return Err(PCallError::ErrRun);
            }
            if self.value_at_pos(first - 1).value_type() != Type::Function {
                self.truncate_to(first - 1);
                self.push_checked(StackValue::Str(copy_bytes("cannot resume non-suspended coroutine".as_bytes())));
                return Err(PCallError::ErrRun);
            }
        }
        let mut args: Vec<mlua::Value> = Vec::new();
        let mut i: usize = first;
        while i < top
            invariant
                self.wf(),
                self.top() == top,
                self@ == old(self)@,
                top <= MAXCSTACK,
                first <= i <= top,
                first + narg == top,
                self.coroutine == old(self).coroutine,
                self.coroutine is None ==> first > 0
                    && model_type(old(self)@.stack[first - 1]) == Type::Function,
            decreases top - i,
        {
            let v = self.value_at_pos(i);
            match self.to_engine(&v) {
                Ok(ev) => args.push(ev),
                Err(e) => {
                    proof { old(self).lemma_coroutine(); }
                    self.truncate_to(first);
                    let ghost mid = self@.stack;
                    let _ = self.push_failure(&e);
                    proof {
                        assert forall|k: int| 0 <= k < old(self).top() - narg - 1 implies
                            #[trigger] self@.stack[k] == old(self)@.stack[k] by {
                            assert(self@.stack.drop_last()[k] == mid[k]);
                        }
                    }
                    return Err(PCallError::ErrMem);
                },
            }
            i = i + 1;
        }
        let thread = match &self.coroutine {
            Some(t) => {
                let t = clone_thread(t);
                self.truncate_to(first);
                Ok(t)
            },
            None => {
                let body = self.value_at_pos(first - 1);
                self.truncate_to(first - 1);
                match body {
                    StackValue::Function(f) => create_thread(&self.lua, &f),
                    _ => {
                        self.push_checked(StackValue::Str(copy_bytes("cannot resume non-suspended coroutine".as_bytes())));
                        return Err(PCallError::ErrRun);
                    },
                }
            },
        };
        proof { self.lemma_bounds(); }
        let ghost mid = self@.stack;
        assert(mid.len() >= old(self).top() - narg - 1);
        assert(forall|k: int| 0 <= k < old(self).top() - narg - 1 ==> #[trigger] mid[k] == old(self)@.stack[k]);
        let (t, outcome) = match thread {
            Ok(t) => {
                let res = resume_thread(&t, args);
                (t, res)
            },
            Err(e) => {
                let _ = self.push_failure(&e);
                proof {
                    assert forall|k: int| 0 <= k < old(self).top() - narg - 1 implies
                        #[trigger] self@.stack[k] == old(self)@.stack[k] by {
                        assert(self@.stack.drop_last()[k] == mid[k]);
                    }
                }
                return Err(PCallError::ErrMem);
            },
        };
        match outcome {
            Ok(vals) => {
                if vals.len() > MAXCSTACK as usize - self.gettop() as usize {
                    self.push_checked(StackValue::Str(copy_bytes("stack overflow".as_bytes())));
                    self.set_thread(Some(t), false);
                    return Err(PCallError::ErrRun);
                }
                let sorted = crate::calls::sort_all(vals);
                self.push_results(&sorted, sorted.len());
                proof {
                    assert forall|k: int| 0 <= k < old(self).top() - narg - 1 implies
                        #[trigger] self@.stack[k] == old(self)@.stack[k] by {
                        assert(self@.stack.subrange(0, mid.len() as int)[k] == mid[k]);
                    }
                }
                let finished = thread_status(&t) != CoStatus::Resumable;
                self.set_thread(Some(t), !finished);
                proof { self.lemma_coroutine(); }
                Ok(finished)
            },
            Err(e) => {
                let (kind, msg) = failure_of(&e);
                self.push_checked(StackValue::Str(msg));
                self.set_thread(Some(t), false);
                Err(match kind {
                    crate::engine::Failure::Memory => PCallError::ErrMem,
                    _ => PCallError::ErrRun,
                })
            },
        }
    }

    /// The status of this thread: `Ok(true)` for a thread that is not
    /// suspended, `Ok(false)` for one suspended in a yield, and an error for
    /// one whose coroutine raised an error.
    pub fn status(&self) -> (r: Result<bool, PCallError>)
        requires
            self.wf(),
        ensures
            !self.has_coroutine() ==> r == Ok::<bool, PCallError>(true),
            r == Ok::<bool, PCallError>(false) ==> self.suspended(),
    {
        proof { self.lemma_coroutine(); }
        match &self.coroutine {
            None => Ok(true),
            Some(t) => match thread_status(t) {
                CoStatus::Failed => Err(PCallError::ErrRun),
                CoStatus::Resumable => Ok(!self.yielded),
                _ => Ok(true),
            },
        }
    }
}

} // verus!
