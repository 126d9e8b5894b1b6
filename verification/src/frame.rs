//! Call frames and the call stack: activation records with local slots
//! and a return address.

use vstd::prelude::*;
use crate::value::Value;

verus! {

/// Call-frame and call-stack discipline violations.
#[derive(Debug)]
pub enum CallFrameError {
    /// The requested local index and the largest valid one.
    LocalIndexOutOfBounds(usize, usize),
    StackUnderflow,
    EmptyCallStack,
}

/// The default bound on call-stack depth.
pub const DEFAULT_MAX_DEPTH: usize = 10_000;

/// An activation record: callee identifier, return address, stack base,
/// a per-frame program counter, and a fixed vector of local slots.
pub struct CallFrame {
    pub function_index: usize,
    pub return_address: usize,
    pub stack_base: usize,
    pub program_counter: usize,
    pub locals: Vec<Value>,
    pub function_name: Option<String>,
}

impl CallFrame {
    /// A frame with stack base zero and `local_count` locals, all `Null`.
    pub fn new(function_index: usize, return_address: usize, local_count: usize) -> (r: Self)
        ensures
            r.function_index == function_index,
            r.return_address == return_address,
            r.stack_base == 0,
            r.program_counter == 0,
            r.locals@.len() == local_count,
            forall|i: int| 0 <= i < local_count ==> #[trigger] r.locals@[i] == Value::Null,
            r.function_name is None,
    {
        Self::new_with_stack_base(function_index, return_address, local_count, 0)
    }

    /// A frame with the given stack base and `local_count` locals, all `Null`.
    pub fn new_with_stack_base(
        function_index: usize,
        return_address: usize,
        local_count: usize,
        stack_base: usize,
    ) -> (r: Self)
        ensures
            r.function_index == function_index,
            r.return_address == return_address,
            r.stack_base == stack_base,
            r.program_counter == 0,
            r.locals@.len() == local_count,
            forall|i: int| 0 <= i < local_count ==> #[trigger] r.locals@[i] == Value::Null,
            r.function_name is None,
    {
        let locals: Vec<Value> = vec![Value::Null; local_count];
        CallFrame {
            function_index,
            return_address,
            stack_base,
            program_counter: 0,
            locals,
            function_name: None,
        }
    }

    pub fn function_index(&self) -> (r: usize)
        ensures
            r == self.function_index,
    {
        self.function_index
    }

    pub fn return_address(&self) -> (r: usize)
        ensures
            r == self.return_address,
    {
        self.return_address
    }

    pub fn set_return_address(&mut self, address: usize)
        ensures
            *final(self) == (CallFrame { return_address: address, ..*old(self) }),
    {
        self.return_address = address;
    }

    pub fn stack_base(&self) -> (r: usize)
        ensures
            r == self.stack_base,
    {
        self.stack_base
    }

    pub fn program_counter(&self) -> (r: usize)
        ensures
            r == self.program_counter,
    {
        self.program_counter
    }

    pub fn set_program_counter(&mut self, pc: usize)
        ensures
            *final(self) == (CallFrame { program_counter: pc, ..*old(self) }),
    {
        self.program_counter = pc;
    }

    /// Advance the per-frame program counter by one.
    pub fn advance_program_counter(&mut self)
        requires
            old(self).program_counter < usize::MAX,
        ensures
            *final(self) == (CallFrame {
                program_counter: (old(self).program_counter + 1) as usize,
                ..*old(self)
            }),
    {
        self.program_counter = self.program_counter + 1;
    }

    /// The number of local slots.
    pub fn local_count(&self) -> (r: usize)
        ensures
            r == self.locals@.len(),
    {
        self.locals.len()
    }

    /// Borrow the local at `index`; an out-of-range index is an error.
    pub fn get_local(&self, index: usize) -> (r: Result<&Value, CallFrameError>)
        ensures
            index < self.locals@.len() ==> (r matches Ok(v) && *v == self.locals@[index as int]),
            index >= self.locals@.len() ==> (r matches Err(CallFrameError::LocalIndexOutOfBounds(
                i,
                m,
            )) && i == index),
    {
        if index >= self.locals.len() {
            let max_index = if self.locals.len() > 0 {
                self.locals.len() - 1
            } else {
                0
            };
            return Err(CallFrameError::LocalIndexOutOfBounds(index, max_index));
        }
        Ok(&self.locals[index])
    }

    /// Store `value` into the local at `index`; an out-of-range index is an
    /// error and leaves the frame unchanged.
    pub fn set_local(&mut self, index: usize, value: Value) -> (r: Result<(), CallFrameError>)
        ensures
            index < old(self).locals@.len() ==> r is Ok && *final(self) == (CallFrame {
                locals: final(self).locals,
                ..*old(self)
            }) && final(self).locals@ == old(self).locals@.update(index as int, value),
            index >= old(self).locals@.len() ==> (r matches Err(
                CallFrameError::LocalIndexOutOfBounds(i, m),
            ) && i == index) && *final(self) == *old(self),
    {
        if index >= self.locals.len() {
            let max_index = if self.locals.len() > 0 {
                self.locals.len() - 1
            } else {
                0
            };
            return Err(CallFrameError::LocalIndexOutOfBounds(index, max_index));
        }
        self.locals[index] = value;
        Ok(())
    }

    pub fn function_name(&self) -> (r: Option<&String>)
        ensures
            match r {
                Some(n) => self.function_name matches Some(m) && *n == m,
                None => self.function_name is None,
            },
    {
        self.function_name.as_ref()
    }

    pub fn set_function_name(&mut self, name: String)
        ensures
            *final(self) == (CallFrame { function_name: Some(name), ..*old(self) }),
    {
        self.function_name = Some(name);
    }
}

/// Local slots survive a store: writing `value` at `index` and reading the
/// same index yields `value` back, and no other slot moves.
pub proof fn lemma_store_then_load(before: Seq<Value>, index: int, value: Value)
    requires
        0 <= index < before.len(),
    ensures
        before.update(index, value)[index] == value,
        forall|j: int|
            0 <= j < before.len() && j != index ==> before.update(index, value)[j] == before[j],
{
}

/// The call stack: a bounded sequence of frames.
pub struct CallStack {
    pub frames: Vec<CallFrame>,
    pub max_depth: usize,
}

impl CallStack {
    /// An empty call stack with the default depth bound.
    pub fn new() -> (r: Self)
        ensures
            r.frames@ == Seq::<CallFrame>::empty(),
            r.max_depth == DEFAULT_MAX_DEPTH,
    {
        CallStack { frames: Vec::new(), max_depth: DEFAULT_MAX_DEPTH }
    }

    /// An empty call stack with the given depth bound.
    pub fn with_max_depth(max_depth: usize) -> (r: Self)
        ensures
            r.frames@ == Seq::<CallFrame>::empty(),
            r.max_depth == max_depth,
    {
        CallStack { frames: Vec::new(), max_depth }
    }

    /// Push a frame; fails exactly when the stack is at its depth bound.
    pub fn push(&mut self, frame: CallFrame) -> (r: Result<(), CallFrameError>)
        ensures
            final(self).max_depth == old(self).max_depth,
            old(self).frames@.len() < old(self).max_depth ==> r is Ok && final(self).frames@
                == old(self).frames@.push(frame),
            old(self).frames@.len() >= old(self).max_depth ==> (r matches Err(
                CallFrameError::StackUnderflow,
            )) && final(self).frames@ == old(self).frames@,
    {
        if self.frames.len() >= self.max_depth {
            return Err(CallFrameError::StackUnderflow);
        }
        self.frames.push(frame);
        Ok(())
    }

    /// Push a frame without a depth check, for dispatcher use.
    pub fn push_unchecked(&mut self, frame: CallFrame)
        ensures
            final(self).max_depth == old(self).max_depth,
            final(self).frames@ == old(self).frames@.push(frame),
    {
        self.frames.push(frame);
    }

    /// Pop the top frame; `StackUnderflow` exactly when the stack is empty.
    pub fn pop(&mut self) -> (r: Result<CallFrame, CallFrameError>)
        ensures
            final(self).max_depth == old(self).max_depth,
            old(self).frames@.len() > 0 ==> (r matches Ok(f) && f == old(self).frames@.last())
                && final(self).frames@ == old(self).frames@.drop_last(),
            old(self).frames@.len() == 0 ==> (r matches Err(CallFrameError::StackUnderflow))
                && final(self).frames@ == old(self).frames@,
    {
        match self.frames.pop() {
            Some(f) => Ok(f),
            None => Err(CallFrameError::StackUnderflow),
        }
    }

    /// Borrow the current (top) frame; fails when the stack is empty.
    pub fn current(&self) -> (r: Result<&CallFrame, CallFrameError>)
        ensures
            self.frames@.len() > 0 ==> (r matches Ok(f) && *f == self.frames@.last()),
            self.frames@.len() == 0 ==> (r matches Err(CallFrameError::StackUnderflow)),
    {
        if self.frames.len() > 0 {
            Ok(&self.frames[self.frames.len() - 1])
        } else {
            Err(CallFrameError::StackUnderflow)
        }
    }

    /// Mutably borrow the current (top) frame; fails when the stack is empty.
    pub fn current_mut(&mut self) -> (r: Result<&mut CallFrame, CallFrameError>)
        ensures
            old(self).frames@.len() > 0 ==> (r matches Ok(f) && *f == old(self).frames@.last()
                && final(self).frames@ == old(self).frames@.update(
                old(self).frames@.len() - 1,
                *final(f),
            ) && final(self).max_depth == old(self).max_depth),
            old(self).frames@.len() == 0 ==> (r matches Err(CallFrameError::StackUnderflow))
                && *final(self) == *old(self),
    {
        if self.frames.len() > 0 {
            let idx = self.frames.len() - 1;
            Ok(&mut self.frames[idx])
        } else {
            Err(CallFrameError::StackUnderflow)
        }
    }

    /// The current depth.
    pub fn depth(&self) -> (r: usize)
        ensures
            r == self.frames@.len(),
    {
        self.frames.len()
    }

    /// Whether no frame is active.
    pub fn is_empty(&self) -> (r: bool)
        ensures
            r == (self.frames@.len() == 0),
    {
        self.frames.is_empty()
    }

    /// Remove every frame.
    pub fn clear(&mut self)
        ensures
            final(self).frames@ == Seq::<CallFrame>::empty(),
            final(self).max_depth == old(self).max_depth,
    {
        self.frames.clear();
    }

    /// The depth bound.
    pub fn max_depth(&self) -> (r: usize)
        ensures
            r == self.max_depth,
    {
        self.max_depth
    }
}

impl Default for CallStack {
    fn default() -> (r: Self)
        ensures
            r.frames@ == Seq::<CallFrame>::empty(),
            r.max_depth == DEFAULT_MAX_DEPTH,
    {
        Self::new()
    }
}

} // verus!
