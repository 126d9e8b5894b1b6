//! The operand stack: a LIFO of values with a hard ceiling and an
//! optional per-instance capacity.

use vstd::prelude::*;
use crate::value::Value;

verus! {

/// Operand-stack discipline violations.
#[derive(Debug)]
pub enum StackError {
    Underflow,
    Overflow,
}

/// The absolute ceiling on operand-stack depth.
pub const MAX_STACK_SIZE: usize = 1_000_000;

/// The initial reserve of a new stack.
pub const DEFAULT_CAPACITY: usize = 1024;

pub struct OperandStack {
    pub values: Vec<Value>,
    pub max_size: Option<usize>,
}

impl OperandStack {
    /// The number of values a stack with this bound may hold at most.
    pub open spec fn limit(self) -> int {
        match self.max_size {
            Some(m) => m as int,
            None => MAX_STACK_SIZE as int,
        }
    }

    /// A stack is well formed when its bound, if any, respects the absolute
    /// ceiling and its depth respects the bound.
    pub open spec fn wf(self) -> bool {
        &&& (self.max_size matches Some(m) ==> m <= MAX_STACK_SIZE)
        &&& self.values@.len() <= self.limit()
    }

    /// A new stack with no per-instance bound.
    pub fn new() -> (r: Self)
        ensures
            r.wf(),
            r.values@ == Seq::<Value>::empty(),
            r.max_size is None,
    {
        OperandStack { values: Vec::with_capacity(DEFAULT_CAPACITY), max_size: None }
    }

    /// A bounded stack; the bound is clamped to the absolute ceiling.
    pub fn with_capacity(max_size: usize) -> (r: Self)
        ensures
            r.wf(),
            r.values@ == Seq::<Value>::empty(),
            r.max_size == Some(if max_size <= MAX_STACK_SIZE {
                max_size
            } else {
                MAX_STACK_SIZE
            }),
    {
        let actual_max = if max_size < MAX_STACK_SIZE {
            max_size
        } else {
            MAX_STACK_SIZE
        };
        OperandStack { values: Vec::with_capacity(actual_max), max_size: Some(actual_max) }
    }

    /// Push a value. The caller must know the stack is not full; the
    /// non-fatal variant is `try_push`.
    pub fn push(&mut self, value: Value)
        requires
            old(self).wf(),
            old(self).values@.len() < old(self).limit(),
        ensures
            final(self).wf(),
            final(self).values@ == old(self).values@.push(value),
            final(self).max_size == old(self).max_size,
    {
        self.values.push(value);
    }

    /// Push a value, failing with `Overflow` exactly when the stack is at
    /// its bound (or at the absolute ceiling when unbounded).
    pub fn try_push(&mut self, value: Value) -> (r: Result<(), StackError>)
        requires
            old(self).wf(),
        ensures
            final(self).wf(),
            final(self).max_size == old(self).max_size,
            old(self).values@.len() < old(self).limit() ==> r is Ok && final(self).values@
                == old(self).values@.push(value),
            old(self).values@.len() >= old(self).limit() ==> (r matches Err(
                StackError::Overflow,
            )) && final(self).values@ == old(self).values@,
    {
        match self.max_size {
            None => {
                if self.values.len() >= MAX_STACK_SIZE {
                    return Err(StackError::Overflow);
                }
            },
            Some(max) => {
                if self.values.len() >= max {
                    return Err(StackError::Overflow);
                }
            },
        }
        self.values.push(value);
        Ok(())
    }

    /// Pop the top value; `Underflow` exactly when the stack is empty.
    pub fn pop(&mut self) -> (r: Result<Value, StackError>)
        requires
            old(self).wf(),
        ensures
            final(self).wf(),
            final(self).max_size == old(self).max_size,
            old(self).values@.len() > 0 ==> (r matches Ok(v) && v == old(self).values@.last())
                && final(self).values@ == old(self).values@.drop_last(),
            old(self).values@.len() == 0 ==> (r matches Err(StackError::Underflow))
                && final(self).values@ == old(self).values@,
    {
        match self.values.pop() {
            Some(v) => Ok(v),
            None => Err(StackError::Underflow),
        }
    }

    /// Borrow the top value; `Underflow` exactly when the stack is empty.
    pub fn peek(&self) -> (r: Result<&Value, StackError>)
        ensures
            self.values@.len() > 0 ==> (r matches Ok(v) && *v == self.values@.last()),
            self.values@.len() == 0 ==> (r matches Err(StackError::Underflow)),
    {
        if self.values.len() > 0 {
            Ok(&self.values[self.values.len() - 1])
        } else {
            Err(StackError::Underflow)
        }
    }

    /// The current depth.
    pub fn size(&self) -> (r: usize)
        ensures
            r == self.values@.len(),
    {
        self.values.len()
    }

    /// Whether the stack holds no value.
    pub fn is_empty(&self) -> (r: bool)
        ensures
            r == (self.values@.len() == 0),
    {
        self.values.is_empty()
    }

    /// Remove every value.
    pub fn clear(&mut self)
        requires
            old(self).wf(),
        ensures
            final(self).wf(),
            final(self).values@ == Seq::<Value>::empty(),
            final(self).max_size == old(self).max_size,
    {
        self.values.clear();
    }

    /// The per-instance bound, if one was set.
    pub fn max_size(&self) -> (r: Option<usize>)
        ensures
            r == self.max_size,
    {
        self.max_size
    }
}

impl Default for OperandStack {
    fn default() -> (r: Self)
        ensures
            r.wf(),
            r.values@ == Seq::<Value>::empty(),
            r.max_size is None,
    {
        Self::new()
    }
}

} // verus!
