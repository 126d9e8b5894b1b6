//! Bytecode instructions and their semantics: the opcode set with its
//! stable byte encoding, and the dispatcher that executes one instruction
//! against the operand stack, the call stack, the constants pool and the
//! heap.

use vstd::prelude::*;
use crate::value::{Value, AbsValue, Object, abs_equiv};
use crate::stack::{OperandStack, StackError};
use crate::frame::{CallFrame, CallStack, CallFrameError};
use crate::heap::{Heap, spec_get_field};
use crate::assoc::KeyMap;
use crate::text::{dec_int, i64_to_string};

verus! {

/// The opcode set. The byte encoding is stable and given by `to_u8`.
#[derive(Clone, Copy, Debug, PartialEq, Eq, Structural, Hash)]
pub enum Opcode {
    Add,
    Sub,
    Mul,
    Div,
    Mod,
    Push,
    Pop,
    Dup,
    Swap,
    Jump,
    JumpIfTrue,
    JumpIfFalse,
    Call,
    Return,
    Equal,
    NotEqual,
    LessThan,
    LessEqual,
    GreaterThan,
    GreaterEqual,
    And,
    Or,
    Not,
    Xor,
    Load,
    Store,
    NewObject,
    GetField,
    SetField,
    Halt,
}

/// The stable byte of each opcode.
pub open spec fn to_u8_spec(op: Opcode) -> u8 {
    match op {
        Opcode::Add => 0x01,
        Opcode::Sub => 0x02,
        Opcode::Mul => 0x03,
        Opcode::Div => 0x04,
        Opcode::Mod => 0x05,
        Opcode::Push => 0x10,
        Opcode::Pop => 0x11,
        Opcode::Dup => 0x12,
        Opcode::Swap => 0x13,
        Opcode::Jump => 0x20,
        Opcode::JumpIfTrue => 0x21,
        Opcode::JumpIfFalse => 0x22,
        Opcode::Call => 0x23,
        Opcode::Return => 0x24,
        Opcode::Equal => 0x30,
        Opcode::NotEqual => 0x31,
        Opcode::LessThan => 0x32,
        Opcode::LessEqual => 0x33,
        Opcode::GreaterThan => 0x34,
        Opcode::GreaterEqual => 0x35,
        Opcode::And => 0x40,
        Opcode::Or => 0x41,
        Opcode::Not => 0x42,
        Opcode::Xor => 0x43,
        Opcode::Load => 0x50,
        Opcode::Store => 0x51,
        Opcode::NewObject => 0x52,
        Opcode::GetField => 0x53,
        Opcode::SetField => 0x54,
        Opcode::Halt => 0xFF,
    }
}

/// The opcode a byte decodes to, if any.
pub open spec fn from_u8_spec(byte: u8) -> Option<Opcode> {
    if byte == 0x01 {
        Some(Opcode::Add)
    } else if byte == 0x02 {
        Some(Opcode::Sub)
    } else if byte == 0x03 {
        Some(Opcode::Mul)
    } else if byte == 0x04 {
        Some(Opcode::Div)
    } else if byte == 0x05 {
        Some(Opcode::Mod)
    } else if byte == 0x10 {
        Some(Opcode::Push)
    } else if byte == 0x11 {
        Some(Opcode::Pop)
    } else if byte == 0x12 {
        Some(Opcode::Dup)
    } else if byte == 0x13 {
        Some(Opcode::Swap)
    } else if byte == 0x20 {
        Some(Opcode::Jump)
    } else if byte == 0x21 {
        Some(Opcode::JumpIfTrue)
    } else if byte == 0x22 {
        Some(Opcode::JumpIfFalse)
    } else if byte == 0x23 {
        Some(Opcode::Call)
    } else if byte == 0x24 {
        Some(Opcode::Return)
    } else if byte == 0x30 {
        Some(Opcode::Equal)
    } else if byte == 0x31 {
        Some(Opcode::NotEqual)
    } else if byte == 0x32 {
        Some(Opcode::LessThan)
    } else if byte == 0x33 {
        Some(Opcode::LessEqual)
    } else if byte == 0x34 {
        Some(Opcode::GreaterThan)
    } else if byte == 0x35 {
        Some(Opcode::GreaterEqual)
    } else if byte == 0x40 {
        Some(Opcode::And)
    } else if byte == 0x41 {
        Some(Opcode::Or)
    } else if byte == 0x42 {
        Some(Opcode::Not)
    } else if byte == 0x43 {
        Some(Opcode::Xor)
    } else if byte == 0x50 {
        Some(Opcode::Load)
    } else if byte == 0x51 {
        Some(Opcode::Store)
    } else if byte == 0x52 {
        Some(Opcode::NewObject)
    } else if byte == 0x53 {
        Some(Opcode::GetField)
    } else if byte == 0x54 {
        Some(Opcode::SetField)
    } else if byte == 0xFF {
        Some(Opcode::Halt)
    } else {
        None
    }
}

impl Opcode {
    /// The stable byte encoding of this opcode.
    pub fn to_u8(self) -> (r: u8)
        ensures
            r == to_u8_spec(self),
    {
        match self {
            Opcode::Add => 0x01,
            Opcode::Sub => 0x02,
            Opcode::Mul => 0x03,
            Opcode::Div => 0x04,
            Opcode::Mod => 0x05,
            Opcode::Push => 0x10,
            Opcode::Pop => 0x11,
            Opcode::Dup => 0x12,
            Opcode::Swap => 0x13,
            Opcode::Jump => 0x20,
            Opcode::JumpIfTrue => 0x21,
            Opcode::JumpIfFalse => 0x22,
            Opcode::Call => 0x23,
            Opcode::Return => 0x24,
            Opcode::Equal => 0x30,
            Opcode::NotEqual => 0x31,
            Opcode::LessThan => 0x32,
            Opcode::LessEqual => 0x33,
            Opcode::GreaterThan => 0x34,
            Opcode::GreaterEqual => 0x35,
            Opcode::And => 0x40,
            Opcode::Or => 0x41,
            Opcode::Not => 0x42,
            Opcode::Xor => 0x43,
            Opcode::Load => 0x50,
            Opcode::Store => 0x51,
            Opcode::NewObject => 0x52,
            Opcode::GetField => 0x53,
            Opcode::SetField => 0x54,
            Opcode::Halt => 0xFF,
        }
    }

    /// Decode a byte; total over the stable byte map, absent elsewhere.
    pub fn from_u8(byte: u8) -> (r: Option<Opcode>)
        ensures
            r == from_u8_spec(byte),
    {
        if byte == 0x01 {
            Some(Opcode::Add)
        } else if byte == 0x02 {
            Some(Opcode::Sub)
        } else if byte == 0x03 {
            Some(Opcode::Mul)
        } else if byte == 0x04 {
            Some(Opcode::Div)
        } else if byte == 0x05 {
            Some(Opcode::Mod)
        } else if byte == 0x10 {
            Some(Opcode::Push)
        } else if byte == 0x11 {
            Some(Opcode::Pop)
        } else if byte == 0x12 {
            Some(Opcode::Dup)
        } else if byte == 0x13 {
            Some(Opcode::Swap)
        } else if byte == 0x20 {
            Some(Opcode::Jump)
        } else if byte == 0x21 {
            Some(Opcode::JumpIfTrue)
        } else if byte == 0x22 {
            Some(Opcode::JumpIfFalse)
        } else if byte == 0x23 {
            Some(Opcode::Call)
        } else if byte == 0x24 {
            Some(Opcode::Return)
        } else if byte == 0x30 {
            Some(Opcode::Equal)
        } else if byte == 0x31 {
            Some(Opcode::NotEqual)
        } else if byte == 0x32 {
            Some(Opcode::LessThan)
        } else if byte == 0x33 {
            Some(Opcode::LessEqual)
        } else if byte == 0x34 {
            Some(Opcode::GreaterThan)
        } else if byte == 0x35 {
            Some(Opcode::GreaterEqual)
        } else if byte == 0x40 {
            Some(Opcode::And)
        } else if byte == 0x41 {
            Some(Opcode::Or)
        } else if byte == 0x42 {
            Some(Opcode::Not)
        } else if byte == 0x43 {
            Some(Opcode::Xor)
        } else if byte == 0x50 {
            Some(Opcode::Load)
        } else if byte == 0x51 {
            Some(Opcode::Store)
        } else if byte == 0x52 {
            Some(Opcode::NewObject)
        } else if byte == 0x53 {
            Some(Opcode::GetField)
        } else if byte == 0x54 {
            Some(Opcode::SetField)
        } else if byte == 0xFF {
            Some(Opcode::Halt)
        } else {
            None
        }
    }

    /// Whether this opcode sets the program counter itself, so that the
    /// main loop must not advance it.
    pub open spec fn is_control_flow_spec(self) -> bool {
        self is Jump || self is JumpIfTrue || self is JumpIfFalse || self is Call || self is Return
    }
}

/// Encoding and decoding are inverse to each other: every opcode's byte
/// decodes back to that opcode, and every byte that decodes at all
/// re-encodes to itself.
pub proof fn lemma_opcode_round_trip()
    ensures
        forall|op: Opcode| #![auto] from_u8_spec(to_u8_spec(op)) == Some(op),
        forall|byte: u8, op: Opcode|
            #![auto]
            from_u8_spec(byte) == Some(op) ==> to_u8_spec(op) == byte,
{
}

/// An immutable instruction: an opcode and an optional operand.
pub struct Instruction {
    pub opcode: Opcode,
    pub operand: Option<Value>,
}

impl Instruction {
    pub fn new(opcode: Opcode, operand: Option<Value>) -> (r: Self)
        ensures
            r.opcode == opcode,
            r.operand == operand,
    {
        Instruction { opcode, operand }
    }

    pub fn opcode(&self) -> (r: Opcode)
        ensures
            r == self.opcode,
    {
        self.opcode
    }

    pub fn operand(&self) -> (r: Option<&Value>)
        ensures
            match r {
                Some(v) => self.operand matches Some(w) && *v == w,
                None => self.operand is None,
            },
    {
        self.operand.as_ref()
    }
}

impl Clone for Instruction {
    fn clone(&self) -> (r: Self)
        ensures
            r == *self,
    {
        let operand = match &self.operand {
            Some(v) => Some(v.clone()),
            None => None,
        };
        Instruction { opcode: self.opcode, operand }
    }
}

/// Errors an opcode can raise during execution.
#[derive(Debug)]
pub enum ExecutionError {
    StackError(StackError),
    CallFrameError(CallFrameError),
    TypeError(String),
    DivisionByZero,
    InvalidJumpAddress(i64),
    UnknownOpcode(u8),
    InsufficientOperands,
    InvalidOperand(String),
}

/// Truncating division as the machine's `Div` computes it on integers:
/// the one overflowing case wraps to the minimum.
pub open spec fn div_trunc(a: i64, b: i64) -> i64
    recommends
        b != 0,
{
    match a.checked_div(b) {
        Some(q) => q,
        None => i64::MIN,
    }
}

/// Truncating remainder as the machine's `Mod` computes it on integers:
/// the one overflowing case wraps to zero.
pub open spec fn rem_trunc(a: i64, b: i64) -> i64
    recommends
        b != 0,
{
    match a.checked_rem(b) {
        Some(q) => q,
        None => 0,
    }
}

/// The integer result of an arithmetic opcode, wrapping on overflow.
pub open spec fn arith_result(op: Opcode, a: i64, b: i64) -> i64 {
    match op {
        Opcode::Add => a.wrapping_add(b),
        Opcode::Sub => a.wrapping_sub(b),
        Opcode::Mul => a.wrapping_mul(b),
        Opcode::Div => div_trunc(a, b),
        Opcode::Mod => rem_trunc(a, b),
        _ => 0,
    }
}

/// The boolean result of an ordering opcode on two integers.
pub open spec fn ord_result(op: Opcode, a: int, b: int) -> bool {
    match op {
        Opcode::LessThan => a < b,
        Opcode::LessEqual => a <= b,
        Opcode::GreaterThan => a > b,
        Opcode::GreaterEqual => a >= b,
        _ => false,
    }
}

/// The boolean result of a binary logical opcode on two truth values.
pub open spec fn logic_result(op: Opcode, a: bool, b: bool) -> bool {
    match op {
        Opcode::And => a && b,
        Opcode::Or => a || b,
        Opcode::Xor => a != b,
        _ => false,
    }
}

/// The field name an object opcode addresses: a string operand names the
/// field itself; an integer operand names the synthetic field "field_i".
pub open spec fn field_name_of(operand: Option<Value>) -> Option<Seq<char>> {
    match operand {
        Some(Value::String(s)) => Some(s@),
        Some(Value::Integer(i)) => Some("field_"@ + dec_int(i as int)),
        _ => None,
    }
}

/// A push of `v` onto a stack holding `s0`: it succeeds below the limit
/// and overflows at it, leaving the stack unchanged.
pub open spec fn pushed(
    s0: Seq<Value>,
    s1: Seq<Value>,
    v: Value,
    limit: int,
    r: Result<(), ExecutionError>,
) -> bool {
    if s0.len() < limit {
        r is Ok && s1 == s0.push(v)
    } else {
        (r matches Err(ExecutionError::StackError(StackError::Overflow))) && s1 == s0
    }
}

/// Underflow on an empty stack.
pub open spec fn underflowed(r: Result<(), ExecutionError>) -> bool {
    r matches Err(ExecutionError::StackError(StackError::Underflow))
}

/// What an arithmetic opcode does to the operand stack: it pops the right
/// then the left operand; on two integers it pushes the integer result
/// (division and remainder by zero excepted); anything else is a type
/// error that leaves both operands popped.
pub open spec fn post_arith(
    op: Opcode,
    s0: Seq<Value>,
    s1: Seq<Value>,
    r: Result<(), ExecutionError>,
) -> bool {
    if s0.len() == 0 {
        underflowed(r) && s1 == s0
    } else if s0.len() == 1 {
        underflowed(r) && s1 == s0.drop_last()
    } else {
        let a = s0[s0.len() - 2];
        let b = s0.last();
        let rest = s0.take(s0.len() - 2);
        match (a, b) {
            (Value::Integer(x), Value::Integer(y)) => {
                if (op is Div || op is Mod) && y == 0 {
                    (r matches Err(ExecutionError::DivisionByZero)) && s1 == rest
                } else {
                    r is Ok && s1 == rest.push(Value::Integer(arith_result(op, x, y)))
                }
            },
            _ => (r matches Err(ExecutionError::TypeError(_))) && s1 == rest,
        }
    }
}

/// What `Equal` / `NotEqual` do: pop both operands and push the boolean
/// of their (possibly negated) value equality, objects comparing as
/// field mappings; they never raise a type error.
pub open spec fn post_eq(
    negated: bool,
    s0: Seq<Value>,
    s1: Seq<Value>,
    r: Result<(), ExecutionError>,
) -> bool {
    if s0.len() == 0 {
        underflowed(r) && s1 == s0
    } else if s0.len() == 1 {
        underflowed(r) && s1 == s0.drop_last()
    } else {
        let a = s0[s0.len() - 2];
        let b = s0.last();
        let rest = s0.take(s0.len() - 2);
        r is Ok && s1 == rest.push(
            Value::Boolean(abs_equiv(a.abs(), b.abs()) != negated),
        )
    }
}

/// What an ordering opcode does: on two integers it pushes the boolean of
/// the mathematical comparison; anything else is a type error that leaves
/// both operands popped.
pub open spec fn post_ord(
    op: Opcode,
    s0: Seq<Value>,
    s1: Seq<Value>,
    r: Result<(), ExecutionError>,
) -> bool {
    if s0.len() == 0 {
        underflowed(r) && s1 == s0
    } else if s0.len() == 1 {
        underflowed(r) && s1 == s0.drop_last()
    } else {
        let a = s0[s0.len() - 2];
        let b = s0.last();
        let rest = s0.take(s0.len() - 2);
        match (a, b) {
            (Value::Integer(x), Value::Integer(y)) => r is Ok && s1 == rest.push(
                Value::Boolean(ord_result(op, x as int, y as int)),
            ),
            _ => (r matches Err(ExecutionError::TypeError(_))) && s1 == rest,
        }
    }
}

/// What a binary logical opcode does: pop both operands, coerce them
/// through truthiness, push the boolean result.
pub open spec fn post_logic(
    op: Opcode,
    s0: Seq<Value>,
    s1: Seq<Value>,
    r: Result<(), ExecutionError>,
) -> bool {
    if s0.len() == 0 {
        underflowed(r) && s1 == s0
    } else if s0.len() == 1 {
        underflowed(r) && s1 == s0.drop_last()
    } else {
        let a = s0[s0.len() - 2];
        let b = s0.last();
        let rest = s0.take(s0.len() - 2);
        r is Ok && s1 == rest.push(
            Value::Boolean(logic_result(op, a.abs().truthy(), b.abs().truthy())),
        )
    }
}

/// What `Not` does: pop one operand and push its negated truthiness.
pub open spec fn post_not(s0: Seq<Value>, s1: Seq<Value>, r: Result<(), ExecutionError>) -> bool {
    if s0.len() == 0 {
        underflowed(r) && s1 == s0
    } else {
        r is Ok && s1 == s0.drop_last().push(Value::Boolean(!s0.last().abs().truthy()))
    }
}

/// What `Push` does with a constants pool: an absent operand is an error;
/// an integer operand indexes the pool when it is non-empty (out of range
/// is an error) and is pushed as a literal when the pool is empty; any
/// other operand is pushed as a literal.
pub open spec fn post_push_consts(
    operand: Option<Value>,
    constants: Seq<Value>,
    s0: Seq<Value>,
    s1: Seq<Value>,
    limit: int,
    r: Result<(), ExecutionError>,
) -> bool {
    match operand {
        None => (r matches Err(ExecutionError::InsufficientOperands)) && s1 == s0,
        Some(Value::Integer(idx)) => {
            if constants.len() == 0 {
                pushed(s0, s1, Value::Integer(idx), limit, r)
            } else if idx < 0 || idx >= constants.len() {
                (r matches Err(ExecutionError::InvalidOperand(_))) && s1 == s0
            } else {
                pushed(s0, s1, constants[idx as int], limit, r)
            }
        },
        Some(v) => pushed(s0, s1, v, limit, r),
    }
}

/// What `Push` does without a constants pool: the operand, which must be
/// present, is pushed as a literal.
pub open spec fn post_push_literal(
    operand: Option<Value>,
    s0: Seq<Value>,
    s1: Seq<Value>,
    limit: int,
    r: Result<(), ExecutionError>,
) -> bool {
    match operand {
        None => (r matches Err(ExecutionError::InsufficientOperands)) && s1 == s0,
        Some(v) => pushed(s0, s1, v, limit, r),
    }
}

/// What `Pop` does: discard the top value.
pub open spec fn post_pop(s0: Seq<Value>, s1: Seq<Value>, r: Result<(), ExecutionError>) -> bool {
    if s0.len() == 0 {
        underflowed(r) && s1 == s0
    } else {
        r is Ok && s1 == s0.drop_last()
    }
}

/// What `Dup` does: push a copy of the top value.
pub open spec fn post_dup(
    s0: Seq<Value>,
    s1: Seq<Value>,
    limit: int,
    r: Result<(), ExecutionError>,
) -> bool {
    if s0.len() == 0 {
        underflowed(r) && s1 == s0
    } else {
        pushed(s0, s1, s0.last(), limit, r)
    }
}

/// What `Swap` does: exchange the top two values. With exactly one value
/// the second pop underflows after the first already popped.
pub open spec fn post_swap(s0: Seq<Value>, s1: Seq<Value>, r: Result<(), ExecutionError>) -> bool {
    if s0.len() == 0 {
        underflowed(r) && s1 == s0
    } else if s0.len() == 1 {
        underflowed(r) && s1 == s0.drop_last()
    } else {
        r is Ok && s1 == s0.take(s0.len() - 2).push(s0.last()).push(s0[s0.len() - 2])
    }
}

/// What `Jump` does to the program counter: an integer operand is the
/// absolute target; a negative target is an error; an absent operand is
/// missing, a present non-integer operand is the wrong shape. The counter
/// moves only on success.
pub open spec fn post_jump(
    operand: Option<Value>,
    pc0: usize,
    pc1: usize,
    r: Result<(), ExecutionError>,
) -> bool {
    match operand {
        Some(Value::Integer(addr)) => {
            if addr < 0 {
                (r matches Err(ExecutionError::InvalidJumpAddress(a)) && a == addr) && pc1 == pc0
            } else {
                r is Ok && pc1 == addr as usize
            }
        },
        Some(_) => (r matches Err(ExecutionError::InvalidOperand(_))) && pc1 == pc0,
        None => (r matches Err(ExecutionError::InsufficientOperands)) && pc1 == pc0,
    }
}

/// What a conditional jump does: pop the condition; when its truthiness
/// matches the jump's sense, behave as `Jump`, else leave the counter.
pub open spec fn post_jump_cond(
    sense: bool,
    operand: Option<Value>,
    s0: Seq<Value>,
    s1: Seq<Value>,
    pc0: usize,
    pc1: usize,
    r: Result<(), ExecutionError>,
) -> bool {
    if s0.len() == 0 {
        underflowed(r) && s1 == s0 && pc1 == pc0
    } else {
        s1 == s0.drop_last() && if s0.last().abs().truthy() == sense {
            post_jump(operand, pc0, pc1, r)
        } else {
            r is Ok && pc1 == pc0
        }
    }
}

/// What `Call` does: push a frame whose return address is the next
/// instruction and jump to the integer target. A negative target is an
/// error; a call stack at its depth bound is an error; an absent operand
/// is missing and a present non-integer operand is the wrong shape.
pub open spec fn post_call(
    operand: Option<Value>,
    pc0: usize,
    pc1: usize,
    f0: Seq<CallFrame>,
    f1: Seq<CallFrame>,
    max_depth: usize,
    r: Result<(), ExecutionError>,
) -> bool {
    match operand {
        Some(Value::Integer(addr)) => {
            if addr < 0 {
                (r matches Err(ExecutionError::InvalidJumpAddress(a)) && a == addr) && pc1 == pc0
                    && f1 == f0
            } else if f0.len() >= max_depth {
                (r matches Err(ExecutionError::CallFrameError(CallFrameError::StackUnderflow)))
                    && pc1 == pc0 && f1 == f0
            } else {
                &&& r is Ok
                &&& pc1 == addr as usize
                &&& f1.len() == f0.len() + 1
                &&& f1.drop_last() == f0
                &&& f1.last().function_index == addr as usize
                &&& f1.last().return_address == pc0 + 1
                &&& f1.last().stack_base == 0
                &&& f1.last().program_counter == 0
                &&& f1.last().locals@.len() == 0
                &&& f1.last().function_name is None
            }
        },
        Some(_) => (r matches Err(ExecutionError::InvalidOperand(_))) && pc1 == pc0 && f1 == f0,
        None => (r matches Err(ExecutionError::InsufficientOperands)) && pc1 == pc0 && f1 == f0,
    }
}

/// What `Return` does: pop the top frame and restore its return address
/// into the program counter; an empty call stack is an error.
pub open spec fn post_return(
    pc0: usize,
    pc1: usize,
    f0: Seq<CallFrame>,
    f1: Seq<CallFrame>,
    r: Result<(), ExecutionError>,
) -> bool {
    if f0.len() == 0 {
        (r matches Err(ExecutionError::CallFrameError(CallFrameError::StackUnderflow))) && pc1
            == pc0 && f1 == f0
    } else {
        r is Ok && f1 == f0.drop_last() && pc1 == f0.last().return_address
    }
}

/// What `Load` does: copy the local at the integer operand's index in the
/// current frame onto the operand stack.
pub open spec fn post_load(
    operand: Option<Value>,
    frames: Seq<CallFrame>,
    s0: Seq<Value>,
    s1: Seq<Value>,
    limit: int,
    r: Result<(), ExecutionError>,
) -> bool {
    match operand {
        Some(Value::Integer(idx)) => {
            if frames.len() == 0 {
                (r matches Err(ExecutionError::CallFrameError(CallFrameError::StackUnderflow)))
                    && s1 == s0
            } else if idx < 0 || idx >= frames.last().locals@.len() {
                (r matches Err(ExecutionError::CallFrameError(
                    CallFrameError::LocalIndexOutOfBounds(_, _),
                ))) && s1 == s0
            } else {
                pushed(s0, s1, frames.last().locals@[idx as int], limit, r)
            }
        },
        _ => (r matches Err(ExecutionError::InvalidOperand(_))) && s1 == s0,
    }
}

/// What `Store` does: pop the top of the operand stack into the local at
/// the integer operand's index in the current frame. The value is popped
/// before the frame is consulted, so a missing frame or a bad index
/// leaves the stack one shorter.
pub open spec fn post_store(
    operand: Option<Value>,
    s0: Seq<Value>,
    s1: Seq<Value>,
    f0: Seq<CallFrame>,
    f1: Seq<CallFrame>,
    r: Result<(), ExecutionError>,
) -> bool {
    match operand {
        Some(Value::Integer(idx)) => {
            if s0.len() == 0 {
                underflowed(r) && s1 == s0 && f1 == f0
            } else {
                s1 == s0.drop_last() && if f0.len() == 0 {
                    (r matches Err(ExecutionError::CallFrameError(CallFrameError::StackUnderflow)))
                        && f1 == f0
                } else if idx < 0 || idx >= f0.last().locals@.len() {
                    (r matches Err(ExecutionError::CallFrameError(
                        CallFrameError::LocalIndexOutOfBounds(_, _),
                    ))) && f1 == f0
                } else {
                    &&& r is Ok
                    &&& f1.len() == f0.len()
                    &&& f1.drop_last() == f0.drop_last()
                    &&& f1.last().locals@ == f0.last().locals@.update(idx as int, s0.last())
                    &&& f1.last().function_index == f0.last().function_index
                    &&& f1.last().return_address == f0.last().return_address
                    &&& f1.last().stack_base == f0.last().stack_base
                    &&& f1.last().program_counter == f0.last().program_counter
                    &&& f1.last().function_name == f0.last().function_name
                }
            }
        },
        _ => (r matches Err(ExecutionError::InvalidOperand(_))) && s1 == s0 && f1 == f0,
    }
}

/// What `NewObject` does: allocate an empty object and push its handle.
/// An allocation failure surfaces as `InvalidOperand` and changes
/// nothing; a stack overflow after a successful allocation keeps the
/// heap's accounting.
pub open spec fn post_new_object(
    s0: Seq<Value>,
    s1: Seq<Value>,
    h0: Heap,
    h1: Heap,
    limit: int,
    r: Result<(), ExecutionError>,
) -> bool {
    if h0.can_allocate(Heap::object_size(0)) {
        &&& h1 == h0.allocated(Heap::object_size(0), false)
        &&& if s0.len() < limit {
            &&& r is Ok
            &&& s1.len() == s0.len() + 1
            &&& s1.drop_last() == s0
            &&& s1.last().abs() == AbsValue::GcObj(
                h0.next_object_id as nat,
                Seq::<(Seq<char>, AbsValue)>::empty(),
            )
        } else {
            (r matches Err(ExecutionError::StackError(StackError::Overflow))) && s1 == s0
        }
    } else {
        (r matches Err(ExecutionError::InvalidOperand(_))) && s1 == s0 && h1 == h0
    }
}

/// What `GetField` does: pop an object handle and push the named field's
/// value, or `Null` when the field is absent; a non-object is a type
/// error that leaves it popped.
pub open spec fn post_get_field(
    operand: Option<Value>,
    s0: Seq<Value>,
    s1: Seq<Value>,
    r: Result<(), ExecutionError>,
) -> bool {
    match field_name_of(operand) {
        None => (r matches Err(ExecutionError::InvalidOperand(_))) && s1 == s0,
        Some(name) => {
            if s0.len() == 0 {
                underflowed(r) && s1 == s0
            } else {
                match s0.last() {
                    Value::GcObject(p) => {
                        r is Ok && s1 == s0.drop_last().push(
                            match spec_get_field((*p.inner).fields@, name) {
                                Some(v) => v,
                                None => Value::Null,
                            },
                        )
                    },
                    _ => (r matches Err(ExecutionError::TypeError(_))) && s1 == s0.drop_last(),
                }
            }
        },
    }
}

/// What `SetField` does in this tier: it validates its operands, restores
/// the stack, and reports that field assignment through shared handles is
/// not yet supported.
pub open spec fn post_set_field(
    operand: Option<Value>,
    s0: Seq<Value>,
    s1: Seq<Value>,
    r: Result<(), ExecutionError>,
) -> bool {
    match field_name_of(operand) {
        None => (r matches Err(ExecutionError::InvalidOperand(_))) && s1 == s0,
        Some(name) => {
            if s0.len() == 0 {
                underflowed(r) && s1 == s0
            } else if s0.len() == 1 {
                underflowed(r) && s1 == s0.drop_last()
            } else {
                s1 == s0 && if s0[s0.len() - 2] is GcObject {
                    r matches Err(ExecutionError::InvalidOperand(_))
                } else {
                    r matches Err(ExecutionError::TypeError(_))
                }
            }
        },
    }
}

/// The dispatcher: per-opcode semantics, its own program counter, an
/// instruction counter, and a branch-prediction side table keyed by
/// program counter.
pub struct InstructionDispatcher {
    pub program_counter: usize,
    pub instruction_count: u64,
    pub branch_predictions: KeyMap<bool>,
}

impl InstructionDispatcher {
    /// The prediction table's keys stay distinct.
    pub open spec fn wf(self) -> bool {
        self.branch_predictions.wf()
    }

    /// A fresh dispatcher at program counter zero.
    pub fn new() -> (r: Self)
        ensures
            r.wf(),
            r.program_counter == 0,
            r.instruction_count == 0,
            r.branch_predictions.entries@ == Seq::<(usize, bool)>::empty(),
            forall|pc: usize| r.branch_predictions.get_spec(pc) is None,
    {
        InstructionDispatcher {
            program_counter: 0,
            instruction_count: 0,
            branch_predictions: KeyMap::new(),
        }
    }

    pub fn current_pc(&self) -> (r: usize)
        ensures
            r == self.program_counter,
    {
        self.program_counter
    }

    pub fn set_pc(&mut self, pc: usize)
        ensures
            *final(self) == (InstructionDispatcher { program_counter: pc, ..*old(self) }),
    {
        self.program_counter = pc;
    }

    pub fn instruction_count(&self) -> (r: u64)
        ensures
            r == self.instruction_count,
    {
        self.instruction_count
    }

    /// Record whether the branch at `pc` was taken.
    pub fn record_branch_prediction(&mut self, pc: usize, taken: bool)
        requires
            old(self).wf(),
        ensures
            final(self).wf(),
            final(self).program_counter == old(self).program_counter,
            final(self).instruction_count == old(self).instruction_count,
            final(self).branch_predictions.get_spec(pc) == Some(taken),
            forall|pc2: usize|
                pc2 != pc ==> final(self).branch_predictions.get_spec(pc2) == old(
                    self,
                ).branch_predictions.get_spec(pc2),
    {
        self.branch_predictions.insert(pc, taken);
    }

    /// Execute one instruction against the operand stack and call stack
    /// alone; a heap-requiring opcode is rejected. `Push` treats its
    /// operand as a literal.
    pub fn execute(
        &mut self,
        instruction: &Instruction,
        stack: &mut OperandStack,
        call_stack: &mut CallStack,
    ) -> (r: Result<(), ExecutionError>)
        requires
            old(self).wf(),
            old(stack).wf(),
            old(self).instruction_count < u64::MAX,
            old(self).program_counter < usize::MAX,
        ensures
            final(self).wf(),
            final(stack).wf(),
            final(stack).max_size == old(stack).max_size,
            final(self).instruction_count == old(self).instruction_count + 1,
            final(self).branch_predictions == old(self).branch_predictions,
            final(call_stack).max_depth == old(call_stack).max_depth,
            !instruction.opcode.is_control_flow_spec() ==> final(self).program_counter == old(
                self,
            ).program_counter,
            instruction.opcode is Add || instruction.opcode is Sub || instruction.opcode is Mul
                || instruction.opcode is Div || instruction.opcode is Mod ==> post_arith(
                instruction.opcode,
                old(stack).values@,
                final(stack).values@,
                r,
            ) && *final(call_stack) == *old(call_stack),
            instruction.opcode is Push ==> post_push_literal(
                instruction.operand,
                old(stack).values@,
                final(stack).values@,
                old(stack).limit(),
                r,
            ) && *final(call_stack) == *old(call_stack),
            instruction.opcode is Pop ==> post_pop(old(stack).values@, final(stack).values@, r)
                && *final(call_stack) == *old(call_stack),
            instruction.opcode is Dup ==> post_dup(
                old(stack).values@,
                final(stack).values@,
                old(stack).limit(),
                r,
            ) && *final(call_stack) == *old(call_stack),
            instruction.opcode is Swap ==> post_swap(old(stack).values@, final(stack).values@, r)
                && *final(call_stack) == *old(call_stack),
            instruction.opcode is Jump ==> post_jump(
                instruction.operand,
                old(self).program_counter,
                final(self).program_counter,
                r,
            ) && *final(stack) == *old(stack) && *final(call_stack) == *old(call_stack),
            instruction.opcode is JumpIfTrue ==> post_jump_cond(
                true,
                instruction.operand,
                old(stack).values@,
                final(stack).values@,
                old(self).program_counter,
                final(self).program_counter,
                r,
            ) && *final(call_stack) == *old(call_stack),
            instruction.opcode is JumpIfFalse ==> post_jump_cond(
                false,
                instruction.operand,
                old(stack).values@,
                final(stack).values@,
                old(self).program_counter,
                final(self).program_counter,
                r,
            ) && *final(call_stack) == *old(call_stack),
            instruction.opcode is Call ==> post_call(
                instruction.operand,
                old(self).program_counter,
                final(self).program_counter,
                old(call_stack).frames@,
                final(call_stack).frames@,
                old(call_stack).max_depth,
                r,
            ) && *final(stack) == *old(stack),
            instruction.opcode is Return ==> post_return(
                old(self).program_counter,
                final(self).program_counter,
                old(call_stack).frames@,
                final(call_stack).frames@,
                r,
            ) && *final(stack) == *old(stack),
            instruction.opcode is Equal ==> post_eq(
                false,
                old(stack).values@,
                final(stack).values@,
                r,
            ) && *final(call_stack) == *old(call_stack),
            instruction.opcode is NotEqual ==> post_eq(
                true,
                old(stack).values@,
                final(stack).values@,
                r,
            ) && *final(call_stack) == *old(call_stack),
            instruction.opcode is LessThan || instruction.opcode is LessEqual
                || instruction.opcode is GreaterThan || instruction.opcode is GreaterEqual
                ==> post_ord(instruction.opcode, old(stack).values@, final(stack).values@, r)
                && *final(call_stack) == *old(call_stack),
            instruction.opcode is And || instruction.opcode is Or || instruction.opcode is Xor
                ==> post_logic(instruction.opcode, old(stack).values@, final(stack).values@, r)
                && *final(call_stack) == *old(call_stack),
            instruction.opcode is Not ==> post_not(old(stack).values@, final(stack).values@, r)
                && *final(call_stack) == *old(call_stack),
            instruction.opcode is Load ==> post_load(
                instruction.operand,
                old(call_stack).frames@,
                old(stack).values@,
                final(stack).values@,
                old(stack).limit(),
                r,
            ) && *final(call_stack) == *old(call_stack),
            instruction.opcode is Store ==> post_store(
                instruction.operand,
                old(stack).values@,
                final(stack).values@,
                old(call_stack).frames@,
                final(call_stack).frames@,
                r,
            ),
            instruction.opcode is NewObject ==> (r matches Err(
                ExecutionError::InvalidOperand(_),
            )) && *final(stack) == *old(stack) && *final(call_stack) == *old(call_stack),
            instruction.opcode is GetField ==> post_get_field(
                instruction.operand,
                old(stack).values@,
                final(stack).values@,
                r,
            ) && *final(call_stack) == *old(call_stack),
            instruction.opcode is SetField ==> post_set_field(
                instruction.operand,
                old(stack).values@,
                final(stack).values@,
                r,
            ) && *final(call_stack) == *old(call_stack),
            instruction.opcode is Halt ==> r is Ok && *final(stack) == *old(stack)
                && *final(call_stack) == *old(call_stack),
    {
        self.instruction_count = self.instruction_count + 1;
        match instruction.opcode() {
            Opcode::Add => self.execute_add(stack),
            Opcode::Sub => self.execute_sub(stack),
            Opcode::Mul => self.execute_mul(stack),
            Opcode::Div => self.execute_div(stack),
            Opcode::Mod => self.execute_mod(stack),
            Opcode::Push => self.execute_push(instruction, stack),
            Opcode::Pop => self.execute_pop(stack),
            Opcode::Dup => self.execute_dup(stack),
            Opcode::Swap => self.execute_swap(stack),
            Opcode::Jump => self.execute_jump(instruction),
            Opcode::JumpIfTrue => self.execute_jump_if_true(instruction, stack),
            Opcode::JumpIfFalse => self.execute_jump_if_false(instruction, stack),
            Opcode::Call => self.execute_call(instruction, call_stack),
            Opcode::Return => self.execute_return(call_stack),
            Opcode::Equal => self.execute_equal(stack),
            Opcode::NotEqual => self.execute_not_equal(stack),
            Opcode::LessThan => self.execute_less_than(stack),
            Opcode::LessEqual => self.execute_less_equal(stack),
            Opcode::GreaterThan => self.execute_greater_than(stack),
            Opcode::GreaterEqual => self.execute_greater_equal(stack),
            Opcode::And => self.execute_and(stack),
            Opcode::Or => self.execute_or(stack),
            Opcode::Not => self.execute_not(stack),
            Opcode::Xor => self.execute_xor(stack),
            Opcode::Load => self.execute_load(instruction, stack, call_stack),
            Opcode::Store => self.execute_store(instruction, stack, call_stack),
            Opcode::NewObject => Err(
                ExecutionError::InvalidOperand(
                    "NewObject requires heap access - use execute_with_constants".to_owned(),
                ),
            ),
            Opcode::GetField => self.execute_get_field(instruction, stack),
            Opcode::SetField => self.execute_set_field(instruction, stack),
            Opcode::Halt => Ok(()),
        }
    }

    /// Execute one instruction with the full machine: the constants pool
    /// feeds `Push` and the heap serves `NewObject`.
    pub fn execute_with_constants(
        &mut self,
        instruction: &Instruction,
        stack: &mut OperandStack,
        call_stack: &mut CallStack,
        constants: &[Value],
        heap: &mut Heap,
    ) -> (r: Result<(), ExecutionError>)
        requires
            old(self).wf(),
            old(stack).wf(),
            old(heap).wf(),
            old(self).instruction_count < u64::MAX,
            old(self).program_counter < usize::MAX,
        ensures
            final(self).wf(),
            final(stack).wf(),
            final(heap).wf(),
            final(stack).max_size == old(stack).max_size,
            final(self).instruction_count == old(self).instruction_count + 1,
            final(self).branch_predictions == old(self).branch_predictions,
            final(call_stack).max_depth == old(call_stack).max_depth,
            !instruction.opcode.is_control_flow_spec() ==> final(self).program_counter == old(
                self,
            ).program_counter,
            !(instruction.opcode is NewObject) ==> *final(heap) == *old(heap),
            instruction.opcode is Add || instruction.opcode is Sub || instruction.opcode is Mul
                || instruction.opcode is Div || instruction.opcode is Mod ==> post_arith(
                instruction.opcode,
                old(stack).values@,
                final(stack).values@,
                r,
            ) && *final(call_stack) == *old(call_stack),
            instruction.opcode is Push ==> post_push_consts(
                instruction.operand,
                constants@,
                old(stack).values@,
                final(stack).values@,
                old(stack).limit(),
                r,
            ) && *final(call_stack) == *old(call_stack),
            instruction.opcode is Pop ==> post_pop(old(stack).values@, final(stack).values@, r)
                && *final(call_stack) == *old(call_stack),
            instruction.opcode is Dup ==> post_dup(
                old(stack).values@,
                final(stack).values@,
                old(stack).limit(),
                r,
            ) && *final(call_stack) == *old(call_stack),
            instruction.opcode is Swap ==> post_swap(old(stack).values@, final(stack).values@, r)
                && *final(call_stack) == *old(call_stack),
            instruction.opcode is Jump ==> post_jump(
                instruction.operand,
                old(self).program_counter,
                final(self).program_counter,
                r,
            ) && *final(stack) == *old(stack) && *final(call_stack) == *old(call_stack),
            instruction.opcode is JumpIfTrue ==> post_jump_cond(
                true,
                instruction.operand,
                old(stack).values@,
                final(stack).values@,
                old(self).program_counter,
                final(self).program_counter,
                r,
            ) && *final(call_stack) == *old(call_stack),
            instruction.opcode is JumpIfFalse ==> post_jump_cond(
                false,
                instruction.operand,
                old(stack).values@,
                final(stack).values@,
                old(self).program_counter,
                final(self).program_counter,
                r,
            ) && *final(call_stack) == *old(call_stack),
            instruction.opcode is Call ==> post_call(
                instruction.operand,
                old(self).program_counter,
                final(self).program_counter,
                old(call_stack).frames@,
                final(call_stack).frames@,
                old(call_stack).max_depth,
                r,
            ) && *final(stack) == *old(stack),
            instruction.opcode is Return ==> post_return(
                old(self).program_counter,
                final(self).program_counter,
                old(call_stack).frames@,
                final(call_stack).frames@,
                r,
            ) && *final(stack) == *old(stack),
            instruction.opcode is Equal ==> post_eq(
                false,
                old(stack).values@,
                final(stack).values@,
                r,
            ) && *final(call_stack) == *old(call_stack),
            instruction.opcode is NotEqual ==> post_eq(
                true,
                old(stack).values@,
                final(stack).values@,
                r,
            ) && *final(call_stack) == *old(call_stack),
            instruction.opcode is LessThan || instruction.opcode is LessEqual
                || instruction.opcode is GreaterThan || instruction.opcode is GreaterEqual
                ==> post_ord(instruction.opcode, old(stack).values@, final(stack).values@, r)
                && *final(call_stack) == *old(call_stack),
            instruction.opcode is And || instruction.opcode is Or || instruction.opcode is Xor
                ==> post_logic(instruction.opcode, old(stack).values@, final(stack).values@, r)
                && *final(call_stack) == *old(call_stack),
            instruction.opcode is Not ==> post_not(old(stack).values@, final(stack).values@, r)
                && *final(call_stack) == *old(call_stack),
            instruction.opcode is Load ==> post_load(
                instruction.operand,
                old(call_stack).frames@,
                old(stack).values@,
                final(stack).values@,
                old(stack).limit(),
                r,
            ) && *final(call_stack) == *old(call_stack),
            instruction.opcode is Store ==> post_store(
                instruction.operand,
                old(stack).values@,
                final(stack).values@,
                old(call_stack).frames@,
                final(call_stack).frames@,
                r,
            ),
            instruction.opcode is NewObject ==> post_new_object(
                old(stack).values@,
                final(stack).values@,
                *old(heap),
                *final(heap),
                old(stack).limit(),
                r,
            ) && *final(call_stack) == *old(call_stack),
            instruction.opcode is GetField ==> post_get_field(
                instruction.operand,
                old(stack).values@,
                final(stack).values@,
                r,
            ) && *final(call_stack) == *old(call_stack),
            instruction.opcode is SetField ==> post_set_field(
                instruction.operand,
                old(stack).values@,
                final(stack).values@,
                r,
            ) && *final(call_stack) == *old(call_stack),
            instruction.opcode is Halt ==> r is Ok && *final(stack) == *old(stack)
                && *final(call_stack) == *old(call_stack),
    {
        self.instruction_count = self.instruction_count + 1;
        match instruction.opcode() {
            Opcode::Add => self.execute_add(stack),
            Opcode::Sub => self.execute_sub(stack),
            Opcode::Mul => self.execute_mul(stack),
            Opcode::Div => self.execute_div(stack),
            Opcode::Mod => self.execute_mod(stack),
            Opcode::Push => self.execute_push_with_constants(instruction, stack, constants),
            Opcode::Pop => self.execute_pop(stack),
            Opcode::Dup => self.execute_dup(stack),
            Opcode::Swap => self.execute_swap(stack),
            Opcode::Jump => self.execute_jump(instruction),
            Opcode::JumpIfTrue => self.execute_jump_if_true(instruction, stack),
            Opcode::JumpIfFalse => self.execute_jump_if_false(instruction, stack),
            Opcode::Call => self.execute_call(instruction, call_stack),
            Opcode::Return => self.execute_return(call_stack),
            Opcode::Equal => self.execute_equal(stack),
            Opcode::NotEqual => self.execute_not_equal(stack),
            Opcode::LessThan => self.execute_less_than(stack),
            Opcode::LessEqual => self.execute_less_equal(stack),
            Opcode::GreaterThan => self.execute_greater_than(stack),
            Opcode::GreaterEqual => self.execute_greater_equal(stack),
            Opcode::And => self.execute_and(stack),
            Opcode::Or => self.execute_or(stack),
            Opcode::Not => self.execute_not(stack),
            Opcode::Xor => self.execute_xor(stack),
            Opcode::Load => self.execute_load(instruction, stack, call_stack),
            Opcode::Store => self.execute_store(instruction, stack, call_stack),
            Opcode::NewObject => self.execute_new_object(stack, heap),
            Opcode::GetField => self.execute_get_field(instruction, stack),
            Opcode::SetField => self.execute_set_field(instruction, stack),
            Opcode::Halt => Ok(()),
        }
    }

    fn execute_add(&mut self, stack: &mut OperandStack) -> (r: Result<(), ExecutionError>)
        requires
            old(stack).wf(),
        ensures
            *final(self) == *old(self),
            final(stack).wf(),
            final(stack).max_size == old(stack).max_size,
            post_arith(Opcode::Add, old(stack).values@, final(stack).values@, r),
    {
        let ghost s0 = stack.values@;
        let b = match stack.pop() {
            Ok(v) => v,
            Err(e) => {
                return Err(ExecutionError::StackError(e));
            },
        };
        let a = match stack.pop() {
            Ok(v) => v,
            Err(e) => {
                return Err(ExecutionError::StackError(e));
            },
        };
        proof {
            assert(s0.drop_last().drop_last() =~= s0.take(s0.len() - 2));
        }
        match (a, b) {
            (Value::Integer(x), Value::Integer(y)) => {
                stack.push(Value::Integer(x.wrapping_add(y)));
                Ok(())
            },
            _ => Err(ExecutionError::TypeError("Cannot add these types".to_owned())),
        }
    }

    fn execute_sub(&mut self, stack: &mut OperandStack) -> (r: Result<(), ExecutionError>)
        requires
            old(stack).wf(),
        ensures
            *final(self) == *old(self),
            final(stack).wf(),
            final(stack).max_size == old(stack).max_size,
            post_arith(Opcode::Sub, old(stack).values@, final(stack).values@, r),
    {
        let ghost s0 = stack.values@;
        let b = match stack.pop() {
            Ok(v) => v,
            Err(e) => {
                return Err(ExecutionError::StackError(e));
            },
        };
        let a = match stack.pop() {
            Ok(v) => v,
            Err(e) => {
                return Err(ExecutionError::StackError(e));
            },
        };
        proof {
            assert(s0.drop_last().drop_last() =~= s0.take(s0.len() - 2));
        }
        match (a, b) {
            (Value::Integer(x), Value::Integer(y)) => {
                stack.push(Value::Integer(x.wrapping_sub(y)));
                Ok(())
            },
            _ => Err(ExecutionError::TypeError("Cannot subtract these types".to_owned())),
        }
    }

    fn execute_mul(&mut self, stack: &mut OperandStack) -> (r: Result<(), ExecutionError>)
        requires
            old(stack).wf(),
        ensures
            *final(self) == *old(self),
            final(stack).wf(),
            final(stack).max_size == old(stack).max_size,
            post_arith(Opcode::Mul, old(stack).values@, final(stack).values@, r),
    {
        let ghost s0 = stack.values@;
        let b = match stack.pop() {
            Ok(v) => v,
            Err(e) => {
                return Err(ExecutionError::StackError(e));
            },
        };
        let a = match stack.pop() {
            Ok(v) => v,
            Err(e) => {
                return Err(ExecutionError::StackError(e));
            },
        };
        proof {
            assert(s0.drop_last().drop_last() =~= s0.take(s0.len() - 2));
        }
        match (a, b) {
            (Value::Integer(x), Value::Integer(y)) => {
                stack.push(Value::Integer(x.wrapping_mul(y)));
                Ok(())
            },
            _ => Err(ExecutionError::TypeError("Cannot multiply these types".to_owned())),
        }
    }

    fn execute_div(&mut self, stack: &mut OperandStack) -> (r: Result<(), ExecutionError>)
        requires
            old(stack).wf(),
        ensures
            *final(self) == *old(self),
            final(stack).wf(),
            final(stack).max_size == old(stack).max_size,
            post_arith(Opcode::Div, old(stack).values@, final(stack).values@, r),
    {
        let ghost s0 = stack.values@;
        let b = match stack.pop() {
            Ok(v) => v,
            Err(e) => {
                return Err(ExecutionError::StackError(e));
            },
        };
        let a = match stack.pop() {
            Ok(v) => v,
            Err(e) => {
                return Err(ExecutionError::StackError(e));
            },
        };
        proof {
            assert(s0.drop_last().drop_last() =~= s0.take(s0.len() - 2));
        }
        match (a, b) {
            (Value::Integer(x), Value::Integer(y)) => {
                if y == 0 {
                    return Err(ExecutionError::DivisionByZero);
                }
                let q = match x.checked_div(y) {
                    Some(q) => q,
                    None => i64::MIN,
                };
                stack.push(Value::Integer(q));
                Ok(())
            },
            _ => Err(ExecutionError::TypeError("Cannot divide these types".to_owned())),
        }
    }

    fn execute_mod(&mut self, stack: &mut OperandStack) -> (r: Result<(), ExecutionError>)
        requires
            old(stack).wf(),
        ensures
            *final(self) == *old(self),
            final(stack).wf(),
            final(stack).max_size == old(stack).max_size,
            post_arith(Opcode::Mod, old(stack).values@, final(stack).values@, r),
    {
        let ghost s0 = stack.values@;
        let b = match stack.pop() {
            Ok(v) => v,
            Err(e) => {
                return Err(ExecutionError::StackError(e));
            },
        };
        let a = match stack.pop() {
            Ok(v) => v,
            Err(e) => {
                return Err(ExecutionError::StackError(e));
            },
        };
        proof {
            assert(s0.drop_last().drop_last() =~= s0.take(s0.len() - 2));
        }
        match (a, b) {
            (Value::Integer(x), Value::Integer(y)) => {
                if y == 0 {
                    return Err(ExecutionError::DivisionByZero);
                }
                let q = match x.checked_rem(y) {
                    Some(q) => q,
                    None => 0,
                };
                stack.push(Value::Integer(q));
                Ok(())
            },
            _ => Err(ExecutionError::TypeError("Modulo only supported for integers".to_owned())),
        }
    }

    fn execute_push(
        &mut self,
        instruction: &Instruction,
        stack: &mut OperandStack,
    ) -> (r: Result<(), ExecutionError>)
        requires
            old(stack).wf(),
        ensures
            *final(self) == *old(self),
            final(stack).wf(),
            final(stack).max_size == old(stack).max_size,
            post_push_literal(
                instruction.operand,
                old(stack).values@,
                final(stack).values@,
                old(stack).limit(),
                r,
            ),
    {
        match instruction.operand() {
            Some(value) => {
                match stack.try_push(value.clone()) {
                    Ok(u) => Ok(u),
                    Err(e) => Err(ExecutionError::StackError(e)),
                }
            },
            None => Err(ExecutionError::InsufficientOperands),
        }
    }

    fn execute_push_with_constants(
        &mut self,
        instruction: &Instruction,
        stack: &mut OperandStack,
        constants: &[Value],
    ) -> (r: Result<(), ExecutionError>)
        requires
            old(stack).wf(),
        ensures
            *final(self) == *old(self),
            final(stack).wf(),
            final(stack).max_size == old(stack).max_size,
            post_push_consts(
                instruction.operand,
                constants@,
                old(stack).values@,
                final(stack).values@,
                old(stack).limit(),
                r,
            ),
    {
        match instruction.operand() {
            Some(Value::Integer(index)) => {
                if constants.len() == 0 {
                    return match stack.try_push(Value::Integer(*index)) {
                        Ok(u) => Ok(u),
                        Err(e) => Err(ExecutionError::StackError(e)),
                    };
                }
                if *index < 0 || *index as u64 >= constants.len() as u64 {
                    return Err(
                        ExecutionError::InvalidOperand(
                            "Constant index out of bounds".to_owned(),
                        ),
                    );
                }
                let const_index = *index as usize;
                match constants.get(const_index) {
                    Some(value) => {
                        match stack.try_push(value.clone()) {
                            Ok(u) => Ok(u),
                            Err(e) => Err(ExecutionError::StackError(e)),
                        }
                    },
                    None => Err(
                        ExecutionError::InvalidOperand("Constant index out of bounds".to_owned()),
                    ),
                }
            },
            Some(value) => {
                match stack.try_push(value.clone()) {
                    Ok(u) => Ok(u),
                    Err(e) => Err(ExecutionError::StackError(e)),
                }
            },
            None => Err(ExecutionError::InsufficientOperands),
        }
    }

    fn execute_pop(&mut self, stack: &mut OperandStack) -> (r: Result<(), ExecutionError>)
        requires
            old(stack).wf(),
        ensures
            *final(self) == *old(self),
            final(stack).wf(),
            final(stack).max_size == old(stack).max_size,
            post_pop(old(stack).values@, final(stack).values@, r),
    {
        match stack.pop() {
            Ok(_) => Ok(()),
            Err(e) => Err(ExecutionError::StackError(e)),
        }
    }

    fn execute_dup(&mut self, stack: &mut OperandStack) -> (r: Result<(), ExecutionError>)
        requires
            old(stack).wf(),
        ensures
            *final(self) == *old(self),
            final(stack).wf(),
            final(stack).max_size == old(stack).max_size,
            post_dup(old(stack).values@, final(stack).values@, old(stack).limit(), r),
    {
        let value = match stack.peek() {
            Ok(v) => v.clone(),
            Err(e) => {
                return Err(ExecutionError::StackError(e));
            },
        };
        match stack.try_push(value) {
            Ok(u) => Ok(u),
            Err(e) => Err(ExecutionError::StackError(e)),
        }
    }

    fn execute_swap(&mut self, stack: &mut OperandStack) -> (r: Result<(), ExecutionError>)
        requires
            old(stack).wf(),
        ensures
            *final(self) == *old(self),
            final(stack).wf(),
            final(stack).max_size == old(stack).max_size,
            post_swap(old(stack).values@, final(stack).values@, r),
    {
        let ghost s0 = stack.values@;
        let a = match stack.pop() {
            Ok(v) => v,
            Err(e) => {
                return Err(ExecutionError::StackError(e));
            },
        };
        let b = match stack.pop() {
            Ok(v) => v,
            Err(e) => {
                return Err(ExecutionError::StackError(e));
            },
        };
        proof {
            assert(s0.drop_last().drop_last() =~= s0.take(s0.len() - 2));
        }
        stack.push(a);
        stack.push(b);
        Ok(())
    }

    fn execute_jump(&mut self, instruction: &Instruction) -> (r: Result<(), ExecutionError>)
        ensures
            final(self).instruction_count == old(self).instruction_count,
            final(self).branch_predictions == old(self).branch_predictions,
            post_jump(
                instruction.operand,
                old(self).program_counter,
                final(self).program_counter,
                r,
            ),
    {
        match instruction.operand() {
            Some(Value::Integer(addr)) => {
                if *addr < 0 {
                    return Err(ExecutionError::InvalidJumpAddress(*addr));
                }
                self.program_counter = #[verifier::truncate] (*addr as usize);
                Ok(())
            },
            Some(_) => Err(
                ExecutionError::InvalidOperand("Jump target must be an integer".to_owned()),
            ),
            None => Err(ExecutionError::InsufficientOperands),
        }
    }

    fn execute_jump_if_true(
        &mut self,
        instruction: &Instruction,
        stack: &mut OperandStack,
    ) -> (r: Result<(), ExecutionError>)
        requires
            old(stack).wf(),
        ensures
            final(self).instruction_count == old(self).instruction_count,
            final(self).branch_predictions == old(self).branch_predictions,
            final(stack).wf(),
            final(stack).max_size == old(stack).max_size,
            post_jump_cond(
                true,
                instruction.operand,
                old(stack).values@,
                final(stack).values@,
                old(self).program_counter,
                final(self).program_counter,
                r,
            ),
    {
        let condition = match stack.pop() {
            Ok(v) => v,
            Err(e) => {
                return Err(ExecutionError::StackError(e));
            },
        };
        if condition.is_truthy() {
            self.execute_jump(instruction)
        } else {
            Ok(())
        }
    }

    fn execute_jump_if_false(
        &mut self,
        instruction: &Instruction,
        stack: &mut OperandStack,
    ) -> (r: Result<(), ExecutionError>)
        requires
            old(stack).wf(),
        ensures
            final(self).instruction_count == old(self).instruction_count,
            final(self).branch_predictions == old(self).branch_predictions,
            final(stack).wf(),
            final(stack).max_size == old(stack).max_size,
            post_jump_cond(
                false,
                instruction.operand,
                old(stack).values@,
                final(stack).values@,
                old(self).program_counter,
                final(self).program_counter,
                r,
            ),
    {
        let condition = match stack.pop() {
            Ok(v) => v,
            Err(e) => {
                return Err(ExecutionError::StackError(e));
            },
        };
        if !condition.is_truthy() {
            self.execute_jump(instruction)
        } else {
            Ok(())
        }
    }

    fn execute_call(
        &mut self,
        instruction: &Instruction,
        call_stack: &mut CallStack,
    ) -> (r: Result<(), ExecutionError>)
        requires
            old(self).program_counter < usize::MAX,
        ensures
            final(self).instruction_count == old(self).instruction_count,
            final(self).branch_predictions == old(self).branch_predictions,
            final(call_stack).max_depth == old(call_stack).max_depth,
            post_call(
                instruction.operand,
                old(self).program_counter,
                final(self).program_counter,
                old(call_stack).frames@,
                final(call_stack).frames@,
                old(call_stack).max_depth,
                r,
            ),
    {
        match instruction.operand() {
            Some(Value::Integer(function_addr)) => {
                if *function_addr < 0 {
                    return Err(ExecutionError::InvalidJumpAddress(*function_addr));
                }
                let target = #[verifier::truncate] (*function_addr as usize);
                let return_addr = self.program_counter + 1;
                let frame = CallFrame::new(target, return_addr, 0);
                match call_stack.push(frame) {
                    Ok(_) => {},
                    Err(e) => {
                        return Err(ExecutionError::CallFrameError(e));
                    },
                }
                self.program_counter = target;
                proof {
                    assert(call_stack.frames@.drop_last() =~= old(call_stack).frames@);
                }
                Ok(())
            },
            Some(_) => Err(
                ExecutionError::InvalidOperand("Call target must be an integer".to_owned()),
            ),
            None => Err(ExecutionError::InsufficientOperands),
        }
    }

    fn execute_return(&mut self, call_stack: &mut CallStack) -> (r: Result<(), ExecutionError>)
        ensures
            final(self).instruction_count == old(self).instruction_count,
            final(self).branch_predictions == old(self).branch_predictions,
            final(call_stack).max_depth == old(call_stack).max_depth,
            post_return(
                old(self).program_counter,
                final(self).program_counter,
                old(call_stack).frames@,
                final(call_stack).frames@,
                r,
            ),
    {
        match call_stack.pop() {
            Ok(frame) => {
                self.program_counter = frame.return_address();
                Ok(())
            },
            Err(e) => Err(ExecutionError::CallFrameError(e)),
        }
    }

    fn execute_equal(&mut self, stack: &mut OperandStack) -> (r: Result<(), ExecutionError>)
        requires
            old(stack).wf(),
        ensures
            *final(self) == *old(self),
            final(stack).wf(),
            final(stack).max_size == old(stack).max_size,
            post_eq(false, old(stack).values@, final(stack).values@, r),
    {
        let ghost s0 = stack.values@;
        let b = match stack.pop() {
            Ok(v) => v,
            Err(e) => {
                return Err(ExecutionError::StackError(e));
            },
        };
        let a = match stack.pop() {
            Ok(v) => v,
            Err(e) => {
                return Err(ExecutionError::StackError(e));
            },
        };
        proof {
            assert(s0.drop_last().drop_last() =~= s0.take(s0.len() - 2));
        }
        let eq = crate::value::value_eq(&a, &b);
        stack.push(Value::Boolean(eq));
        Ok(())
    }

    fn execute_not_equal(&mut self, stack: &mut OperandStack) -> (r: Result<(), ExecutionError>)
        requires
            old(stack).wf(),
        ensures
            *final(self) == *old(self),
            final(stack).wf(),
            final(stack).max_size == old(stack).max_size,
            post_eq(true, old(stack).values@, final(stack).values@, r),
    {
        let ghost s0 = stack.values@;
        let b = match stack.pop() {
            Ok(v) => v,
            Err(e) => {
                return Err(ExecutionError::StackError(e));
            },
        };
        let a = match stack.pop() {
            Ok(v) => v,
            Err(e) => {
                return Err(ExecutionError::StackError(e));
            },
        };
        proof {
            assert(s0.drop_last().drop_last() =~= s0.take(s0.len() - 2));
        }
        let eq = crate::value::value_eq(&a, &b);
        stack.push(Value::Boolean(!eq));
        Ok(())
    }

    fn execute_less_than(&mut self, stack: &mut OperandStack) -> (r: Result<(), ExecutionError>)
        requires
            old(stack).wf(),
        ensures
            *final(self) == *old(self),
            final(stack).wf(),
            final(stack).max_size == old(stack).max_size,
            post_ord(Opcode::LessThan, old(stack).values@, final(stack).values@, r),
    {
        let ghost s0 = stack.values@;
        let b = match stack.pop() {
            Ok(v) => v,
            Err(e) => {
                return Err(ExecutionError::StackError(e));
            },
        };
        let a = match stack.pop() {
            Ok(v) => v,
            Err(e) => {
                return Err(ExecutionError::StackError(e));
            },
        };
        proof {
            assert(s0.drop_last().drop_last() =~= s0.take(s0.len() - 2));
        }
        match (a, b) {
            (Value::Integer(x), Value::Integer(y)) => {
                stack.push(Value::Boolean(x < y));
                Ok(())
            },
            _ => Err(ExecutionError::TypeError("Cannot compare these types".to_owned())),
        }
    }

    fn execute_less_equal(&mut self, stack: &mut OperandStack) -> (r: Result<(), ExecutionError>)
        requires
            old(stack).wf(),
        ensures
            *final(self) == *old(self),
            final(stack).wf(),
            final(stack).max_size == old(stack).max_size,
            post_ord(Opcode::LessEqual, old(stack).values@, final(stack).values@, r),
    {
        let ghost s0 = stack.values@;
        let b = match stack.pop() {
            Ok(v) => v,
            Err(e) => {
                return Err(ExecutionError::StackError(e));
            },
        };
        let a = match stack.pop() {
            Ok(v) => v,
            Err(e) => {
                return Err(ExecutionError::StackError(e));
            },
        };
        proof {
            assert(s0.drop_last().drop_last() =~= s0.take(s0.len() - 2));
        }
        match (a, b) {
            (Value::Integer(x), Value::Integer(y)) => {
                stack.push(Value::Boolean(x <= y));
                Ok(())
            },
            _ => Err(ExecutionError::TypeError("Cannot compare these types".to_owned())),
        }
    }

    fn execute_greater_than(&mut self, stack: &mut OperandStack) -> (r: Result<(), ExecutionError>)
        requires
            old(stack).wf(),
        ensures
            *final(self) == *old(self),
            final(stack).wf(),
            final(stack).max_size == old(stack).max_size,
            post_ord(Opcode::GreaterThan, old(stack).values@, final(stack).values@, r),
    {
        let ghost s0 = stack.values@;
        let b = match stack.pop() {
            Ok(v) => v,
            Err(e) => {
                return Err(ExecutionError::StackError(e));
            },
        };
        let a = match stack.pop() {
            Ok(v) => v,
            Err(e) => {
                return Err(ExecutionError::StackError(e));
            },
        };
        proof {
            assert(s0.drop_last().drop_last() =~= s0.take(s0.len() - 2));
        }
        match (a, b) {
            (Value::Integer(x), Value::Integer(y)) => {
                stack.push(Value::Boolean(x > y));
                Ok(())
            },
            _ => Err(ExecutionError::TypeError("Cannot compare these types".to_owned())),
        }
    }

    fn execute_greater_equal(&mut self, stack: &mut OperandStack) -> (r: Result<
        (),
        ExecutionError,
    >)
        requires
            old(stack).wf(),
        ensures
            *final(self) == *old(self),
            final(stack).wf(),
            final(stack).max_size == old(stack).max_size,
            post_ord(Opcode::GreaterEqual, old(stack).values@, final(stack).values@, r),
    {
        let ghost s0 = stack.values@;
        let b = match stack.pop() {
            Ok(v) => v,
            Err(e) => {
                return Err(ExecutionError::StackError(e));
            },
        };
        let a = match stack.pop() {
            Ok(v) => v,
            Err(e) => {
                return Err(ExecutionError::StackError(e));
            },
        };
        proof {
            assert(s0.drop_last().drop_last() =~= s0.take(s0.len() - 2));
        }
        match (a, b) {
            (Value::Integer(x), Value::Integer(y)) => {
                stack.push(Value::Boolean(x >= y));
                Ok(())
            },
            _ => Err(ExecutionError::TypeError("Cannot compare these types".to_owned())),
        }
    }

    fn execute_and(&mut self, stack: &mut OperandStack) -> (r: Result<(), ExecutionError>)
        requires
            old(stack).wf(),
        ensures
            *final(self) == *old(self),
            final(stack).wf(),
            final(stack).max_size == old(stack).max_size,
            post_logic(Opcode::And, old(stack).values@, final(stack).values@, r),
    {
        let ghost s0 = stack.values@;
        let b = match stack.pop() {
            Ok(v) => v,
            Err(e) => {
                return Err(ExecutionError::StackError(e));
            },
        };
        let a = match stack.pop() {
            Ok(v) => v,
            Err(e) => {
                return Err(ExecutionError::StackError(e));
            },
        };
        proof {
            assert(s0.drop_last().drop_last() =~= s0.take(s0.len() - 2));
        }
        let result = a.is_truthy() && b.is_truthy();
        stack.push(Value::Boolean(result));
        Ok(())
    }

    fn execute_or(&mut self, stack: &mut OperandStack) -> (r: Result<(), ExecutionError>)
        requires
            old(stack).wf(),
        ensures
            *final(self) == *old(self),
            final(stack).wf(),
            final(stack).max_size == old(stack).max_size,
            post_logic(Opcode::Or, old(stack).values@, final(stack).values@, r),
    {
        let ghost s0 = stack.values@;
        let b = match stack.pop() {
            Ok(v) => v,
            Err(e) => {
                return Err(ExecutionError::StackError(e));
            },
        };
        let a = match stack.pop() {
            Ok(v) => v,
            Err(e) => {
                return Err(ExecutionError::StackError(e));
            },
        };
        proof {
            assert(s0.drop_last().drop_last() =~= s0.take(s0.len() - 2));
        }
        let result = a.is_truthy() || b.is_truthy();
        stack.push(Value::Boolean(result));
        Ok(())
    }

    fn execute_not(&mut self, stack: &mut OperandStack) -> (r: Result<(), ExecutionError>)
        requires
            old(stack).wf(),
        ensures
            *final(self) == *old(self),
            final(stack).wf(),
            final(stack).max_size == old(stack).max_size,
            post_not(old(stack).values@, final(stack).values@, r),
    {
        let a = match stack.pop() {
            Ok(v) => v,
            Err(e) => {
                return Err(ExecutionError::StackError(e));
            },
        };
        let result = !a.is_truthy();
        stack.push(Value::Boolean(result));
        Ok(())
    }

    fn execute_xor(&mut self, stack: &mut OperandStack) -> (r: Result<(), ExecutionError>)
        requires
            old(stack).wf(),
        ensures
            *final(self) == *old(self),
            final(stack).wf(),
            final(stack).max_size == old(stack).max_size,
            post_logic(Opcode::Xor, old(stack).values@, final(stack).values@, r),
    {
        let ghost s0 = stack.values@;
        let b = match stack.pop() {
            Ok(v) => v,
            Err(e) => {
                return Err(ExecutionError::StackError(e));
            },
        };
        let a = match stack.pop() {
            Ok(v) => v,
            Err(e) => {
                return Err(ExecutionError::StackError(e));
            },
        };
        proof {
            assert(s0.drop_last().drop_last() =~= s0.take(s0.len() - 2));
        }
        let result = a.is_truthy() != b.is_truthy();
        stack.push(Value::Boolean(result));
        Ok(())
    }

    fn execute_load(
        &mut self,
        instruction: &Instruction,
        stack: &mut OperandStack,
        call_stack: &mut CallStack,
    ) -> (r: Result<(), ExecutionError>)
        requires
            old(stack).wf(),
        ensures
            *final(self) == *old(self),
            *final(call_stack) == *old(call_stack),
            final(stack).wf(),
            final(stack).max_size == old(stack).max_size,
            post_load(
                instruction.operand,
                old(call_stack).frames@,
                old(stack).values@,
                final(stack).values@,
                old(stack).limit(),
                r,
            ),
    {
        let local_index: i64 = match instruction.operand() {
            Some(Value::Integer(index)) => *index,
            _ => {
                return Err(
                    ExecutionError::InvalidOperand(
                        "Load instruction requires integer operand".to_owned(),
                    ),
                );
            },
        };
        let current_frame = match call_stack.current() {
            Ok(f) => f,
            Err(e) => {
                return Err(ExecutionError::CallFrameError(e));
            },
        };
        let count = current_frame.local_count();
        if local_index < 0 || local_index as u64 >= count as u64 {
            return Err(
                ExecutionError::CallFrameError(
                    CallFrameError::LocalIndexOutOfBounds(
                        if local_index < 0 {
                            0
                        } else {
                            #[verifier::truncate] (local_index as usize)
                        },
                        if count > 0 {
                            count - 1
                        } else {
                            0
                        },
                    ),
                ),
            );
        }
        let value = match current_frame.get_local(local_index as usize) {
            Ok(v) => v.clone(),
            Err(e) => {
                return Err(ExecutionError::CallFrameError(e));
            },
        };
        match stack.try_push(value) {
            Ok(u) => Ok(u),
            Err(e) => Err(ExecutionError::StackError(e)),
        }
    }

    fn execute_store(
        &mut self,
        instruction: &Instruction,
        stack: &mut OperandStack,
        call_stack: &mut CallStack,
    ) -> (r: Result<(), ExecutionError>)
        requires
            old(stack).wf(),
        ensures
            *final(self) == *old(self),
            final(call_stack).max_depth == old(call_stack).max_depth,
            final(stack).wf(),
            final(stack).max_size == old(stack).max_size,
            post_store(
                instruction.operand,
                old(stack).values@,
                final(stack).values@,
                old(call_stack).frames@,
                final(call_stack).frames@,
                r,
            ),
    {
        let ghost f0 = call_stack.frames@;
        let local_index: i64 = match instruction.operand() {
            Some(Value::Integer(index)) => *index,
            _ => {
                return Err(
                    ExecutionError::InvalidOperand(
                        "Store instruction requires integer operand".to_owned(),
                    ),
                );
            },
        };
        let value = match stack.pop() {
            Ok(v) => v,
            Err(e) => {
                return Err(ExecutionError::StackError(e));
            },
        };
        let current_frame = match call_stack.current_mut() {
            Ok(f) => f,
            Err(e) => {
                return Err(ExecutionError::CallFrameError(e));
            },
        };
        let count = current_frame.local_count();
        if local_index < 0 || local_index as u64 >= count as u64 {
            proof {
                assert(f0.update(f0.len() - 1, f0.last()) =~= f0);
            }
            return Err(
                ExecutionError::CallFrameError(
                    CallFrameError::LocalIndexOutOfBounds(
                        if local_index < 0 {
                            0
                        } else {
                            #[verifier::truncate] (local_index as usize)
                        },
                        if count > 0 {
                            count - 1
                        } else {
                            0
                        },
                    ),
                ),
            );
        }
        let res = current_frame.set_local(local_index as usize, value);
        proof {
            assert(f0.update(f0.len() - 1, *final(current_frame)).drop_last() =~= f0.drop_last());
        }
        match res {
            Ok(u) => Ok(u),
            Err(e) => Err(ExecutionError::CallFrameError(e)),
        }
    }

    fn execute_new_object(
        &mut self,
        stack: &mut OperandStack,
        heap: &mut Heap,
    ) -> (r: Result<(), ExecutionError>)
        requires
            old(stack).wf(),
            old(heap).wf(),
        ensures
            *final(self) == *old(self),
            final(stack).wf(),
            final(heap).wf(),
            final(stack).max_size == old(stack).max_size,
            post_new_object(
                old(stack).values@,
                final(stack).values@,
                *old(heap),
                *final(heap),
                old(stack).limit(),
                r,
            ),
    {
        let object = Object::new();
        match heap.allocate_object(object) {
            Ok(gc_object) => {
                let handle = Value::GcObject(gc_object);
                match stack.try_push(handle) {
                    Ok(u) => {
                        proof {
                            assert(stack.values@.drop_last() =~= old(stack).values@);
                            assert(Value::abs_fields(Seq::<(String, Value)>::empty(), 0)
                                == Seq::<(Seq<char>, AbsValue)>::empty());
                        }
                        Ok(u)
                    },
                    Err(e) => Err(ExecutionError::StackError(e)),
                }
            },
            Err(_) => Err(
                ExecutionError::InvalidOperand("Failed to allocate object".to_owned()),
            ),
        }
    }

    fn execute_get_field(
        &mut self,
        instruction: &Instruction,
        stack: &mut OperandStack,
    ) -> (r: Result<(), ExecutionError>)
        requires
            old(stack).wf(),
        ensures
            *final(self) == *old(self),
            final(stack).wf(),
            final(stack).max_size == old(stack).max_size,
            post_get_field(instruction.operand, old(stack).values@, final(stack).values@, r),
    {
        let field_name: String = match instruction.operand() {
            Some(Value::String(name)) => name.clone(),
            Some(Value::Integer(index)) => {
                proof {
                    reveal_strlit("field_");
                }
                let mut n: String = "field_".to_owned();
                let digits = i64_to_string(*index);
                n.append(digits.as_str());
                proof {
                    assert(n@ == "field_"@ + dec_int(*index as int));
                }
                n
            },
            Some(_) => {
                return Err(
                    ExecutionError::InvalidOperand(
                        "GetField instruction requires string or integer operand".to_owned(),
                    ),
                );
            },
            None => {
                return Err(
                    ExecutionError::InvalidOperand(
                        "GetField instruction requires operand".to_owned(),
                    ),
                );
            },
        };
        let object = match stack.pop() {
            Ok(v) => v,
            Err(e) => {
                return Err(ExecutionError::StackError(e));
            },
        };
        match object {
            Value::GcObject(gc_obj) => {
                let obj: &Object = &*gc_obj.inner;
                match obj.get_field(field_name.as_str()) {
                    Some(field_value) => {
                        let c = field_value.clone();
                        stack.push(c);
                    },
                    None => {
                        stack.push(Value::Null);
                    },
                }
                Ok(())
            },
            _ => Err(ExecutionError::TypeError("GetField can only be used on objects".to_owned())),
        }
    }

    fn execute_set_field(
        &mut self,
        instruction: &Instruction,
        stack: &mut OperandStack,
    ) -> (r: Result<(), ExecutionError>)
        requires
            old(stack).wf(),
        ensures
            *final(self) == *old(self),
            final(stack).wf(),
            final(stack).max_size == old(stack).max_size,
            post_set_field(instruction.operand, old(stack).values@, final(stack).values@, r),
    {
        match instruction.operand() {
            Some(Value::String(_)) => {},
            Some(Value::Integer(_)) => {},
            Some(_) => {
                return Err(
                    ExecutionError::InvalidOperand(
                        "SetField instruction requires string or integer operand".to_owned(),
                    ),
                );
            },
            None => {
                return Err(
                    ExecutionError::InvalidOperand(
                        "SetField instruction requires operand".to_owned(),
                    ),
                );
            },
        };
        let ghost s0 = stack.values@;
        let value = match stack.pop() {
            Ok(v) => v,
            Err(e) => {
                return Err(ExecutionError::StackError(e));
            },
        };
        let object = match stack.pop() {
            Ok(v) => v,
            Err(e) => {
                return Err(ExecutionError::StackError(e));
            },
        };
        proof {
            assert(s0.drop_last().drop_last() =~= s0.take(s0.len() - 2));
            assert(s0.take(s0.len() - 2).push(s0[s0.len() - 2]).push(s0.last()) =~= s0);
        }
        match object {
            Value::GcObject(gc_obj) => {
                stack.push(Value::GcObject(gc_obj));
                stack.push(value);
                Err(
                    ExecutionError::InvalidOperand(
                        "SetField not yet implemented - requires interior mutability".to_owned(),
                    ),
                )
            },
            _ => {
                stack.push(object);
                stack.push(value);
                Err(ExecutionError::TypeError("SetField can only be used on objects".to_owned()))
            },
        }
    }

    /// The recorded prediction for `pc`, if any.
    pub fn get_branch_prediction(&self, pc: usize) -> (r: Option<bool>)
        ensures
            r == self.branch_predictions.get_spec(pc),
    {
        match self.branch_predictions.get(pc) {
            Some(b) => Some(*b),
            None => None,
        }
    }
}


/// An arithmetic opcode on two numeric operands produces a numeric value:
/// with integer operands on top of the stack, a successful execution
/// replaces them by a single value that is again an integer.
pub proof fn lemma_arith_numeric(
    op: Opcode,
    s0: Seq<Value>,
    s1: Seq<Value>,
    r: Result<(), ExecutionError>,
)
    requires
        op is Add || op is Sub || op is Mul || op is Div || op is Mod,
        post_arith(op, s0, s1, r),
        s0.len() >= 2,
        s0[s0.len() - 2].abs() is Int,
        s0.last().abs() is Int,
        r is Ok,
    ensures
        s1.len() == s0.len() - 1,
        s1.last().abs() is Int,
{
    let a = s0[s0.len() - 2];
    let b = s0.last();
    assert(a is Integer && b is Integer);
}

/// An ordering opcode on two integers pushes exactly the boolean of the
/// mathematical comparison of their values.
pub proof fn lemma_compare_math(
    op: Opcode,
    s0: Seq<Value>,
    s1: Seq<Value>,
    r: Result<(), ExecutionError>,
    x: i64,
    y: i64,
)
    requires
        op is LessThan || op is LessEqual || op is GreaterThan || op is GreaterEqual,
        post_ord(op, s0, s1, r),
        s0.len() >= 2,
        s0[s0.len() - 2] == Value::Integer(x),
        s0.last() == Value::Integer(y),
    ensures
        r is Ok,
        s1 == s0.take(s0.len() - 2).push(Value::Boolean(ord_result(op, x as int, y as int))),
{
}

} // verus!
