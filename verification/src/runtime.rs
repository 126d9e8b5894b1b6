//! The virtual machine: program loader, fetch-execute loop, program
//! counter discipline, the instruction quota, and inspection accessors.

use vstd::prelude::*;
use crate::value::Value;
use crate::stack::{OperandStack, StackError};
use crate::frame::CallStack;
use crate::heap::Heap;
use crate::instruction::{
    ExecutionError, Instruction, InstructionDispatcher, Opcode, post_arith, post_call, post_dup,
    post_eq, post_get_field, post_jump, post_jump_cond, post_load, post_logic, post_new_object,
    post_not, post_ord, post_pop, post_push_consts, post_return, post_set_field, post_store,
    post_swap,
};
use crate::profiler::{HotSpotProfiler, bump64, ProfiledInstruction};

verus! {

/// Errors of the loader and of the fetch-execute loop.
#[derive(Debug)]
pub enum VmError {
    ExecutionError(ExecutionError),
    /// The stuck program counter and the program length.
    ProgramCounterOutOfBounds(usize, usize),
    InvalidProgramState(String),
    NoProgram,
}

/// The default quota on instructions executed by one `run` call.
pub const DEFAULT_MAX_INSTRUCTIONS: u64 = 1_000_000;

/// The result an instruction's dispatch reported, as the loop saw it.
pub open spec fn dispatch_result(r: Result<(), VmError>) -> Result<(), ExecutionError> {
    match r {
        Ok(u) => Ok(u),
        Err(VmError::ExecutionError(e)) => Err(e),
        Err(_) => Ok(()),
    }
}

/// The fetch-execute loop's one-instruction relation: exactly what
/// `step` ensures between the machine before (`pre`) and after (`post`),
/// with the result `r`.
pub open spec fn step_rel(pre: VirtualMachine, post: VirtualMachine, r: Result<(), VmError>) -> bool {
    &&& (post.program == pre.program)
    &&& (post.constants == pre.constants)
    &&& (post.max_instructions == pre.max_instructions)
    &&& (pre.halted ==> r is Ok && post == pre)
    &&& (!pre.halted && pre.program@.len() == 0 ==> (r matches Err(
        VmError::NoProgram,
    )) && post == pre)
    &&& (!pre.halted && pre.program@.len() > 0 && pre.dispatcher.program_counter >= pre.program@.len() ==> (r matches Err(
        VmError::ProgramCounterOutOfBounds(p, l),
    ) && p == pre.dispatcher.program_counter && l == pre.program@.len())
        && post == pre)
    &&& (({
        let pc0 = pre.dispatcher.program_counter as int;
        &&& (!pre.halted && pc0 < pre.program@.len() && pre.program@[pc0].opcode is Halt ==> r is Ok && post == (VirtualMachine {
            halted: true,
            dispatcher: (InstructionDispatcher {
                instruction_count: (pre.dispatcher.instruction_count + 1) as u64,
                ..pre.dispatcher
            }),
            ..pre
        }))
    }))
    &&& (({
        let pc0 = pre.dispatcher.program_counter;
        let instr = pre.program@[pc0 as int];
        let s0 = pre.operand_stack.values@;
        let s1 = post.operand_stack.values@;
        let f0 = pre.call_stack.frames@;
        let f1 = post.call_stack.frames@;
        let er = dispatch_result(r);
        !pre.halted && pc0 < pre.program@.len() && !(instr.opcode is Halt)
            ==> {
            &&& (r is Ok || r matches Err(VmError::ExecutionError(_)))
            &&& post.dispatcher.instruction_count == pre.dispatcher.instruction_count + 1
            &&& !post.halted
            &&& post.operand_stack.max_size == pre.operand_stack.max_size
            &&& post.call_stack.max_depth == pre.call_stack.max_depth
            &&& post.dispatcher.branch_predictions == pre.dispatcher.branch_predictions
            &&& (match pre.profiler {
                Some(p0) => post.profiler matches Some(p1) && {
                    let q0 = match p0.instruction_profiles.get_spec(pc0) {
                        Some(q) => q,
                        None => ProfiledInstruction {
                            pc: pc0,
                            opcode: instr.opcode,
                            execution_count: 0,
                        },
                    };
                    &&& p1.instruction_profiles.get_spec(pc0) == Some(
                        ProfiledInstruction {
                            execution_count: bump64(q0.execution_count),
                            ..q0
                        },
                    )
                    &&& forall|pc2: usize|
                        pc2 != pc0 ==> p1.instruction_profiles.get_spec(pc2)
                            == p0.instruction_profiles.get_spec(pc2)
                    &&& p1 == (HotSpotProfiler {
                        instruction_profiles: p1.instruction_profiles,
                        ..p0
                    })
                },
                None => post.profiler is None,
            })
            &&& !instr.opcode.is_control_flow_spec() ==> post.dispatcher.program_counter == pc0 + 1
            &&& !(instr.opcode is NewObject) ==> post.heap == pre.heap
            &&& (instr.opcode is Add || instr.opcode is Sub || instr.opcode is Mul
                || instr.opcode is Div || instr.opcode is Mod ==> post_arith(
                instr.opcode,
                s0,
                s1,
                er,
            ) && f1 == f0)
            &&& (instr.opcode is Push ==> post_push_consts(
                instr.operand,
                pre.constants@,
                s0,
                s1,
                pre.operand_stack.limit(),
                er,
            ) && f1 == f0)
            &&& (instr.opcode is Pop ==> post_pop(s0, s1, er) && f1 == f0)
            &&& (instr.opcode is Dup ==> post_dup(
                s0,
                s1,
                pre.operand_stack.limit(),
                er,
            ) && f1 == f0)
            &&& (instr.opcode is Swap ==> post_swap(s0, s1, er) && f1 == f0)
            &&& (instr.opcode is Jump ==> post_jump(
                instr.operand,
                pc0,
                post.dispatcher.program_counter,
                er,
            ) && s1 == s0 && f1 == f0)
            &&& (instr.opcode is JumpIfTrue ==> post_jump_cond(
                true,
                instr.operand,
                s0,
                s1,
                pc0,
                post.dispatcher.program_counter,
                er,
            ) && f1 == f0)
            &&& (instr.opcode is JumpIfFalse ==> post_jump_cond(
                false,
                instr.operand,
                s0,
                s1,
                pc0,
                post.dispatcher.program_counter,
                er,
            ) && f1 == f0)
            &&& (instr.opcode is Call ==> post_call(
                instr.operand,
                pc0,
                post.dispatcher.program_counter,
                f0,
                f1,
                pre.call_stack.max_depth,
                er,
            ) && s1 == s0)
            &&& (instr.opcode is Return ==> post_return(
                pc0,
                post.dispatcher.program_counter,
                f0,
                f1,
                er,
            ) && s1 == s0)
            &&& (instr.opcode is Equal ==> post_eq(false, s0, s1, er) && f1 == f0)
            &&& (instr.opcode is NotEqual ==> post_eq(true, s0, s1, er) && f1 == f0)
            &&& (instr.opcode is LessThan || instr.opcode is LessEqual
                || instr.opcode is GreaterThan || instr.opcode is GreaterEqual
                ==> post_ord(instr.opcode, s0, s1, er) && f1 == f0)
            &&& (instr.opcode is And || instr.opcode is Or || instr.opcode is Xor
                ==> post_logic(instr.opcode, s0, s1, er) && f1 == f0)
            &&& (instr.opcode is Not ==> post_not(s0, s1, er) && f1 == f0)
            &&& (instr.opcode is Load ==> post_load(
                instr.operand,
                f0,
                s0,
                s1,
                pre.operand_stack.limit(),
                er,
            ) && f1 == f0)
            &&& (instr.opcode is Store ==> post_store(instr.operand, s0, s1, f0, f1, er))
            &&& (instr.opcode is NewObject ==> post_new_object(
                s0,
                s1,
                pre.heap,
                post.heap,
                pre.operand_stack.limit(),
                er,
            ) && f1 == f0)
            &&& (instr.opcode is GetField ==> post_get_field(instr.operand, s0, s1, er)
                && f1 == f0)
            &&& (instr.opcode is SetField ==> post_set_field(instr.operand, s0, s1, er)
                && f1 == f0)
        }
    }))
}

/// Consecutive states linked by successful steps.
pub open spec fn stepped_chain(trace: Seq<VirtualMachine>) -> bool {
    forall|i: int| 0 <= i < trace.len() - 1 ==> step_rel(trace[i], #[trigger] trace[i + 1], Ok(()))
}

/// How one `run` call relates to the iterated step relation: a chain of
/// successful steps leads from the starting machine to the chain's last
/// state. A successful run and a quota error leave the machine at that
/// state; a missing program leaves it untouched; any other error is one
/// failing step taken from the chain's end.
pub open spec fn run_trace(
    pre: VirtualMachine,
    post: VirtualMachine,
    r: Result<(), VmError>,
    trace: Seq<VirtualMachine>,
) -> bool {
    &&& trace.len() >= 1
    &&& trace[0] == pre
    &&& stepped_chain(trace)
    &&& match r {
        Ok(_) => post == trace.last(),
        Err(VmError::NoProgram) => post == pre && trace.len() == 1,
        Err(VmError::InvalidProgramState(_)) => post == trace.last(),
        _ => step_rel(trace.last(), post, r),
    }
}

pub struct VirtualMachine {
    pub operand_stack: OperandStack,
    pub call_stack: CallStack,
    pub dispatcher: InstructionDispatcher,
    pub program: Vec<Instruction>,
    pub constants: Vec<Value>,
    pub heap: Heap,
    pub profiler: Option<HotSpotProfiler>,
    pub halted: bool,
    pub max_instructions: u64,
}

impl VirtualMachine {
    /// Machine consistency: the parts are well formed, and a halted
    /// machine's program counter points at the `Halt` it stopped on.
    pub open spec fn wf(self) -> bool {
        &&& self.operand_stack.wf()
        &&& self.dispatcher.wf()
        &&& self.heap.wf()
        &&& self.call_stack.frames@.len() <= self.call_stack.max_depth
        &&& (self.profiler matches Some(p) ==> p.wf())
        &&& (self.halted ==> self.dispatcher.program_counter < self.program@.len()
            && self.program@[self.dispatcher.program_counter as int].opcode is Halt)
    }

    /// A machine with no program, no profiler, and the default quota.
    pub fn new() -> (r: Self)
        ensures
            r.wf(),
            r.operand_stack.values@ == Seq::<Value>::empty(),
            r.call_stack.frames@ == Seq::<crate::frame::CallFrame>::empty(),
            r.dispatcher.program_counter == 0,
            r.dispatcher.instruction_count == 0,
            r.program@ == Seq::<Instruction>::empty(),
            r.constants@ == Seq::<Value>::empty(),
            r.heap.allocated_objects == 0,
            r.heap.total_allocated_bytes == 0,
            r.profiler is None,
            !r.halted,
            r.max_instructions == DEFAULT_MAX_INSTRUCTIONS,
    {
        VirtualMachine {
            operand_stack: OperandStack::new(),
            call_stack: CallStack::new(),
            dispatcher: InstructionDispatcher::new(),
            program: Vec::new(),
            constants: Vec::new(),
            heap: Heap::new(),
            profiler: None,
            halted: false,
            max_instructions: DEFAULT_MAX_INSTRUCTIONS,
        }
    }

    /// A machine with the given instruction quota.
    pub fn with_max_instructions(max_instructions: u64) -> (r: Self)
        ensures
            r.wf(),
            r.operand_stack.values@ == Seq::<Value>::empty(),
            r.program@ == Seq::<Instruction>::empty(),
            r.constants@ == Seq::<Value>::empty(),
            r.profiler is None,
            !r.halted,
            r.max_instructions == max_instructions,
    {
        VirtualMachine {
            operand_stack: OperandStack::new(),
            call_stack: CallStack::new(),
            dispatcher: InstructionDispatcher::new(),
            program: Vec::new(),
            constants: Vec::new(),
            heap: Heap::new(),
            profiler: None,
            halted: false,
            max_instructions,
        }
    }

    /// Install a program without constants and reset the execution state.
    pub fn load_program(&mut self, program: Vec<Instruction>)
        requires
            old(self).wf(),
        ensures
            final(self).wf(),
            final(self).program@ == program@,
            final(self).constants == old(self).constants,
            final(self).operand_stack.values@ == Seq::<Value>::empty(),
            final(self).call_stack.frames@ == Seq::<crate::frame::CallFrame>::empty(),
            final(self).dispatcher.program_counter == 0,
            final(self).dispatcher.instruction_count == 0,
            !final(self).halted,
            final(self).heap == old(self).heap,
            final(self).profiler == old(self).profiler,
            final(self).max_instructions == old(self).max_instructions,
    {
        self.program = program;
        self.reset();
    }

    /// Clear the stacks, the dispatcher and the halted flag, keeping the
    /// program, the constants, the heap and the profiler.
    pub fn reset(&mut self)
        requires
            old(self).operand_stack.wf(),
        ensures
            final(self).operand_stack.wf(),
            final(self).operand_stack.values@ == Seq::<Value>::empty(),
            final(self).operand_stack.max_size == old(self).operand_stack.max_size,
            final(self).call_stack.frames@ == Seq::<crate::frame::CallFrame>::empty(),
            final(self).call_stack.max_depth == old(self).call_stack.max_depth,
            final(self).dispatcher.program_counter == 0,
            final(self).dispatcher.instruction_count == 0,
            final(self).dispatcher.wf(),
            !final(self).halted,
            final(self).program == old(self).program,
            final(self).constants == old(self).constants,
            final(self).heap == old(self).heap,
            final(self).profiler == old(self).profiler,
            final(self).max_instructions == old(self).max_instructions,
    {
        self.operand_stack.clear();
        self.call_stack.clear();
        self.dispatcher = InstructionDispatcher::new();
        self.halted = false;
    }

    /// Install a bytecode module: instructions plus a constants pool. An
    /// empty instruction list is rejected and changes nothing.
    pub fn load_bytecode_module(
        &mut self,
        instructions: Vec<Instruction>,
        constants: Vec<Value>,
    ) -> (r: Result<(), VmError>)
        requires
            old(self).wf(),
        ensures
            final(self).wf(),
            instructions@.len() == 0 ==> (r matches Err(VmError::InvalidProgramState(_)))
                && *final(self) == *old(self),
            instructions@.len() > 0 ==> r is Ok && final(self).program@ == instructions@ && final(self).constants@ == constants@ && final(self).operand_stack.values@ == Seq::<
                Value,
            >::empty() && final(self).call_stack.frames@ == Seq::<
                crate::frame::CallFrame,
            >::empty() && final(self).dispatcher.program_counter == 0 && final(self).dispatcher.instruction_count == 0 && !final(self).halted && final(self).heap == old(self).heap && final(self).profiler == old(self).profiler && final(self).max_instructions
                == old(self).max_instructions,
    {
        if instructions.len() == 0 {
            return Err(
                VmError::InvalidProgramState("Cannot load empty instruction list".to_owned()),
            );
        }
        self.program = instructions;
        self.constants = constants;
        self.reset();
        Ok(())
    }

    /// Run until the machine halts or the quota is reached; reaching the
    /// quota is an error. The whole run is a chain of `step_rel` steps
    /// from the starting machine (see `run_trace`); on success the
    /// machine is halted with its counter on the `Halt` it stopped on and
    /// the quota not reached, and a missing program is reported if and
    /// only if none is loaded.
    pub fn run(&mut self) -> (r: Result<(), VmError>)
        requires
            old(self).wf(),
        ensures
            final(self).wf(),
            final(self).program == old(self).program,
            final(self).constants == old(self).constants,
            final(self).max_instructions == old(self).max_instructions,
            (final(self).profiler is Some) == (old(self).profiler is Some),
            (r matches Err(VmError::NoProgram)) <==> old(self).program@.len() == 0,
            old(self).program@.len() == 0 ==> *final(self) == *old(self),
            r is Ok ==> final(self).halted && final(self).dispatcher.program_counter < final(self).program@.len() && final(self).program@[final(self).dispatcher.program_counter as int].opcode is Halt
                && final(self).dispatcher.instruction_count < final(self).max_instructions,
            (r matches Err(VmError::InvalidProgramState(_))) ==> final(self).dispatcher.instruction_count >= final(self).max_instructions,
            r matches Err(VmError::ProgramCounterOutOfBounds(p, l)) ==> p == final(self).dispatcher.program_counter && l == final(self).program@.len() && p >= l,
            exists|trace: Seq<VirtualMachine>| run_trace(*old(self), *final(self), r, trace),
    {
        if self.program.len() == 0 {
            let result: Result<(), VmError> = Err(VmError::NoProgram);
            proof {
                let rr = result;
                let t = seq![*old(self)];
                assert(run_trace(*old(self), *old(self), rr, t));
            }
            return result;
        }
        let ghost mut trace: Seq<VirtualMachine> = seq![*old(self)];
        while !self.halted && self.dispatcher.instruction_count() < self.max_instructions
            invariant
                old(self).program@.len() > 0,
                self.wf(),
                self.program == old(self).program,
                self.constants == old(self).constants,
                self.max_instructions == old(self).max_instructions,
                (self.profiler is Some) == (old(self).profiler is Some),
                trace.len() >= 1,
                trace[0] == *old(self),
                trace.last() == *self,
                stepped_chain(trace),
            decreases
                    self.max_instructions - self.dispatcher.instruction_count + (if self.halted {
                        0int
                    } else {
                        1int
                    }),
        {
            let ghost pre_step = *self;
            let step_result = self.step();
            let ghost rr = step_result;
            match step_result {
                Ok(_) => {
                    proof {
                        let t2 = trace.push(*self);
                        assert forall|i: int|
                            0 <= i < t2.len() - 1 implies step_rel(
                            t2[i],
                            #[trigger] t2[i + 1],
                            Ok(()),
                        ) by {
                            if i < trace.len() - 1 {
                                assert(t2[i] == trace[i]);
                                assert(t2[i + 1] == trace[i + 1]);
                            } else {
                                assert(t2[i] == pre_step);
                                assert(t2[i + 1] == *self);
                            }
                        }
                        trace = t2;
                    }
                },
                Err(e) => {
                    proof {
                        assert(step_rel(pre_step, *self, rr));
                        assert(run_trace(*old(self), *self, rr, trace));
                    }
                    return Err(e);
                },
            }
        }
        if self.dispatcher.instruction_count() >= self.max_instructions {
            let result: Result<(), VmError> = Err(
                VmError::InvalidProgramState("Maximum instruction count exceeded".to_owned()),
            );
            proof {
                let rr = result;
                assert(run_trace(*old(self), *self, rr, trace));
            }
            return result;
        }
        proof {
            let rr: Result<(), VmError> = Ok(());
            assert(run_trace(*old(self), *self, rr, trace));
        }
        Ok(())
    }

    /// Execute one instruction, per the loop's discipline: a halted
    /// machine does nothing; a missing program or an out-of-range counter
    /// is an error; `Halt` counts as executed and halts the machine
    /// without being dispatched or profiled; anything else is recorded by
    /// the profiler when one is enabled, then dispatched, and the counter
    /// advances by one unless the opcode set it itself.
    pub fn step(&mut self) -> (r: Result<(), VmError>)
        requires
            old(self).wf(),
            old(self).dispatcher.instruction_count < u64::MAX,
        ensures
            final(self).wf(),
            step_rel(*old(self), *final(self), r),
    {
        if self.halted {
            return Ok(());
        }
        if self.program.len() == 0 {
            return Err(VmError::NoProgram);
        }
        let pc = self.dispatcher.current_pc();
        if pc >= self.program.len() {
            return Err(VmError::ProgramCounterOutOfBounds(pc, self.program.len()));
        }
        let instruction = self.program[pc].clone();
        if matches!(instruction.opcode(), Opcode::Halt) {
            self.dispatcher.instruction_count = self.dispatcher.instruction_count + 1;
            self.halted = true;
            return Ok(());
        }
        match &mut self.profiler {
            Some(profiler) => {
                profiler.record_instruction_execution(pc, instruction.opcode());
            },
            None => {},
        }
        let dispatch = self.dispatcher.execute_with_constants(
            &instruction,
            &mut self.operand_stack,
            &mut self.call_stack,
            self.constants.as_slice(),
            &mut self.heap,
        );
        let advance = !matches!(
            instruction.opcode(),
            Opcode::Jump | Opcode::JumpIfTrue | Opcode::JumpIfFalse | Opcode::Call
                | Opcode::Return,
        );
        if advance {
            self.dispatcher.set_pc(pc + 1);
        }
        match dispatch {
            Ok(u) => Ok(u),
            Err(e) => Err(VmError::ExecutionError(e)),
        }
    }

    /// The operand stack's depth.
    pub fn stack_size(&self) -> (r: usize)
        ensures
            r == self.operand_stack.values@.len(),
    {
        self.operand_stack.size()
    }

    /// The call stack's depth.
    pub fn call_depth(&self) -> (r: usize)
        ensures
            r == self.call_stack.frames@.len(),
    {
        self.call_stack.depth()
    }

    /// The current program counter.
    pub fn program_counter(&self) -> (r: usize)
        ensures
            r == self.dispatcher.program_counter,
    {
        self.dispatcher.current_pc()
    }

    /// Whether the machine has executed a `Halt`.
    pub fn is_halted(&self) -> (r: bool)
        ensures
            r == self.halted,
    {
        self.halted
    }

    /// Borrow the top of the operand stack; an empty stack is an error.
    pub fn stack_top(&self) -> (r: Result<&Value, VmError>)
        ensures
            self.operand_stack.values@.len() > 0 ==> (r matches Ok(v) && *v
                == self.operand_stack.values@.last()),
            self.operand_stack.values@.len() == 0 ==> (r matches Err(
                VmError::ExecutionError(ExecutionError::StackError(StackError::Underflow)),
            )),
    {
        match self.operand_stack.peek() {
            Ok(v) => Ok(v),
            Err(e) => Err(VmError::ExecutionError(ExecutionError::StackError(e))),
        }
    }

    /// The number of instructions dispatched since the last reset.
    pub fn instruction_count(&self) -> (r: u64)
        ensures
            r == self.dispatcher.instruction_count,
    {
        self.dispatcher.instruction_count()
    }

    /// The installed program's length.
    pub fn program_length(&self) -> (r: usize)
        ensures
            r == self.program@.len(),
    {
        self.program.len()
    }

    /// The constants pool's size.
    pub fn constants_pool_size(&self) -> (r: usize)
        ensures
            r == self.constants@.len(),
    {
        self.constants.len()
    }

    /// Borrow the constant at `index`; out of range is an error.
    pub fn get_constant(&self, index: usize) -> (r: Result<&Value, VmError>)
        ensures
            index < self.constants@.len() ==> (r matches Ok(v) && *v == self.constants@[
                index as int
            ]),
            index >= self.constants@.len() ==> (r matches Err(VmError::InvalidProgramState(_))),
    {
        if index < self.constants.len() {
            Ok(&self.constants[index])
        } else {
            Err(VmError::InvalidProgramState("Constant index out of bounds".to_owned()))
        }
    }

    /// The heap's live-object count.
    pub fn heap_allocated_objects(&self) -> (r: usize)
        ensures
            r == self.heap.allocated_objects,
    {
        self.heap.allocated_objects()
    }

    /// The heap's cumulative allocated bytes.
    pub fn heap_total_bytes(&self) -> (r: usize)
        ensures
            r == self.heap.total_allocated_bytes,
    {
        self.heap.total_allocated_bytes()
    }

    /// Invoke the conservative collection hook with an empty root set.
    pub fn trigger_gc(&mut self) -> (r: usize)
        requires
            old(self).wf(),
        ensures
            final(self).wf(),
            old(self).heap.allocated_objects == 0 ==> r == 0 && final(self).heap == old(self).heap,
            old(self).heap.allocated_objects > 0 ==> r == 1 && final(self).heap.allocated_objects
                == old(self).heap.allocated_objects - 1,
            *final(self) == (VirtualMachine { heap: final(self).heap, ..*old(self) }),
    {
        let roots: [&crate::value::GcPtr<String>; 0] = [];
        self.heap.collect_garbage(&roots)
    }

    /// The operand stack's contents; introspection is not offered in this
    /// tier, so the answer is empty.
    pub fn stack_contents(&self) -> (r: Vec<Value>)
        ensures
            r@ == Seq::<Value>::empty(),
    {
        Vec::new()
    }

    /// Borrow the instruction at the current counter, if it is in range.
    pub fn current_instruction(&self) -> (r: Option<&Instruction>)
        ensures
            match r {
                Some(i) => self.dispatcher.program_counter < self.program@.len() && *i
                    == self.program@[self.dispatcher.program_counter as int],
                None => self.dispatcher.program_counter >= self.program@.len(),
            },
    {
        let pc = self.dispatcher.current_pc();
        if pc < self.program.len() {
            Some(&self.program[pc])
        } else {
            None
        }
    }

    /// Attach a fresh profiler.
    pub fn enable_profiling(&mut self)
        ensures
            final(self).profiler matches Some(p) && p.is_clear() && p.wf(),
            *final(self) == (VirtualMachine { profiler: final(self).profiler, ..*old(self) }),
    {
        self.profiler = Some(HotSpotProfiler::new());
    }

    /// Detach the profiler, discarding its data.
    pub fn disable_profiling(&mut self)
        ensures
            *final(self) == (VirtualMachine { profiler: None, ..*old(self) }),
    {
        self.profiler = None;
    }

    /// Whether a profiler is attached.
    pub fn is_profiling_enabled(&self) -> (r: bool)
        ensures
            r == (self.profiler is Some),
    {
        matches!(&self.profiler, Some(_))
    }

    /// Borrow the attached profiler, if any.
    pub fn get_profiler(&self) -> (r: Option<&HotSpotProfiler>)
        ensures
            match r {
                Some(p) => self.profiler matches Some(q) && *p == q,
                None => self.profiler is None,
            },
    {
        match &self.profiler {
            Some(p) => Some(p),
            None => None,
        }
    }

    /// Mutably borrow the attached profiler, if any.
    pub fn get_profiler_mut(&mut self) -> (r: Option<&mut HotSpotProfiler>)
        ensures
            match r {
                Some(p) => old(self).profiler matches Some(q) && *p == q && final(self).profiler
                    == Some(*final(p)) && *final(self) == (VirtualMachine {
                    profiler: final(self).profiler,
                    ..*old(self)
                }),
                None => old(self).profiler is None && *final(self) == *old(self),
            },
    {
        match &mut self.profiler {
            Some(p) => Some(p),
            None => None,
        }
    }

    /// Clear the attached profiler's data, if one is attached.
    pub fn reset_profiler(&mut self)
        requires
            old(self).wf(),
        ensures
            final(self).wf(),
            old(self).profiler is None ==> *final(self) == *old(self),
            old(self).profiler matches Some(p0) ==> final(self).profiler matches Some(p1)
                && p1.is_clear() && p1.function_threshold == p0.function_threshold
                && p1.loop_threshold == p0.loop_threshold && *final(self) == (VirtualMachine {
                profiler: final(self).profiler,
                ..*old(self)
            }),
    {
        match &mut self.profiler {
            Some(profiler) => {
                profiler.reset();
            },
            None => {},
        }
    }
}

impl Default for VirtualMachine {
    fn default() -> (r: Self)
        ensures
            r.wf(),
            r.program@ == Seq::<Instruction>::empty(),
            r.profiler is None,
            !r.halted,
            r.max_instructions == DEFAULT_MAX_INSTRUCTIONS,
    {
        Self::new()
    }
}

} // verus!
