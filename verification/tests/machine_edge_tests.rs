use stack_vm_jit::frame::CallStack;
use stack_vm_jit::instruction::{ExecutionError, Instruction, InstructionDispatcher, Opcode};
use stack_vm_jit::profiler::HotSpotProfiler;
use stack_vm_jit::runtime::{VirtualMachine, VmError};
use stack_vm_jit::stack::OperandStack;
use stack_vm_jit::value::Value;
use stack_vm_jit::heap::Heap;
use stack_vm_jit::value::{GcPtr, Object};
use std::sync::Arc;

#[test]
fn test_jump_beyond_program_end() {
    // A non-negative target past the end leaves the counter there; the
    // next step reports it out of bounds.
    let program = vec![
        Instruction::new(Opcode::Jump, Some(Value::Integer(40))),
        Instruction::new(Opcode::Halt, None),
    ];

    let mut vm = VirtualMachine::new();
    vm.load_program(program);
    let result = vm.run();

    assert!(matches!(result, Err(VmError::ProgramCounterOutOfBounds(40, 2))));
}

#[test]
fn test_new_object_requires_heap_entry_point() {
    // The dispatcher entry point without a heap rejects NewObject.
    let mut dispatcher = InstructionDispatcher::new();
    let mut stack = OperandStack::new();
    let mut call_stack = CallStack::new();

    let instr = Instruction::new(Opcode::NewObject, None);
    let result = dispatcher.execute(&instr, &mut stack, &mut call_stack);

    assert!(matches!(result, Err(ExecutionError::InvalidOperand(_))));
    assert_eq!(stack.size(), 0);
}

#[test]
fn test_return_with_empty_call_stack() {
    let program = vec![
        Instruction::new(Opcode::Return, None),
        Instruction::new(Opcode::Halt, None),
    ];

    let mut vm = VirtualMachine::new();
    vm.load_program(program);
    let result = vm.run();

    assert!(matches!(
        result,
        Err(VmError::ExecutionError(ExecutionError::CallFrameError(_)))
    ));
}

#[test]
fn test_current_instruction_tracks_counter() {
    let program = vec![
        Instruction::new(Opcode::Push, Some(Value::Integer(9))),
        Instruction::new(Opcode::Halt, None),
    ];

    let mut vm = VirtualMachine::new();
    vm.load_program(program);

    assert_eq!(vm.current_instruction().unwrap().opcode(), Opcode::Push);
    vm.step().unwrap();
    assert_eq!(vm.current_instruction().unwrap().opcode(), Opcode::Halt);
}

#[test]
fn test_stack_and_frame_bounds_accessors() {
    let stack = OperandStack::with_capacity(16);
    assert_eq!(stack.max_size(), Some(16));

    let unbounded = OperandStack::new();
    assert_eq!(unbounded.max_size(), None);

    let frames = CallStack::new();
    assert_eq!(frames.max_depth(), 10_000);

    let shallow = CallStack::with_max_depth(3);
    assert_eq!(shallow.max_depth(), 3);
}

#[test]
fn test_profiler_toggling() {
    let mut vm = VirtualMachine::new();
    assert!(!vm.is_profiling_enabled());
    assert!(vm.get_profiler().is_none());

    vm.enable_profiling();
    assert!(vm.is_profiling_enabled());
    assert!(vm.get_profiler().is_some());

    vm.disable_profiling();
    assert!(!vm.is_profiling_enabled());
}

#[test]
fn test_reset_profiler_keeps_thresholds() {
    let mut profiler = HotSpotProfiler::with_thresholds(2, 3);
    for _ in 0..5 {
        profiler.record_function_entry(1);
        profiler.record_loop_iteration(4);
    }
    assert_eq!(profiler.hot_functions(), vec![1]);
    assert_eq!(profiler.hot_loops(), vec![4]);

    profiler.reset();
    assert!(profiler.hot_functions().is_empty());
    assert!(profiler.hot_loops().is_empty());

    // The thresholds survive the reset.
    profiler.record_function_entry(1);
    profiler.record_function_entry(1);
    assert_eq!(profiler.hot_functions(), vec![1]);
}

#[test]
fn test_empty_profile_document_round_trip() {
    let profiler = HotSpotProfiler::new();
    let doc = profiler.export_profile_data();
    assert_eq!(
        doc.as_str(),
        "{\"function_counts\":{},\"loop_counts\":{},\"type_profiles\":{},\"branch_profiles\":{}}",
    );

    let mut restored = HotSpotProfiler::new();
    restored.import_profile_data(&doc).unwrap();
    assert_eq!(restored.export_profile_data(), doc);
}

#[test]
fn test_import_rejects_trailing_text() {
    let profiler = HotSpotProfiler::new();
    let mut doc = profiler.export_profile_data();
    doc.push(' ');

    let mut target = HotSpotProfiler::new();
    assert!(target.import_profile_data(&doc).is_err());
}

#[test]
fn test_call_at_depth_ceiling_fails() {
    // A Call with the call stack at its depth bound is an error, and the
    // machine's depth never exceeds the bound.
    let mut dispatcher = InstructionDispatcher::new();
    let mut stack = OperandStack::new();
    let mut call_stack = CallStack::with_max_depth(2);

    let call = Instruction::new(Opcode::Call, Some(Value::Integer(0)));
    dispatcher.execute(&call, &mut stack, &mut call_stack).unwrap();
    dispatcher.execute(&call, &mut stack, &mut call_stack).unwrap();
    assert_eq!(call_stack.depth(), 2);

    let result = dispatcher.execute(&call, &mut stack, &mut call_stack);
    assert!(matches!(result, Err(ExecutionError::CallFrameError(_))));
    assert_eq!(call_stack.depth(), 2);
}

#[test]
fn test_non_integer_jump_and_call_operands() {
    // A present operand of the wrong shape is an invalid operand; an
    // absent one is a missing operand.
    let mut dispatcher = InstructionDispatcher::new();
    let mut stack = OperandStack::new();
    let mut call_stack = CallStack::new();

    let jump = Instruction::new(Opcode::Jump, Some(Value::Boolean(true)));
    let result = dispatcher.execute(&jump, &mut stack, &mut call_stack);
    assert!(matches!(result, Err(ExecutionError::InvalidOperand(_))));

    let call = Instruction::new(Opcode::Call, Some(Value::String("f".to_string())));
    let result = dispatcher.execute(&call, &mut stack, &mut call_stack);
    assert!(matches!(result, Err(ExecutionError::InvalidOperand(_))));

    let jump_absent = Instruction::new(Opcode::Jump, None);
    let result = dispatcher.execute(&jump_absent, &mut stack, &mut call_stack);
    assert!(matches!(result, Err(ExecutionError::InsufficientOperands)));
}

#[test]
fn test_object_equality_ignores_field_order() {
    // Two handles to the same allocation id whose field lists carry the
    // same mapping in different orders compare equal: an object's payload
    // is a mapping, not a list.
    let mut first = Object::new();
    first.set_field("a".to_string(), Value::Integer(1));
    first.set_field("b".to_string(), Value::Integer(2));
    let mut second = Object::new();
    second.set_field("b".to_string(), Value::Integer(2));
    second.set_field("a".to_string(), Value::Integer(1));

    let left = Value::GcObject(GcPtr { inner: Arc::new(first), object_id: 7 });
    let right = Value::GcObject(GcPtr { inner: Arc::new(second), object_id: 7 });
    assert_eq!(left, right);

    // A differing field value still separates them.
    let mut third = Object::new();
    third.set_field("a".to_string(), Value::Integer(1));
    third.set_field("b".to_string(), Value::Integer(3));
    let other = Value::GcObject(GcPtr { inner: Arc::new(third), object_id: 7 });
    assert_ne!(left, other);
}

#[test]
fn test_gc_string_values_on_stack() {
    let mut heap = Heap::new();
    let handle = heap.allocate_string("shared".to_string()).unwrap();
    let value = Value::GcString(handle);

    assert_eq!(value.type_label(), "gc_string");
    assert!(value.is_truthy());

    let program = vec![
        Instruction::new(Opcode::Push, Some(value.clone())),
        Instruction::new(Opcode::Push, Some(value)),
        Instruction::new(Opcode::Equal, None),
        Instruction::new(Opcode::Halt, None),
    ];

    let mut vm = VirtualMachine::new();
    vm.load_program(program);
    vm.run().unwrap();

    // Two copies of the same handle compare equal.
    assert_eq!(vm.stack_top().unwrap(), &Value::Boolean(true));
}
