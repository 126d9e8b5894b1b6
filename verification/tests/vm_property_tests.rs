use stack_vm_jit::instruction::{Instruction, Opcode};
use stack_vm_jit::profiler::HotSpotProfiler;
use stack_vm_jit::runtime::{VirtualMachine, VmError};
use stack_vm_jit::value::Value;
use stack_vm_jit::heap::Heap;

#[test]
fn test_arithmetic_scenario() {
    // Push 5; Push 3; Add; Push 2; Mul; Halt => top = Integer(16).
    let program = vec![
        Instruction::new(Opcode::Push, Some(Value::Integer(5))),
        Instruction::new(Opcode::Push, Some(Value::Integer(3))),
        Instruction::new(Opcode::Add, None),
        Instruction::new(Opcode::Push, Some(Value::Integer(2))),
        Instruction::new(Opcode::Mul, None),
        Instruction::new(Opcode::Halt, None),
    ];

    let mut vm = VirtualMachine::new();
    vm.load_program(program);
    vm.run().unwrap();

    assert_eq!(vm.stack_top().unwrap(), &Value::Integer(16));
    // All six instructions count as executed, the final Halt included.
    assert_eq!(vm.instruction_count(), 6);
    // The machine halts with the counter on the Halt instruction.
    assert!(vm.is_halted());
    assert_eq!(vm.program_counter(), 5);
}

#[test]
fn test_mixed_expression_with_constants_pool() {
    // constants [15, 25, 2]; (15 + 25) / 2 = 20.
    let constants = vec![Value::Integer(15), Value::Integer(25), Value::Integer(2)];
    let instructions = vec![
        Instruction::new(Opcode::Push, Some(Value::Integer(0))),
        Instruction::new(Opcode::Push, Some(Value::Integer(1))),
        Instruction::new(Opcode::Add, None),
        Instruction::new(Opcode::Push, Some(Value::Integer(2))),
        Instruction::new(Opcode::Div, None),
        Instruction::new(Opcode::Halt, None),
    ];

    let mut vm = VirtualMachine::new();
    vm.load_bytecode_module(instructions, constants).unwrap();
    vm.run().unwrap();

    assert_eq!(vm.stack_top().unwrap(), &Value::Integer(20));
}

#[test]
fn test_conditional_branch_scenario() {
    // Push 3; Push 5; LessThan; JumpIfTrue 6; Push 100; Halt; Push 200; Halt
    // => top = Integer(200).
    let program = vec![
        Instruction::new(Opcode::Push, Some(Value::Integer(3))),
        Instruction::new(Opcode::Push, Some(Value::Integer(5))),
        Instruction::new(Opcode::LessThan, None),
        Instruction::new(Opcode::JumpIfTrue, Some(Value::Integer(6))),
        Instruction::new(Opcode::Push, Some(Value::Integer(100))),
        Instruction::new(Opcode::Halt, None),
        Instruction::new(Opcode::Push, Some(Value::Integer(200))),
        Instruction::new(Opcode::Halt, None),
    ];

    let mut vm = VirtualMachine::new();
    vm.load_program(program);
    vm.run().unwrap();

    assert_eq!(vm.stack_top().unwrap(), &Value::Integer(200));
}

#[test]
fn test_call_return_scenario() {
    // Call 2; Halt; Push 42; Return => top = Integer(42); call depth 0.
    let program = vec![
        Instruction::new(Opcode::Call, Some(Value::Integer(2))),
        Instruction::new(Opcode::Halt, None),
        Instruction::new(Opcode::Push, Some(Value::Integer(42))),
        Instruction::new(Opcode::Return, None),
    ];

    let mut vm = VirtualMachine::new();
    vm.load_program(program);
    vm.run().unwrap();

    assert_eq!(vm.stack_top().unwrap(), &Value::Integer(42));
    assert_eq!(vm.call_depth(), 0);
}

#[test]
fn test_quota_scenario() {
    // Jump 0 with max_instructions = 5 => InvalidProgramState; count >= 5.
    let program = vec![Instruction::new(Opcode::Jump, Some(Value::Integer(0)))];

    let mut vm = VirtualMachine::with_max_instructions(5);
    vm.load_program(program);
    let result = vm.run();

    assert!(matches!(result, Err(VmError::InvalidProgramState(_))));
    assert!(vm.instruction_count() >= 5);
}

#[test]
fn test_profiler_scenario() {
    // Running any program with the profiler enabled produces a non-empty
    // hot-instruction list and an export whose re-import restores the
    // function and loop counts.
    let program = vec![
        Instruction::new(Opcode::Push, Some(Value::Integer(1))),
        Instruction::new(Opcode::Pop, None),
        Instruction::new(Opcode::Halt, None),
    ];

    let mut vm = VirtualMachine::new();
    vm.enable_profiling();
    vm.load_program(program);
    vm.run().unwrap();

    // The profiler survives a program load and records every dispatched
    // instruction.
    let profiler = vm.get_profiler_mut().unwrap();
    profiler.record_function_entry(7);
    profiler.record_loop_iteration(3);
    assert!(!profiler.get_hot_instructions(1).is_empty());

    let exported = profiler.export_profile_data();

    let mut restored = HotSpotProfiler::new();
    restored.import_profile_data(&exported).unwrap();
    assert_eq!(restored.get_function_count(7), 1);
    assert_eq!(restored.get_loop_count(3), 1);
}

#[test]
fn test_profile_export_exact_text() {
    let mut profiler = HotSpotProfiler::new();
    profiler.record_function_entry(1);
    profiler.record_function_entry(1);
    profiler.record_loop_iteration(5);
    profiler.record_type_observation(10, &Value::Integer(42));
    profiler.record_branch_taken(15, true);
    profiler.record_branch_taken(15, false);
    profiler.record_branch_taken(15, true);

    let exported = profiler.export_profile_data();
    let expected = "{\"function_counts\":{\"1\":2},\"loop_counts\":{\"5\":1},\"type_profiles\":{\"10\":{\"integer\":1}},\"branch_profiles\":{\"15\":[2,1]}}";
    assert_eq!(exported.as_str(), expected);
}

#[test]
fn test_profile_export_import_export_round_trip() {
    let mut profiler = HotSpotProfiler::new();
    for i in 0..20 {
        profiler.record_function_entry(i % 3);
        profiler.record_loop_iteration(i % 4);
        profiler.record_type_observation(2, &Value::Boolean(true));
        profiler.record_type_observation(2, &Value::Null);
        profiler.record_branch_taken(9, i % 2 == 0);
    }

    let first = profiler.export_profile_data();

    let mut imported = HotSpotProfiler::new();
    imported.import_profile_data(&first).unwrap();
    let second = imported.export_profile_data();

    assert_eq!(second, first);

    // Queries after the import match the original counters.
    assert_eq!(imported.get_function_count(0), profiler.get_function_count(0));
    assert_eq!(imported.get_loop_count(1), profiler.get_loop_count(1));
    let tp = imported.get_type_profile(2).unwrap();
    assert_eq!(tp.get_type_frequency("boolean"), 20);
    assert_eq!(tp.get_type_frequency("null"), 20);
    assert_eq!(tp.total_observations(), 40);
    let bp = imported.get_branch_profile(9).unwrap();
    assert_eq!(bp.taken_count(), 10);
    assert_eq!(bp.not_taken_count(), 10);
}

#[test]
fn test_profile_import_rejects_invalid_data() {
    let mut profiler = HotSpotProfiler::new();
    profiler.record_function_entry(4);

    let result = profiler.import_profile_data("not a profile document");
    assert!(result.is_err());

    // Invalid data must not disturb the existing state.
    assert_eq!(profiler.get_function_count(4), 1);
    assert_eq!(profiler.total_executions(), 1);
}

#[test]
fn test_weak_reference_ids() {
    let mut heap = Heap::new();
    let a = heap.allocate_string("first".to_string()).unwrap();
    let b = heap.allocate_string("second".to_string()).unwrap();

    // Object ids are fresh and stable.
    assert_ne!(a.object_id(), b.object_id());

    let weak = heap.create_weak_reference(&b);
    let upgraded = weak.upgrade().unwrap();
    assert_eq!(upgraded.object_id(), b.object_id());
    assert_eq!(upgraded.as_str(), "second");
}

#[test]
fn test_equal_and_not_equal_on_values() {
    let program = vec![
        Instruction::new(Opcode::Push, Some(Value::Integer(3))),
        Instruction::new(Opcode::Push, Some(Value::Integer(3))),
        Instruction::new(Opcode::Equal, None),
        Instruction::new(Opcode::Push, Some(Value::Integer(3))),
        Instruction::new(Opcode::Push, Some(Value::Boolean(true))),
        Instruction::new(Opcode::NotEqual, None),
        Instruction::new(Opcode::And, None),
        Instruction::new(Opcode::Halt, None),
    ];

    let mut vm = VirtualMachine::new();
    vm.load_program(program);
    vm.run().unwrap();

    // 3 == 3, and 3 != true (different tags), so the conjunction is true.
    assert_eq!(vm.stack_top().unwrap(), &Value::Boolean(true));
}

#[test]
fn test_comparison_matches_mathematics() {
    // For each ordering opcode, the result equals the mathematical
    // comparison of the two pushed integers.
    let cases: Vec<(Opcode, i64, i64, bool)> = vec![
        (Opcode::LessThan, 3, 5, true),
        (Opcode::LessThan, 5, 3, false),
        (Opcode::LessEqual, 4, 4, true),
        (Opcode::LessEqual, 5, 4, false),
        (Opcode::GreaterThan, 9, -2, true),
        (Opcode::GreaterThan, -2, 9, false),
        (Opcode::GreaterEqual, 7, 7, true),
        (Opcode::GreaterEqual, 6, 7, false),
        (Opcode::Equal, 8, 8, true),
        (Opcode::Equal, 8, 9, false),
        (Opcode::NotEqual, 8, 9, true),
        (Opcode::NotEqual, 8, 8, false),
    ];

    for (op, a, b, expected) in cases {
        let program = vec![
            Instruction::new(Opcode::Push, Some(Value::Integer(a))),
            Instruction::new(Opcode::Push, Some(Value::Integer(b))),
            Instruction::new(op, None),
            Instruction::new(Opcode::Halt, None),
        ];
        let mut vm = VirtualMachine::new();
        vm.load_program(program);
        vm.run().unwrap();
        assert_eq!(vm.stack_top().unwrap(), &Value::Boolean(expected));
    }
}

#[test]
fn test_arithmetic_keeps_integers_integral() {
    // Integer operands produce integer results for every arithmetic opcode.
    let cases: Vec<(Opcode, i64, i64, i64)> = vec![
        (Opcode::Add, 5, 3, 8),
        (Opcode::Sub, 5, 3, 2),
        (Opcode::Mul, 5, 3, 15),
        (Opcode::Div, 7, 2, 3),
        (Opcode::Mod, 7, 2, 1),
    ];

    for (op, a, b, expected) in cases {
        let program = vec![
            Instruction::new(Opcode::Push, Some(Value::Integer(a))),
            Instruction::new(Opcode::Push, Some(Value::Integer(b))),
            Instruction::new(op, None),
            Instruction::new(Opcode::Halt, None),
        ];
        let mut vm = VirtualMachine::new();
        vm.load_program(program);
        vm.run().unwrap();
        assert_eq!(vm.stack_top().unwrap(), &Value::Integer(expected));
    }
}
