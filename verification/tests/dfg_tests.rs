use ssa_dfg::call_stack::Location;
use ssa_dfg::dfg::{DataFlowGraph, InsertInstructionResult};
use ssa_dfg::instruction::{BinaryOp, Instruction, SimplifyResult, TerminatorInstruction};
use ssa_dfg::types::{NumericType, Type};
use ssa_dfg::value::Value;

#[test]
fn make_instruction() {
    let mut dfg = DataFlowGraph::default();
    let ins = Instruction::Allocate;
    let ins_id = dfg.make_instruction(ins, Some(vec![Type::field()]));

    let results = dfg.instruction_results(ins_id);
    assert_eq!(results.len(), 1);
}

#[test]
fn constants_are_canonical() {
    let mut dfg = DataFlowGraph::default();
    let a = dfg.make_constant(7, NumericType::NativeField);
    let b = dfg.make_constant(7, NumericType::NativeField);
    let c = dfg.make_constant(7, NumericType::Unsigned { bit_size: 32 });
    let d = dfg.make_constant(8, NumericType::NativeField);
    assert_eq!(a, b);
    assert_ne!(a, c);
    assert_ne!(a, d);
    assert_ne!(c, d);
    // A later request for an already canonical pair still returns the same id.
    assert_eq!(dfg.make_constant(8, NumericType::NativeField), d);
}

#[test]
fn imports_are_canonical() {
    let mut dfg = DataFlowGraph::default();
    let f1 = dfg.import_function(5);
    let f2 = dfg.import_function(5);
    let f3 = dfg.import_function(6);
    assert_eq!(f1, f2);
    assert_ne!(f1, f3);

    let i1 = dfg.import_intrinsic(2);
    let i2 = dfg.import_intrinsic(2);
    assert_eq!(i1, i2);
    assert_eq!(dfg.get_intrinsic(2), Some(i1));
    assert_eq!(dfg.get_intrinsic(9), None);

    let g1 = dfg.import_foreign_function("sha256");
    let g2 = dfg.import_foreign_function("sha256");
    let g3 = dfg.import_foreign_function("keccak");
    assert_eq!(g1, g2);
    assert_ne!(g1, g3);
}

#[test]
fn resolve_follows_substitutions_to_a_fixed_point() {
    let mut dfg = DataFlowGraph::default();
    let a = dfg.make_constant(1, NumericType::NativeField);
    let b = dfg.make_constant(2, NumericType::NativeField);
    let c = dfg.make_constant(3, NumericType::NativeField);
    assert_eq!(dfg.resolve(a), a);
    dfg.set_value_from_id(a, b);
    dfg.set_value_from_id(b, c);
    assert_eq!(dfg.resolve(a), c);
    assert_eq!(dfg.resolve(b), c);
    assert_eq!(dfg.resolve(c), c);
    // The overwritten record now reads as the resolved value's record.
    assert_eq!(
        *dfg.value(a),
        Value::NumericConstant { constant: 2, typ: NumericType::NativeField }
    );
    assert_eq!(
        *dfg.value(b),
        Value::NumericConstant { constant: 3, typ: NumericType::NativeField }
    );
    // Substituting a value by itself changes nothing.
    dfg.set_value_from_id(c, c);
    assert_eq!(dfg.resolve(c), c);
}

#[test]
fn unknown_result_type_takes_the_supplied_types() {
    let mut dfg = DataFlowGraph::default();
    let f = dfg.import_function(0);
    let call = Instruction::Call { func: f, arguments: vec![] };
    let types = vec![Type::field(), Type::unsigned(32)];
    let ins_id = dfg.make_instruction(call, Some(types));
    let results = dfg.instruction_results(ins_id).clone();
    assert_eq!(results.len(), 2);
    assert_eq!(dfg.type_of_value(results[0]), Type::field());
    assert_eq!(dfg.type_of_value(results[1]), Type::unsigned(32));
    match dfg.value(results[0]) {
        Value::Instruction { instruction, position, .. } => {
            assert_eq!(*instruction, ins_id);
            assert_eq!(*position, 0);
        }
        other => panic!("expected an instruction result, got {:?}", other),
    }
    match dfg.value(results[1]) {
        Value::Instruction { position, .. } => assert_eq!(*position, 1),
        other => panic!("expected an instruction result, got {:?}", other),
    }
}

#[test]
fn block_parameters_are_appended_in_order() {
    let mut dfg = DataFlowGraph::default();
    let block = dfg.make_block();
    let p0 = dfg.add_block_parameter(block, Type::field());
    let p1 = dfg.add_block_parameter(block, Type::unsigned(32));
    let params = dfg.block_parameters(block).clone();
    assert_eq!(params, vec![p0, p1]);
    assert_eq!(dfg.type_of_value(p0), Type::field());
    assert_eq!(dfg.type_of_value(p1), Type::unsigned(32));
    match dfg.value(p0) {
        Value::Param { block: b, position, .. } => {
            assert_eq!(*b, block);
            assert_eq!(*position, 0);
        }
        other => panic!("expected a parameter, got {:?}", other),
    }
    match dfg.value(p1) {
        Value::Param { position, .. } => assert_eq!(*position, 1),
        other => panic!("expected a parameter, got {:?}", other),
    }
}

#[test]
fn block_with_parameters_from_block_mirrors_types() {
    let mut dfg = DataFlowGraph::default();
    let source = dfg.make_block();
    dfg.add_block_parameter(source, Type::field());
    dfg.add_block_parameter(source, Type::bool());
    let copy = dfg.make_block_with_parameters_from_block(source);
    assert_ne!(source, copy);
    let source_params = dfg.block_parameters(source).clone();
    let copy_params = dfg.block_parameters(copy).clone();
    assert_eq!(copy_params.len(), 2);
    assert_ne!(source_params[0], copy_params[0]);
    assert_ne!(source_params[1], copy_params[1]);
    assert_eq!(dfg.type_of_value(copy_params[0]), Type::field());
    assert_eq!(dfg.type_of_value(copy_params[1]), Type::bool());
    assert_eq!(dfg.block(copy).instructions.len(), 0);
    assert!(dfg.block(copy).terminator.is_none());
}

fn insert_plain(dfg: &mut DataFlowGraph, ins: Instruction, block: usize) -> usize {
    match dfg.insert_instruction_and_results(ins, block, None, 0, SimplifyResult::Unchanged) {
        InsertInstructionResult::Results(id, _) => id,
        other => panic!("expected an insertion, got {:?}", other),
    }
}

#[test]
fn inline_block_moves_code_and_terminator() {
    let mut dfg = DataFlowGraph::default();
    let a = dfg.make_block();
    let b = dfg.make_block();
    let c0 = dfg.make_constant(1, NumericType::NativeField);
    let c1 = dfg.make_constant(2, NumericType::NativeField);
    let in_b = insert_plain(&mut dfg, Instruction::Constrain(c0, c1), b);
    let in_a1 = insert_plain(&mut dfg, Instruction::Constrain(c1, c0), a);
    let in_a2 = insert_plain(&mut dfg, Instruction::Constrain(c0, c0), a);
    let ret = TerminatorInstruction::Return { return_values: vec![c0] };
    dfg.set_block_terminator(a, ret.clone());
    dfg.set_block_terminator(b, TerminatorInstruction::Jmp { destination: a, arguments: vec![] });

    dfg.inline_block(a, b);

    assert_eq!(dfg.block(a).instructions.len(), 0);
    assert!(dfg.block(a).terminator.is_none());
    assert_eq!(dfg.block(b).instructions, vec![in_b, in_a1, in_a2]);
    assert_eq!(dfg.block(b).terminator, Some(ret));
}

#[test]
fn safe_index_needs_a_constant_below_the_length() {
    let mut dfg = DataFlowGraph::default();
    let block = dfg.make_block();
    let array_type = Type::Array(Box::new(Type::field()), 4);
    let array = dfg.add_block_parameter(block, array_type);
    let three = dfg.make_constant(3, NumericType::NativeField);
    let four = dfg.make_constant(4, NumericType::NativeField);
    let dynamic = dfg.add_block_parameter(block, Type::field());
    assert!(dfg.is_safe_index(three, array));
    assert!(!dfg.is_safe_index(four, array));
    assert!(!dfg.is_safe_index(dynamic, array));
    // A non-array value is never safely indexable.
    assert!(!dfg.is_safe_index(three, dynamic));
    assert_eq!(dfg.try_get_array_length(array), Some(4));
    assert_eq!(dfg.try_get_array_length(dynamic), None);
}

#[test]
fn array_constancy_is_recursive() {
    let mut dfg = DataFlowGraph::default();
    let block = dfg.make_block();
    let c1 = dfg.make_constant(1, NumericType::NativeField);
    let c2 = dfg.make_constant(2, NumericType::NativeField);
    let param = dfg.add_block_parameter(block, Type::field());

    let mut elements = im::Vector::new();
    elements.push_back(c1);
    elements.push_back(c2);
    let typ = Type::Array(Box::new(Type::field()), 2);
    let all_const = dfg.make_instruction(Instruction::MakeArray { elements, typ }, None);
    let all_const_value = dfg.instruction_results(all_const)[0];
    assert!(dfg.is_constant(all_const_value));

    let mut elements = im::Vector::new();
    elements.push_back(c1);
    elements.push_back(param);
    let typ = Type::Array(Box::new(Type::field()), 2);
    let with_param = dfg.make_instruction(Instruction::MakeArray { elements, typ }, None);
    let with_param_value = dfg.instruction_results(with_param)[0];
    assert!(!dfg.is_constant(with_param_value));

    assert!(dfg.is_constant(c1));
    assert!(!dfg.is_constant(param));
}

#[test]
fn constant_folding_scenario() {
    let mut dfg = DataFlowGraph::default();
    let block = dfg.make_block();
    let three = dfg.make_constant(3, NumericType::NativeField);
    let four = dfg.make_constant(4, NumericType::NativeField);
    // The pass folds 3 + 4 before asking for the insertion.
    let seven = dfg.make_constant(7, NumericType::NativeField);
    let addition = Instruction::Binary { operator: BinaryOp::Add, lhs: three, rhs: four };
    let outcome = dfg.insert_instruction_and_results(
        addition,
        block,
        None,
        0,
        SimplifyResult::SimplifiedTo(seven),
    );
    match &outcome {
        InsertInstructionResult::SimplifiedTo(value) => {
            assert_eq!(dfg.resolve(*value), dfg.make_constant(7, NumericType::NativeField));
        }
        other => panic!("expected a simplified outcome, got {:?}", other),
    }
    assert_eq!(outcome.len(), 1);
    assert_eq!(dfg.block(block).instructions.len(), 0);
    assert_eq!(dfg.num_instructions(), 0);
}

#[test]
fn insertion_without_simplification_appends() {
    let mut dfg = DataFlowGraph::default();
    let block = dfg.make_block();
    let three = dfg.make_constant(3, NumericType::NativeField);
    let four = dfg.make_constant(4, NumericType::NativeField);
    let addition = Instruction::Binary { operator: BinaryOp::Add, lhs: three, rhs: four };
    let outcome = dfg.insert_instruction_and_results(
        addition,
        block,
        None,
        0,
        SimplifyResult::Unchanged,
    );
    let (id, results) = match outcome {
        InsertInstructionResult::Results(id, results) => (id, results),
        other => panic!("expected an insertion, got {:?}", other),
    };
    assert_eq!(dfg.num_instructions(), 1);
    assert_eq!(dfg.block(block).instructions, vec![id]);
    assert_eq!(results.len(), 1);
    // A binary result takes its left operand's type.
    assert_eq!(dfg.type_of_value(results[0]), Type::field());
}

#[test]
fn removed_instructions_leave_no_trace() {
    let mut dfg = DataFlowGraph::default();
    let block = dfg.make_block();
    let outcome = dfg.insert_instruction_and_results(
        Instruction::Allocate,
        block,
        Some(vec![Type::field()]),
        0,
        SimplifyResult::Remove,
    );
    assert!(matches!(outcome, InsertInstructionResult::InstructionRemoved));
    assert_eq!(outcome.len(), 0);
    assert_eq!(dfg.num_instructions(), 0);
    assert_eq!(dfg.block(block).instructions.len(), 0);
}

#[test]
fn multiple_constrain_replacements_are_appended_in_order() {
    let mut dfg = DataFlowGraph::default();
    let block = dfg.make_block();
    let a = dfg.make_constant(1, NumericType::NativeField);
    let b = dfg.make_constant(2, NumericType::NativeField);
    let candidate = Instruction::Binary { operator: BinaryOp::Eq, lhs: a, rhs: b };
    let replacement = vec![Instruction::Constrain(a, b), Instruction::Constrain(b, a)];
    let outcome = dfg.insert_instruction_and_results(
        candidate,
        block,
        None,
        0,
        SimplifyResult::SimplifiedToInstructionMultiple(replacement),
    );
    let (id, results) = match outcome {
        InsertInstructionResult::Results(id, results) => (id, results),
        other => panic!("expected an insertion, got {:?}", other),
    };
    assert_eq!(dfg.num_instructions(), 2);
    assert_eq!(id, 1);
    assert!(results.is_empty());
    assert_eq!(dfg.block(block).instructions, vec![0, 1]);
}

#[test]
fn simplification_to_existing_values_inserts_nothing() {
    let mut dfg = DataFlowGraph::default();
    let block = dfg.make_block();
    let a = dfg.make_constant(1, NumericType::NativeField);
    let b = dfg.make_constant(2, NumericType::NativeField);
    let candidate = Instruction::Call { func: a, arguments: vec![] };
    let outcome = dfg.insert_instruction_and_results(
        candidate,
        block,
        Some(vec![Type::field(), Type::field()]),
        0,
        SimplifyResult::SimplifiedToMultiple(vec![a, b]),
    );
    assert_eq!(outcome.len(), 2);
    assert_eq!(outcome.index(0), a);
    assert_eq!(outcome.index(1), b);
    assert_eq!(dfg.num_instructions(), 0);
    assert_eq!(dfg.block(block).instructions.len(), 0);
}

#[test]
fn simplification_to_one_instruction_replaces_the_candidate() {
    let mut dfg = DataFlowGraph::default();
    let block = dfg.make_block();
    let a = dfg.make_constant(3, NumericType::NativeField);
    let b = dfg.make_constant(0, NumericType::NativeField);
    // The pass rewrites `a * b` into a negation-free simpler form; the graph
    // only applies the replacement it is handed.
    let candidate = Instruction::Binary { operator: BinaryOp::Mul, lhs: a, rhs: b };
    let replacement = Instruction::Not(b);
    let outcome = dfg.insert_instruction_and_results(
        candidate,
        block,
        None,
        0,
        SimplifyResult::SimplifiedToInstruction(replacement),
    );
    let (id, results) = match outcome {
        InsertInstructionResult::Results(id, results) => (id, results),
        other => panic!("expected an insertion, got {:?}", other),
    };
    assert_eq!(dfg.num_instructions(), 1);
    assert_eq!(dfg.block(block).instructions, vec![id]);
    assert_eq!(results.len(), 1);
    match dfg.instruction(id) {
        Instruction::Not(operand) => assert_eq!(*operand, b),
        _ => panic!("expected the replacement instruction"),
    }
}

#[test]
fn replace_result_splices_a_fresh_value() {
    let mut dfg = DataFlowGraph::default();
    let ins = dfg.make_instruction(Instruction::Allocate, Some(vec![Type::field()]));
    let old_result = dfg.instruction_results(ins)[0];
    let new_result = dfg.replace_result(ins, old_result);
    assert_ne!(old_result, new_result);
    assert_eq!(dfg.instruction_results(ins).clone(), vec![new_result]);
    assert_eq!(dfg.type_of_value(new_result), Type::field());
    match dfg.value(new_result) {
        Value::Instruction { instruction, position, .. } => {
            assert_eq!(*instruction, ins);
            assert_eq!(*position, 0);
        }
        other => panic!("expected an instruction result, got {:?}", other),
    }
}

#[test]
fn set_type_of_value_overwrites_the_type_slot() {
    let mut dfg = DataFlowGraph::default();
    let block = dfg.make_block();
    let param = dfg.add_block_parameter(block, Type::field());
    dfg.set_type_of_value(param, Type::unsigned(64));
    assert_eq!(dfg.type_of_value(param), Type::unsigned(64));

    let constant = dfg.make_constant(9, NumericType::NativeField);
    dfg.set_type_of_value(constant, Type::unsigned(8));
    assert_eq!(dfg.type_of_value(constant), Type::unsigned(8));
}

#[test]
fn max_num_bits_sees_through_casts() {
    let mut dfg = DataFlowGraph::default();
    let block = dfg.make_block();
    let wide = dfg.add_block_parameter(block, Type::unsigned(64));
    let cast = dfg.make_instruction(
        Instruction::Cast(wide, NumericType::Unsigned { bit_size: 8 }),
        None,
    );
    let narrowed = dfg.instruction_results(cast)[0];
    // The declared type narrowed to 8 bits, but the representation still
    // carries the 64-bit source range.
    assert_eq!(dfg.type_of_value(narrowed), Type::unsigned(8));
    assert_eq!(dfg.get_value_max_num_bits(narrowed), 64);
    assert_eq!(dfg.get_value_max_num_bits(wide), 64);
    // A constant needs exactly its own bits.
    let seven = dfg.make_constant(7, NumericType::NativeField);
    assert_eq!(dfg.get_value_max_num_bits(seven), 3);
    let zero = dfg.make_constant(0, NumericType::NativeField);
    assert_eq!(dfg.get_value_max_num_bits(zero), 0);
    let byte = dfg.make_constant(255, NumericType::Unsigned { bit_size: 8 });
    assert_eq!(dfg.get_value_max_num_bits(byte), 8);
    let carry = dfg.make_constant(256, NumericType::Unsigned { bit_size: 16 });
    assert_eq!(dfg.get_value_max_num_bits(carry), 9);
}

#[test]
fn numeric_constant_queries_resolve_first() {
    let mut dfg = DataFlowGraph::default();
    let block = dfg.make_block();
    let param = dfg.add_block_parameter(block, Type::field());
    let seven = dfg.make_constant(7, NumericType::NativeField);
    assert_eq!(dfg.get_numeric_constant(seven), Some(7));
    assert_eq!(
        dfg.get_numeric_constant_with_type(seven),
        Some((7, NumericType::NativeField))
    );
    assert_eq!(dfg.get_numeric_constant(param), None);
    // After substitution the parameter resolves to the constant.
    dfg.set_value_from_id(param, seven);
    assert_eq!(dfg.get_numeric_constant(param), Some(7));

    let zero = dfg.make_constant(0, NumericType::Unsigned { bit_size: 1 });
    assert!(dfg.is_constant_true(seven));
    assert!(!dfg.is_constant_true(zero));
    let other = dfg.add_block_parameter(block, Type::field());
    assert!(!dfg.is_constant_true(other));
}

#[test]
fn array_constants_are_shared_not_copied() {
    let mut dfg = DataFlowGraph::default();
    let c1 = dfg.make_constant(1, NumericType::NativeField);
    let c2 = dfg.make_constant(2, NumericType::NativeField);
    let mut elements = im::Vector::new();
    elements.push_back(c1);
    elements.push_back(c2);
    let typ = Type::Array(Box::new(Type::field()), 2);
    let ins = dfg.make_instruction(
        Instruction::MakeArray { elements, typ: typ.clone() },
        None,
    );
    let array_value = dfg.instruction_results(ins)[0];
    let (elements, element_type) = dfg.get_array_constant(array_value).unwrap();
    assert_eq!(elements.len(), 2);
    assert_eq!(elements.get(0), Some(&c1));
    assert_eq!(elements.get(1), Some(&c2));
    assert_eq!(element_type, typ);
    // A non-array value has no array constant.
    assert!(dfg.get_array_constant(c1).is_none());
}

#[test]
fn value_is_reference_inspects_the_type() {
    let mut dfg = DataFlowGraph::default();
    let block = dfg.make_block();
    let reference = dfg.add_block_parameter(block, Type::Reference(Box::new(Type::field())));
    let plain = dfg.add_block_parameter(block, Type::field());
    assert!(dfg.value_is_reference(reference));
    assert!(!dfg.value_is_reference(plain));
}

#[test]
fn call_stacks_accumulate_inlining_history() {
    let mut dfg = DataFlowGraph::default();
    let ins = dfg.make_instruction(Instruction::Allocate, Some(vec![Type::field()]));
    assert_eq!(dfg.get_instruction_call_stack_id(ins), 0);
    assert_eq!(dfg.get_instruction_call_stack(ins), vec![]);

    let first = Location { file: 1, span_start: 10, span_end: 20 };
    let second = Location { file: 2, span_start: 30, span_end: 40 };
    dfg.add_location_to_instruction(ins, first);
    dfg.add_location_to_instruction(ins, second);
    assert_eq!(dfg.get_instruction_call_stack(ins), vec![first, second]);

    let id = dfg.get_instruction_call_stack_id(ins);
    assert_eq!(dfg.get_call_stack(id), vec![first, second]);

    let result = dfg.instruction_results(ins)[0];
    assert_eq!(dfg.get_value_call_stack_id(result), id);
    assert_eq!(dfg.get_value_call_stack(result), vec![first, second]);
    let constant = dfg.make_constant(3, NumericType::NativeField);
    assert_eq!(dfg.get_value_call_stack(constant), vec![]);
}

#[test]
fn insertion_outcome_accessors() {
    let simplified = InsertInstructionResult::SimplifiedTo(4);
    assert_eq!(simplified.len(), 1);
    assert_eq!(simplified.first(), 4);
    assert_eq!(simplified.index(0), 4);
    assert_eq!(simplified.results(), vec![4]);

    let multiple = InsertInstructionResult::SimplifiedToMultiple(vec![5, 6]);
    assert_eq!(multiple.len(), 2);
    assert_eq!(multiple.first(), 5);
    assert_eq!(multiple.index(1), 6);
    assert_eq!(multiple.results(), vec![5, 6]);

    let removed = InsertInstructionResult::InstructionRemoved;
    assert_eq!(removed.len(), 0);
    assert_eq!(removed.results(), vec![]);

    let inserted = InsertInstructionResult::Results(0, vec![7]);
    assert_eq!(inserted.len(), 1);
    assert_eq!(inserted.first(), 7);
    assert_eq!(inserted.results(), vec![7]);
}

#[test]
fn set_instruction_overwrites_in_place() {
    let mut dfg = DataFlowGraph::default();
    let a = dfg.make_constant(1, NumericType::NativeField);
    let b = dfg.make_constant(2, NumericType::NativeField);
    let ins = dfg.make_instruction(Instruction::Constrain(a, a), None);
    dfg.set_instruction(ins, Instruction::Constrain(a, b));
    match dfg.instruction(ins) {
        Instruction::Constrain(lhs, rhs) => {
            assert_eq!(*lhs, a);
            assert_eq!(*rhs, b);
        }
        _ => panic!("expected the overwritten instruction"),
    }
    assert_eq!(dfg.num_instructions(), 1);
    assert_eq!(dfg.value_count(), 2);
    assert_eq!(dfg.block_count(), 0);
}
