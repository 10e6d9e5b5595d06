use rustretto::classfile::descriptors::{BaseType, FieldType, ObjectType};
use rustretto::classfile::instructions::{ArrayType, Disassembler, Instr};
use rustretto::frontend::blocks::{PhiMap, PhiOperand, PhiOperandSource};
use rustretto::frontend::translate::{BlockId, Const, Op, VarId, VarIdGen};
use rustretto::frontend::types::Type;
use rustretto::opt::block_map::InstructionBlockMap;
use rustretto::opt::instr_block::{code_well_formed, BlockError, InstructionBlock};
use rustretto::opt::min_heap::MinHeap;

// iconst_0; ifeq +4; return; return
const CODE: [u8; 6] = [0x03, 0x99, 0x00, 0x04, 0xb1, 0xb1];

#[test]
fn a_block_runs_to_a_branch() {
    let mut d = Disassembler::new(CODE.to_vec());
    let mut starts = vec![];
    let block = InstructionBlock::build(&mut d, &mut starts).expect("block");
    assert_eq!(block.range, 0..4);
    assert_eq!(block.instrs.len(), 2);
    assert_eq!(block.instrs[1].instr, Instr::IfEq(4));
    assert_eq!(starts, vec![4, 5]);
    assert_eq!(d.position(), 4);
}

#[test]
fn a_block_that_runs_off_the_end_is_an_error() {
    let mut d = Disassembler::new(vec![0x03, 0x04]);
    let mut starts = vec![];
    assert_eq!(InstructionBlock::build(&mut d, &mut starts).err(), Some(BlockError::EndOfCode));
}

#[test]
fn splitting_keeps_every_instruction() {
    let mut d = Disassembler::new(CODE.to_vec());
    let mut starts = vec![];
    let mut block = InstructionBlock::build(&mut d, &mut starts).unwrap();
    let tail = block.split(1);
    assert_eq!(block.range, 0..1);
    assert_eq!(tail.range, 1..4);
    assert_eq!(block.instrs.len(), 1);
    assert_eq!(tail.instrs[0].instr, Instr::IfEq(4));
}

#[test]
fn the_block_map_follows_branches() {
    let map = InstructionBlockMap::build(Disassembler::new(CODE.to_vec())).expect("blocks");
    assert_eq!(map.block_starting_at(0).range, 0..4);
    assert_eq!(map.block_starting_at(4).range, 4..5);
    assert_eq!(map.block_starting_at(5).range, 5..6);
}

#[test]
fn branch_targets_inside_blocks_split_them() {
    // iconst_0; iconst_1; ifeq -1 (to the iconst_1); return
    let code = vec![0x03, 0x04, 0x99, 0xff, 0xff, 0xb1];
    let map = InstructionBlockMap::build(Disassembler::new(code)).unwrap();
    assert_eq!(map.block_starting_at(0).range, 0..1);
    assert_eq!(map.block_starting_at(1).range, 1..5);
    assert_eq!(map.block_starting_at(5).range, 5..6);
}

#[test]
fn a_branch_past_the_end_is_an_error() {
    let code = vec![0x03, 0x99, 0x00, 0x40, 0xb1];
    assert_eq!(InstructionBlockMap::build(Disassembler::new(code)).err(), Some(BlockError::EndOfCode));
}

#[test]
fn min_heap_pops_lowest_priority_first() {
    let mut heap = MinHeap::singleton(5, "e");
    heap.push(1, "a");
    heap.push(3, "c");
    heap.push(1, "b");
    let mut out = vec![];
    while let Some((p, v)) = heap.pop() {
        out.push((p, v));
    }
    assert_eq!(out.len(), 4);
    assert_eq!(out[0].0, 1);
    assert_eq!(out[1].0, 1);
    assert_eq!(out[2], (3, "c"));
    assert_eq!(out[3], (5, "e"));
    assert!(heap.pop().is_none());
}

#[test]
fn phi_bindings_collect_operands_of_one_type() {
    let mut gen = VarIdGen::new();
    let target = gen.gen(Type::Int);
    let other = gen.gen(Type::Long);
    let mut phis = PhiMap::new();
    phis.add(&Op::Var(target), PhiOperand { op: Op::Const(Const::Int(1)), src: PhiOperandSource::Entry });
    phis.add(&Op::Var(target), PhiOperand { op: Op::Const(Const::Int(2)), src: PhiOperandSource::Block(BlockId(7)) });
    phis.add(&Op::Var(other), PhiOperand { op: Op::Const(Const::Null), src: PhiOperandSource::Entry });
    phis.add(&Op::Const(Const::Int(0)), PhiOperand { op: Op::Const(Const::Int(3)), src: PhiOperandSource::Entry });
    let bindings = phis.iter();
    assert_eq!(bindings.len(), 1);
    assert_eq!(bindings[0].0, VarId(Type::Int, 0));
    assert_eq!(bindings[0].1.len(), 2);
    assert_eq!(bindings[0].1[1].src, PhiOperandSource::Block(BlockId(7)));
}

#[test]
fn frontend_types() {

    assert_eq!(Type::from_field_type(&FieldType::Base(BaseType::Short)), Type::Short);
    assert_eq!(Type::from_field_type(&FieldType::Object(ObjectType { class_name: "A".to_string() })), Type::Reference);
    assert!(Type::Int.can_unify_naive(&Type::Int));
    assert!(!Type::Int.can_unify_naive(&Type::Long));
    assert_eq!(Op::Const(Const::Long(1)).get_type(), Type::Long);
    assert_eq!(Op::Var(VarId(Type::Char, 9)).get_type(), Type::Char);
    assert_eq!(BlockId::from_addr_with_offset(100, -100), BlockId::start());
}

#[test]
fn phi_targets_come_in_variable_order_once_each() {
    let mut phis = PhiMap::new();
    let from = |n: u32| PhiOperandSource::Block(BlockId(n));
    phis.add(&Op::Var(VarId(Type::Int, 5)), PhiOperand { op: Op::Var(VarId(Type::Int, 1)), src: from(1) });
    phis.add(&Op::Var(VarId(Type::Int, 2)), PhiOperand { op: Op::Const(Const::Int(3)), src: from(1) });
    phis.add(&Op::Var(VarId(Type::Boolean, 9)), PhiOperand { op: Op::Var(VarId(Type::Boolean, 4)), src: from(2) });
    phis.add(&Op::Var(VarId(Type::Int, 5)), PhiOperand { op: Op::Var(VarId(Type::Int, 6)), src: from(2) });
    let targets: Vec<(VarId, usize)> = phis.iter().into_iter().map(|(v, ops)| (v, ops.len())).collect();
    assert_eq!(
        targets,
        vec![(VarId(Type::Boolean, 9), 1), (VarId(Type::Int, 2), 1), (VarId(Type::Int, 5), 2)]
    );
}

#[test]
fn array_element_types() {
    assert_eq!(Type::from_array_type(&ArrayType::Boolean), Type::Boolean);
    assert_eq!(Type::from_array_type(&ArrayType::Char), Type::Char);
    assert_eq!(Type::from_array_type(&ArrayType::Float), Type::Float);
    assert_eq!(Type::from_array_type(&ArrayType::Double), Type::Double);
    assert_eq!(Type::from_array_type(&ArrayType::Byte), Type::Byte);
    assert_eq!(Type::from_array_type(&ArrayType::Short), Type::Short);
    assert_eq!(Type::from_array_type(&ArrayType::Int), Type::Int);
    assert_eq!(Type::from_array_type(&ArrayType::Long), Type::Long);
}

#[test]
fn a_reached_block_that_runs_off_the_end_fails_the_map() {
    // iconst_0; ifeq +4 (to 5, past the last byte); nop
    let d = Disassembler::new(vec![0x03, 0x99, 0x00, 0x04, 0x00]);
    assert_eq!(InstructionBlockMap::build(d).err(), Some(BlockError::EndOfCode));
}

#[test]
fn checked_block_map_builds_well_formed_code() {
    let map = InstructionBlockMap::build_checked(Disassembler::new(CODE.to_vec())).unwrap().unwrap();
    assert_eq!(map.block_starting_at(4).range, 4..5);
    let code = vec![0x03, 0x99, 0x00, 0x40, 0xb1];
    assert_eq!(
        InstructionBlockMap::build_checked(Disassembler::new(code)).unwrap().err(),
        Some(BlockError::EndOfCode)
    );
}

#[test]
fn checked_block_map_refuses_code_it_cannot_split() {
    // A branch into the middle of its own operand bytes.
    let code = vec![0x03, 0x99, 0x00, 0x01, 0xb1];
    assert!(InstructionBlockMap::build_checked(Disassembler::new(code)).is_none());
    // An opcode that the decoder does not provide, on the chain.
    let code = vec![0x03, 0xaa, 0x00];
    assert!(InstructionBlockMap::build_checked(Disassembler::new(code)).is_none());
    // A lone return is well formed; a lone opcode without a decoder is not.
    assert!(code_well_formed(&[0xb1]));
    assert!(!code_well_formed(&[0xc5]));
}

#[test]
fn frontend_blocks_are_ordered_by_address() {
    assert!(BlockId::from_addr(1) < BlockId::from_addr(2));
    assert!(BlockId::start() < BlockId::from_addr(1));
    assert_eq!(BlockId::from_addr(2).partial_cmp(&BlockId::from_addr(2)), Some(std::cmp::Ordering::Equal));
}

#[test]
fn a_mismatching_operand_leaves_a_variable_out_for_good() {
    let mut m = PhiMap::new();
    let int_var = VarId(Type::Int, 1);
    let long_var = VarId(Type::Long, 0);
    let int_op = |n: i32| PhiOperand { op: Op::Const(Const::Int(n)), src: PhiOperandSource::Block(BlockId::from_addr(0)) };
    let long_op = PhiOperand { op: Op::Const(Const::Long(5)), src: PhiOperandSource::Block(BlockId::from_addr(4)) };
    m.add(&Op::Var(int_var), int_op(1));
    m.add(&Op::Var(long_var), long_op);
    m.add(&Op::Var(int_var), int_op(2));
    let bound = m.iter();
    assert_eq!(bound.len(), 2);
    assert_eq!(bound[0].0, int_var);
    assert_eq!(bound[0].1, vec![int_op(1), int_op(2)]);
    assert_eq!(bound[1].0, long_var);
    m.add(&Op::Var(int_var), long_op);
    m.add(&Op::Var(int_var), int_op(3));
    let bound = m.iter();
    assert_eq!(bound.len(), 1);
    assert_eq!(bound[0].0, long_var);
}
