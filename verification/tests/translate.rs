use std::collections::BTreeMap;

use rustretto::classfile::class_file::ClassFile;
use rustretto::classfile::constant_pool::{ConstantIndex, ConstantPool};
use rustretto::classfile::instructions::Instr;
use rustretto::compiler::frame::StackAndLocals;
use rustretto::compiler::translate::{
    translate_block, BlockId, BranchStub, Const, Expr, IComparator, InvokeTarget, TranslateError,
    VarId, VarIdGen,
};
use rustretto::compiler::types::Type;
use rustretto::opt::instr_block::{InstructionBlock, InstructionWithRange};

fn utf8(b: &mut Vec<u8>, s: &str) {
    b.push(1);
    b.extend_from_slice(&(s.len() as u16).to_be_bytes());
    b.extend_from_slice(s.as_bytes());
}

fn pool() -> ConstantPool {
    let mut b = vec![0xca, 0xfe, 0xba, 0xbe, 0x00, 0x00, 0x00, 0x34];
    // one count per entry read: the second slot of the long is not counted
    b.extend_from_slice(&25u16.to_be_bytes());
    utf8(&mut b, "Foo"); // 1
    b.extend_from_slice(&[7, 0, 1]); // 2 class Foo
    utf8(&mut b, "java/lang/Object"); // 3
    b.extend_from_slice(&[7, 0, 3]); // 4 class Object
    b.extend_from_slice(&[3, 0, 0, 0, 42]); // 5 integer 42
    b.extend_from_slice(&[8, 0, 7]); // 6 string "hi"
    utf8(&mut b, "hi"); // 7
    b.extend_from_slice(&[5, 0, 0, 0, 0, 0, 0, 0, 7]); // 8 long 7 (and 9)
    utf8(&mut b, "out"); // 10
    utf8(&mut b, "Ljava/io/PrintStream;"); // 11
    b.extend_from_slice(&[12, 0, 10, 0, 11]); // 12 name and type
    utf8(&mut b, "java/lang/System"); // 13
    b.extend_from_slice(&[7, 0, 13]); // 14 class System
    b.extend_from_slice(&[9, 0, 14, 0, 12]); // 15 field ref System.out
    utf8(&mut b, "println"); // 16
    utf8(&mut b, "(Ljava/lang/String;)V"); // 17
    b.extend_from_slice(&[12, 0, 16, 0, 17]); // 18 name and type
    utf8(&mut b, "java/io/PrintStream"); // 19
    b.extend_from_slice(&[7, 0, 19]); // 20 class PrintStream
    b.extend_from_slice(&[10, 0, 20, 0, 18]); // 21 method ref println
    utf8(&mut b, "max"); // 22
    utf8(&mut b, "(II)I"); // 23
    b.extend_from_slice(&[12, 0, 22, 0, 23]); // 24 name and type
    b.extend_from_slice(&[10, 0, 2, 0, 24]); // 25 method ref Foo.max
    b.extend_from_slice(&0x0021u16.to_be_bytes());
    b.extend_from_slice(&2u16.to_be_bytes());
    b.extend_from_slice(&4u16.to_be_bytes());
    b.extend_from_slice(&[0, 0, 0, 0, 0, 0, 0, 0]);
    ClassFile::parse(&b).expect("class file").constant_pool
}

fn block(start: u32, instrs: Vec<(u32, Instr)>, end: u32) -> InstructionBlock {
    let mut entries = Vec::new();
    for (i, (at, instr)) in instrs.iter().enumerate() {
        let next = if i + 1 < instrs.len() { instrs[i + 1].0 } else { end };
        entries.push(InstructionWithRange { range: *at..next, instr: instr.clone() });
    }
    InstructionBlock { range: start..end, instrs: entries, exception_handlers: () }
}

fn frame(stack: Vec<VarId>, locals: Vec<(usize, VarId)>) -> StackAndLocals {
    StackAndLocals { stack, locals: locals.into_iter().collect::<BTreeMap<_, _>>() }
}

fn int_var(n: u64) -> VarId {
    VarId(Type::Integer, n)
}

#[test]
fn compare_and_branch_ends_the_block() {
    let consts = pool();
    let b = block(0, vec![(0, Instr::ILoad(0)), (1, Instr::IConst1), (2, Instr::IfICmpGe(10))], 5);
    let mut gen = VarIdGen::new();
    let _ = gen.gen(Type::Integer);
    let incoming = frame(vec![], vec![(0, int_var(0))]);
    let bb = translate_block(&b, incoming, &consts, &mut gen).unwrap();
    assert_eq!(bb.address, BlockId(0));
    assert_eq!(bb.statements.len(), 1);
    assert_eq!(bb.statements[0].assign, Some(int_var(1)));
    assert!(matches!(bb.statements[0].expression, Expr::Const(Const::Int(1))));
    match &bb.branch_stub {
        BranchStub::IfICmp(IComparator::Ge, a, Some(c), t, e) => {
            assert_eq!(*a, int_var(0));
            assert_eq!(*c, int_var(1));
            assert_eq!(*t, BlockId(12));
            assert_eq!(*e, BlockId(5));
        }
        other => panic!("unexpected {:?}", other),
    }
    assert!(bb.exceptions.is_none());
    assert!(bb.outgoing.stack.is_empty());
    assert_eq!(bb.incoming.locals[&0], int_var(0));
    assert_eq!(gen.gen(Type::Integer), int_var(2));
}

#[test]
fn field_load_constant_and_call() {
    let consts = pool();
    let b = block(
        0,
        vec![
            (0, Instr::GetStatic(15)),
            (3, Instr::LdC(6)),
            (5, Instr::InvokeVirtual(21)),
            (8, Instr::Return),
        ],
        9,
    );
    let mut gen = VarIdGen::new();
    let bb = translate_block(&b, frame(vec![], vec![]), &consts, &mut gen).unwrap();
    assert_eq!(bb.statements.len(), 3);
    let out = VarId(Type::from_field_type(rustretto::classfile::descriptors::FieldType::try_from_str("Ljava/io/PrintStream;").unwrap()), 0);
    assert_eq!(bb.statements[0].assign, Some(out.clone()));
    assert!(matches!(bb.statements[0].expression, Expr::GetStatic(ConstantIndex(15))));
    assert_eq!(bb.statements[1].assign, Some(VarId(Type::string(), 1)));
    assert!(matches!(bb.statements[1].expression, Expr::Const(Const::String(ConstantIndex(7)))));
    assert_eq!(bb.statements[2].assign, None);
    match &bb.statements[2].expression {
        Expr::Invoke(call) => {
            assert_eq!(call.index, ConstantIndex(21));
            assert_eq!(call.args, vec![VarId(Type::string(), 1)]);
            match &call.target {
                InvokeTarget::Virtual(v) => assert_eq!(*v, out),
                other => panic!("unexpected {:?}", other),
            }
        }
        other => panic!("unexpected {:?}", other),
    }
    assert!(matches!(bb.branch_stub, BranchStub::Return(None)));
    assert!(bb.exceptions.is_some());
    assert!(bb.outgoing.stack.is_empty());
}

#[test]
fn static_call_with_result_and_long_arithmetic() {
    let consts = pool();
    let b = block(
        0,
        vec![
            (0, Instr::BiPush(-3)),
            (2, Instr::LdC(5)),
            (4, Instr::InvokeStatic(25)),
            (7, Instr::LdC2W(8)),
            (10, Instr::LConst1),
            (11, Instr::LAdd),
            (12, Instr::LConst0),
            (13, Instr::LCmp),
            (14, Instr::IReturn),
        ],
        15,
    );
    let mut gen = VarIdGen::new();
    let bb = translate_block(&b, frame(vec![], vec![]), &consts, &mut gen).unwrap();
    assert_eq!(bb.statements.len(), 8);
    assert!(matches!(bb.statements[0].expression, Expr::Const(Const::Int(-3))));
    assert!(matches!(bb.statements[1].expression, Expr::Const(Const::Int(42))));
    match &bb.statements[2].expression {
        Expr::Invoke(call) => {
            assert!(matches!(call.target, InvokeTarget::Static));
            assert_eq!(call.args, vec![int_var(0), int_var(1)]);
        }
        other => panic!("unexpected {:?}", other),
    }
    assert_eq!(bb.statements[2].assign, Some(int_var(2)));
    assert!(matches!(bb.statements[3].expression, Expr::Const(Const::Long(7))));
    match &bb.statements[5].expression {
        Expr::LAdd(a, c) => {
            assert_eq!(*a, VarId(Type::Long, 3));
            assert_eq!(*c, VarId(Type::Long, 4));
        }
        other => panic!("unexpected {:?}", other),
    }
    assert_eq!(bb.statements[5].assign, Some(VarId(Type::Long, 5)));
    assert_eq!(bb.statements[7].assign, Some(int_var(7)));
    match &bb.branch_stub {
        BranchStub::Return(Some(v)) => assert_eq!(*v, int_var(7)),
        other => panic!("unexpected {:?}", other),
    }
    assert_eq!(bb.outgoing.stack, vec![int_var(2)]);
}

#[test]
fn locals_stores_and_increments() {
    let consts = pool();
    let b = block(
        4,
        vec![
            (4, Instr::IConst2),
            (5, Instr::Dup),
            (6, Instr::IStore(1)),
            (7, Instr::IInc(1, 5)),
            (10, Instr::New(2)),
            (13, Instr::AThrow),
        ],
        14,
    );
    let mut gen = VarIdGen::new();
    let bb = translate_block(&b, frame(vec![], vec![(0, int_var(99))]), &consts, &mut gen).unwrap();
    assert_eq!(bb.statements.len(), 3);
    match &bb.statements[1].expression {
        Expr::IInc(v, c) => {
            assert_eq!(*v, int_var(0));
            assert_eq!(*c, 5);
        }
        other => panic!("unexpected {:?}", other),
    }
    assert_eq!(bb.outgoing.locals[&1], int_var(1));
    assert_eq!(bb.outgoing.locals[&0], int_var(99));
    match &bb.statements[2].expression {
        Expr::New(name) => assert_eq!(name, "Foo"),
        other => panic!("unexpected {:?}", other),
    }
    match &bb.branch_stub {
        BranchStub::Throw(v) => assert_eq!(v.1, 2),
        other => panic!("unexpected {:?}", other),
    }
    assert_eq!(bb.outgoing.stack, vec![int_var(0)]);
}

#[test]
fn block_without_branch_falls_through() {
    let consts = pool();
    let b = block(0, vec![(0, Instr::ALoad0), (1, Instr::AStore1)], 2);
    let mut gen = VarIdGen::new();
    let bb = translate_block(&b, frame(vec![], vec![(0, int_var(5))]), &consts, &mut gen).unwrap();
    assert!(bb.statements.is_empty());
    assert!(matches!(bb.branch_stub, BranchStub::Goto(BlockId(2))));
    assert!(bb.exceptions.is_some());
    assert_eq!(bb.outgoing.locals[&1], int_var(5));
}

#[test]
fn goto_targets_are_relative_to_the_instruction() {
    let consts = pool();
    let b = block(20, vec![(20, Instr::Goto(-20))], 23);
    let mut gen = VarIdGen::new();
    let bb = translate_block(&b, frame(vec![], vec![]), &consts, &mut gen).unwrap();
    assert!(matches!(bb.branch_stub, BranchStub::Goto(BlockId(0))));
    assert!(bb.exceptions.is_none());
}

#[test]
fn unsupported_instructions_and_constants_fail() {
    let consts = pool();
    let mut gen = VarIdGen::new();
    let b = block(0, vec![(0, Instr::Pop)], 1);
    assert_eq!(
        translate_block(&b, frame(vec![int_var(0)], vec![]), &consts, &mut gen).err(),
        Some(TranslateError::UnsupportedInstruction)
    );
    let c = block(0, vec![(0, Instr::LdC(2))], 2);
    assert_eq!(
        translate_block(&c, frame(vec![], vec![]), &consts, &mut gen).err(),
        Some(TranslateError::UnsupportedConstant)
    );
}

#[test]
fn assigned_variables_are_fresh_and_increasing() {
    let consts = pool();
    let b = block(
        0,
        vec![
            (0, Instr::IConst0),
            (1, Instr::IStore(3)),
            (2, Instr::IInc(3, 1)),
            (5, Instr::LConst1),
            (6, Instr::InvokeStatic(21)),
            (9, Instr::Return),
        ],
        10,
    );
    let mut gen = VarIdGen::new();
    for _ in 0..10 {
        let _ = gen.gen(Type::Top);
    }
    let incoming = frame(vec![VarId(Type::string(), 9)], vec![]);
    let bb = translate_block(&b, incoming, &consts, &mut gen).unwrap();
    let numbers: Vec<u64> = bb.statements.iter().filter_map(|s| s.assign.as_ref().map(|v| v.1)).collect();
    assert_eq!(numbers, vec![10, 11, 12]);
    assert_eq!(bb.statements.len(), 4);
    assert!(bb.statements[3].assign.is_none());
    assert_eq!(gen.gen(Type::Top).1, 13);
}

#[test]
fn blocks_are_ordered_by_address() {
    assert!(BlockId::from_addr(3) < BlockId::from_addr(7));
    assert!(BlockId::from_addr(7) > BlockId::from_addr(3));
    assert!(BlockId::start() <= BlockId::from_addr(0));
    assert_eq!(BlockId::from_addr(5), BlockId::from_addr(5));
    let mut ids = vec![BlockId::from_addr(9), BlockId::from_addr(0), BlockId::from_addr(4)];
    ids.sort();
    assert_eq!(ids, vec![BlockId::from_addr(0), BlockId::from_addr(4), BlockId::from_addr(9)]);
    let mut by_block = BTreeMap::new();
    by_block.insert(BlockId::from_addr(12), "b");
    by_block.insert(BlockId::from_addr(2), "a");
    assert_eq!(by_block.values().copied().collect::<Vec<_>>(), vec!["a", "b"]);
}
