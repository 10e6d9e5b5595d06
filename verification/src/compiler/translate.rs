//! Translation of bytecode into basic blocks of statements over SSA variables:
//! identifiers of blocks and variables, the statements and branches a block
//! holds, and the symbolic execution of instructions on a frame of variables.
use vstd::prelude::*;
use vstd::std_specs::cmp::PartialOrdIs;
use core::cmp::Ordering;
use crate::classfile::class_file::{spec_get_field_ref, spec_get_method_ref};
use crate::classfile::constant_pool::{
    ConstantIndex, ConstantPool, Constant, SpecConstant, Utf8Constant, spec_get_class, spec_get_info,
    spec_get_utf8,
};
use crate::classfile::descriptors::{ReturnTypeDescriptor, SpecReturnType};
use crate::classfile::instructions::Instr;
use crate::compiler::frame::StackAndLocals;
use crate::compiler::types::{Type, SpecType, spec_type_of_field};
use crate::opt::instr_block::{InstructionBlock, InstructionWithRange};
use std::ops::Range;

verus! {

/// A basic block, named by the address of its first instruction.
#[derive(Clone, Copy, Debug, PartialEq, Eq, Ord, Structural)]
pub struct BlockId(pub u32);

/// Blocks are ordered by their addresses.
impl PartialOrd for BlockId {
    fn partial_cmp(&self, other: &Self) -> (r: Option<Ordering>) {
        if self.0 < other.0 {
            Some(Ordering::Less)
        } else if self.0 == other.0 {
            Some(Ordering::Equal)
        } else {
            Some(Ordering::Greater)
        }
    }
}

impl vstd::std_specs::cmp::PartialOrdSpecImpl for BlockId {
    open spec fn obeys_partial_cmp_spec() -> bool {
        true
    }

    open spec fn partial_cmp_spec(&self, other: &Self) -> Option<Ordering> {
        if self.0 < other.0 {
            Some(Ordering::Less)
        } else if self.0 == other.0 {
            Some(Ordering::Equal)
        } else {
            Some(Ordering::Greater)
        }
    }
}

/// Blocks compare as the addresses that name them: one block comes before
/// another exactly when its address is lower, and two are equal exactly
/// when their addresses are.
pub proof fn law_blocks_ordered_by_address(a: u32, b: u32)
    ensures
        BlockId(a).is_lt(&BlockId(b)) <==> a < b,
        BlockId(a).is_le(&BlockId(b)) <==> a <= b,
        BlockId(a).is_gt(&BlockId(b)) <==> a > b,
        (BlockId(a) == BlockId(b)) <==> a == b,
{
}

impl BlockId {
    /// The block at the start of a method.
    pub fn start() -> (r: Self)
        ensures
            r.0 == 0,
    {
        BlockId(0)
    }

    pub fn from_addr(addr: u32) -> (r: Self)
        ensures
            r.0 == addr,
    {
        BlockId(addr)
    }

    /// The block at `addr + offset`, wrapped to 32 bits.
    pub fn from_addr_with_offset(addr: u32, offset: i32) -> (r: Self)
        ensures
            r.0 as int == (addr as int + offset as int) % 0x1_0000_0000,
    {
        let sum: i64 = addr as i64 + offset as i64;
        let r: u32 = sum as u32;
        assert(r as int == (addr as int + offset as int) % 0x1_0000_0000) by (bit_vector)
            requires
                sum == addr as i64 + offset as i64,
                r == sum as u32,
        ;
        BlockId(r)
    }
}

/// A variable: its type and its number.
#[derive(Clone, Debug, PartialEq, Eq, PartialOrd, Ord)]
pub struct VarId(pub Type, pub u64);

impl View for VarId {
    type V = (SpecType, u64);

    open spec fn view(&self) -> (SpecType, u64) {
        (self.0@, self.1)
    }
}

impl VarId {
    /// A copy of this variable.
    pub fn duplicate(&self) -> (r: VarId)
        ensures
            r@ == self@,
    {
        VarId(self.0.duplicate(), self.1)
    }
}

/// Hands out variables with consecutive numbers.
pub struct VarIdGen {
    next_id: u64,
}

impl View for VarIdGen {
    type V = u64;

    /// The number of the next variable.
    closed spec fn view(&self) -> u64 {
        self.next_id
    }
}

impl VarIdGen {
    pub fn new() -> (r: Self)
        ensures
            r@ == 0,
    {
        VarIdGen { next_id: 0 }
    }

    /// A new variable of the given type; the numbers run out at `u64::MAX`.
    pub fn gen(&mut self, var_type: Type) -> (r: VarId)
        requires
            old(self)@ < u64::MAX,
        ensures
            r@ == (var_type@, old(self)@),
            final(self)@ == old(self)@ + 1,
    {
        let var_id = VarId(var_type, self.next_id);
        self.next_id += 1;
        var_id
    }
}

/// The mathematical value of an optional variable.
pub open spec fn opt_var_view(v: Option<VarId>) -> Option<(SpecType, u64)> {
    match v {
        Some(x) => Some(x@),
        None => None,
    }
}

/// Who receives a call.
#[derive(Debug)]
pub enum InvokeTarget {
    Static,
    Special(VarId),
    Virtual(VarId),
}

/// A method call: the receiver, the method-reference entry, the arguments.
#[derive(Debug)]
pub struct InvokeExpr {
    pub target: InvokeTarget,
    pub index: ConstantIndex,
    pub args: Vec<VarId>,
}

/// A constant value.
#[derive(Clone, Copy, Debug, PartialEq, Eq, Structural)]
pub enum Const {
    Int(i32),
    Long(i64),
    String(ConstantIndex),
}

/// The value a statement computes.
#[derive(Debug)]
pub enum Expr {
    Var(VarId),
    Const(Const),
    GetStatic(ConstantIndex),
    Invoke(InvokeExpr),
    IInc(VarId, i32),
    New(String),
    LCmp(VarId, VarId),
    LAdd(VarId, VarId),
}

/// The exception handlers in force for a block.
#[derive(Debug)]
pub struct ExceptionHandlers;

/// How two `int` values, or an `int` and zero, are compared.
#[derive(Clone, Copy, Debug, PartialEq, Eq, Structural)]
pub enum IComparator {
    Lt,
    Le,
    Eq,
    Ge,
}

/// How two references are compared.
#[derive(Clone, Copy, Debug, PartialEq, Eq, Structural)]
pub enum AComparator {
    Eq,
    Ne,
}

/// A multi-way branch on an `int` value.
#[derive(Debug)]
pub struct Switch {
    pub value: VarId,
    pub default: BlockId,
    pub cases: Vec<(i32, BlockId)>,
}

/// How a block ends.
#[derive(Debug)]
pub enum BranchStub {
    Goto(BlockId),
    IfICmp(IComparator, VarId, Option<VarId>, BlockId, BlockId),
    IfACmp(AComparator, VarId, VarId, BlockId, BlockId),
    Return(Option<VarId>),
    Switch(Switch),
    Throw(VarId),
}

/// A statement: a value, and the variable it is assigned to, if any.
#[derive(Debug)]
pub struct Statement {
    pub assign: Option<VarId>,
    pub expression: Expr,
}

/// A translated basic block: its address, the frame on entry, its
/// statements, how it ends, and the frame on exit.
#[derive(Debug)]
pub struct BasicBlock {
    pub address: BlockId,
    pub incoming: StackAndLocals,
    pub statements: Vec<Statement>,
    pub branch_stub: BranchStub,
    pub exceptions: Option<ExceptionHandlers>,
    pub outgoing: StackAndLocals,
}

/// The mathematical value of a call's receiver.
pub enum SpecInvokeTarget {
    Static,
    Special((SpecType, u64)),
    Virtual((SpecType, u64)),
}

/// The mathematical value of an expression.
#[verifier::ext_equal]
pub enum SpecExpr {
    Var((SpecType, u64)),
    Const(Const),
    GetStatic(ConstantIndex),
    Invoke(SpecInvokeTarget, ConstantIndex, Seq<(SpecType, u64)>),
    IInc((SpecType, u64), i32),
    New(Seq<char>),
    LCmp((SpecType, u64), (SpecType, u64)),
    LAdd((SpecType, u64), (SpecType, u64)),
}

/// The mathematical value of a statement.
#[verifier::ext_equal]
pub struct SpecStatement {
    pub assign: Option<(SpecType, u64)>,
    pub expression: SpecExpr,
}

/// The mathematical value of a block's ending.
#[verifier::ext_equal]
pub enum SpecBranch {
    Goto(BlockId),
    IfICmp(IComparator, (SpecType, u64), Option<(SpecType, u64)>, BlockId, BlockId),
    IfACmp(AComparator, (SpecType, u64), (SpecType, u64), BlockId, BlockId),
    Return(Option<(SpecType, u64)>),
    Switch((SpecType, u64), BlockId, Seq<(i32, BlockId)>),
    Throw((SpecType, u64)),
}

impl View for InvokeTarget {
    type V = SpecInvokeTarget;

    open spec fn view(&self) -> SpecInvokeTarget {
        match self {
            InvokeTarget::Static => SpecInvokeTarget::Static,
            InvokeTarget::Special(v) => SpecInvokeTarget::Special(v@),
            InvokeTarget::Virtual(v) => SpecInvokeTarget::Virtual(v@),
        }
    }
}

impl View for Expr {
    type V = SpecExpr;

    open spec fn view(&self) -> SpecExpr {
        match self {
            Expr::Var(v) => SpecExpr::Var(v@),
            Expr::Const(c) => SpecExpr::Const(*c),
            Expr::GetStatic(i) => SpecExpr::GetStatic(*i),
            Expr::Invoke(e) => SpecExpr::Invoke(
                e.target@,
                e.index,
                e.args@.map_values(|v: VarId| v@),
            ),
            Expr::IInc(v, c) => SpecExpr::IInc(v@, *c),
            Expr::New(n) => SpecExpr::New(n@),
            Expr::LCmp(a, b) => SpecExpr::LCmp(a@, b@),
            Expr::LAdd(a, b) => SpecExpr::LAdd(a@, b@),
        }
    }
}

impl View for Statement {
    type V = SpecStatement;

    open spec fn view(&self) -> SpecStatement {
        SpecStatement { assign: opt_var_view(self.assign), expression: self.expression@ }
    }
}

impl View for BranchStub {
    type V = SpecBranch;

    open spec fn view(&self) -> SpecBranch {
        match self {
            BranchStub::Goto(b) => SpecBranch::Goto(*b),
            BranchStub::IfICmp(c, a, b, t, e) => SpecBranch::IfICmp(*c, a@, opt_var_view(*b), *t, *e),
            BranchStub::IfACmp(c, a, b, t, e) => SpecBranch::IfACmp(*c, a@, b@, *t, *e),
            BranchStub::Return(v) => SpecBranch::Return(opt_var_view(*v)),
            BranchStub::Switch(s) => SpecBranch::Switch(s.value@, s.default, s.cases@),
            BranchStub::Throw(v) => SpecBranch::Throw(v@),
        }
    }
}

/// The mathematical value of a frame: the stack, bottom first, and the
/// variable in each occupied local slot.
#[verifier::ext_equal]
pub struct SpecFrame {
    pub stack: Seq<(SpecType, u64)>,
    pub locals: Map<usize, (SpecType, u64)>,
}

/// The mathematical value of a frame.
pub open spec fn frame_view(s: StackAndLocals) -> SpecFrame {
    SpecFrame { stack: s.stack_view(), locals: s.locals_view() }
}

/// Why a block could not be translated.
#[derive(Clone, Copy, Debug, PartialEq, Eq, Structural)]
pub enum TranslateError {
    /// `ldc` of a constant that is no string, `int` or `long`.
    UnsupportedConstant,
    /// An instruction that the translator does not handle.
    UnsupportedInstruction,
}

/// What translating one instruction yields.
#[verifier::ext_equal]
pub enum SpecStep {
    /// Only the frame changed; translation goes on with the next instruction.
    Moved,
    /// A statement.
    Emit(SpecStatement),
    /// The end of the block, and whether exception handlers are in force.
    End(SpecBranch, bool),
    /// The instruction cannot be translated.
    Fail(TranslateError),
}

/// The block at `start + offset`, wrapped to 32 bits.
pub open spec fn jump_target(start: u32, offset: int) -> BlockId {
    BlockId(((start as int + offset) % 0x1_0000_0000) as u32)
}

/// The block a branch at `start` with a 16-bit offset goes to.
pub open spec fn branch_to(start: u32, offset: i16) -> BlockId {
    jump_target(start, offset as int)
}

/// The frame with the two topmost values removed.
pub open spec fn popped_two(f: SpecFrame) -> SpecFrame {
    SpecFrame { stack: f.stack.subrange(0, f.stack.len() - 2), locals: f.locals }
}

/// The value just below the top of the stack.
pub open spec fn second_top(f: SpecFrame) -> (SpecType, u64) {
    f.stack[f.stack.len() - 2]
}

/// The block a branch at `start` with a 16-bit offset goes to.
fn jump_block(start: u32, offset: i16) -> (r: BlockId)
    ensures
        r == branch_to(start, offset),
{
    let b = BlockId::from_addr_with_offset(start, offset as i32);
    assert(b.0 as int == ((start as int + offset as int) % 0x1_0000_0000) as u32);
    b
}

/// The frame with the top of the stack removed.
pub open spec fn popped(f: SpecFrame) -> SpecFrame {
    SpecFrame { stack: f.stack.drop_last(), locals: f.locals }
}

/// The frame with `v` pushed.
pub open spec fn pushed(f: SpecFrame, v: (SpecType, u64)) -> SpecFrame {
    SpecFrame { stack: f.stack.push(v), locals: f.locals }
}

/// Pushes a new variable of type `t` that a statement assigns `e` to.
pub open spec fn emit_new_var(f: SpecFrame, id: u64, t: SpecType, e: SpecExpr) -> (SpecFrame, u64, SpecStep) {
    (pushed(f, (t, id)), (id + 1) as u64, SpecStep::Emit(SpecStatement { assign: Some((t, id)), expression: e }))
}

/// The two topmost values, below first, are combined into a new variable.
pub open spec fn emit_binary(
    f: SpecFrame,
    id: u64,
    t: SpecType,
    e: spec_fn((SpecType, u64), (SpecType, u64)) -> SpecExpr,
) -> (SpecFrame, u64, SpecStep) {
    let n = f.stack.len() as int;
    let below = SpecFrame { stack: f.stack.subrange(0, n - 2), locals: f.locals };
    emit_new_var(below, id, t, e(f.stack[n - 2], f.stack[n - 1]))
}

/// What `ldc` of the entry at `idx` does.
pub open spec fn load_const_step(f: SpecFrame, id: u64, pool: Seq<SpecConstant>, idx: ConstantIndex) -> (
    SpecFrame,
    u64,
    SpecStep,
) {
    match spec_get_info(pool, idx) {
        Some(SpecConstant::String(c)) => emit_new_var(
            f,
            id,
            SpecType::Object("java.lang.String"@),
            SpecExpr::Const(Const::String(c.string_index)),
        ),
        Some(SpecConstant::Integer(c)) => emit_new_var(f, id, SpecType::Integer, SpecExpr::Const(Const::Int(c.value))),
        Some(SpecConstant::Long(c)) => emit_new_var(f, id, SpecType::Long, SpecExpr::Const(Const::Long(c.value))),
        _ => (f, id, SpecStep::Fail(TranslateError::UnsupportedConstant)),
    }
}

/// The kinds of call.
#[derive(Clone, Copy, Debug, PartialEq, Eq, Structural)]
pub enum InvokeType {
    Static,
    Special,
    Virtual,
}

/// What a call through the method-reference entry at `idx` does: the
/// arguments are taken from the top of the stack, then the receiver, unless
/// the call is static; a result, if the method has one, is pushed.
pub open spec fn invoke_step(f: SpecFrame, id: u64, pool: Seq<SpecConstant>, kind: InvokeType, idx: ConstantIndex) -> (
    SpecFrame,
    u64,
    SpecStep,
) {
    let m = spec_get_method_ref(pool, idx)->0;
    let n = f.stack.len() as int;
    let k = m.descriptor.params.len() as int;
    let args = f.stack.subrange(n - k, n);
    let rest = f.stack.subrange(0, n - k);
    let (target, stack) = match kind {
        InvokeType::Static => (SpecInvokeTarget::Static, rest),
        InvokeType::Special => (SpecInvokeTarget::Special(rest.last()), rest.drop_last()),
        InvokeType::Virtual => (SpecInvokeTarget::Virtual(rest.last()), rest.drop_last()),
    };
    let e = SpecExpr::Invoke(target, idx, args);
    match m.descriptor.ret {
        SpecReturnType::Void => (
            SpecFrame { stack, locals: f.locals },
            id,
            SpecStep::Emit(SpecStatement { assign: None, expression: e }),
        ),
        SpecReturnType::Field(t) => emit_new_var(SpecFrame { stack, locals: f.locals }, id, spec_type_of_field(t), e),
    }
}

/// The stack holds enough values for a call through the method reference at
/// `idx`, and a result variable can be numbered.
pub open spec fn invoke_admitted(f: SpecFrame, id: u64, pool: Seq<SpecConstant>, kind: InvokeType, idx: ConstantIndex) -> bool {
    &&& spec_get_method_ref(pool, idx) is Some
    &&& f.stack.len() >= spec_get_method_ref(pool, idx)->0.descriptor.params.len() + (if kind is Static {
        0int
    } else {
        1int
    })
    &&& id < u64::MAX
}

/// What translating the instruction at `start..end` does to the frame, to the
/// next variable number `id`, and what it yields.
#[verifier::opaque]
pub open spec fn translate_step(
    instr: Instr,
    start: u32,
    end: u32,
    f: SpecFrame,
    id: u64,
    pool: Seq<SpecConstant>,
) -> (SpecFrame, u64, SpecStep) {
    let n = f.stack.len() as int;
    match instr {
        Instr::ALoad0 => (pushed(f, f.locals[0]), id, SpecStep::Moved),
        Instr::ALoad1 => (pushed(f, f.locals[1]), id, SpecStep::Moved),
        Instr::ALoad2 => (pushed(f, f.locals[2]), id, SpecStep::Moved),
        Instr::ILoad(k) => (pushed(f, f.locals[k as usize]), id, SpecStep::Moved),
        Instr::LLoad(k) => (pushed(f, f.locals[k as usize]), id, SpecStep::Moved),
        Instr::AStore1 => (SpecFrame { stack: f.stack.drop_last(), locals: f.locals.insert(1, f.stack.last()) }, id, SpecStep::Moved),
        Instr::AStore2 => (SpecFrame { stack: f.stack.drop_last(), locals: f.locals.insert(2, f.stack.last()) }, id, SpecStep::Moved),
        Instr::IStore(k) => (SpecFrame { stack: f.stack.drop_last(), locals: f.locals.insert(k as usize, f.stack.last()) }, id, SpecStep::Moved),
        Instr::LStore(k) => (SpecFrame { stack: f.stack.drop_last(), locals: f.locals.insert(k as usize, f.stack.last()) }, id, SpecStep::Moved),
        Instr::Dup => (pushed(f, f.stack.last()), id, SpecStep::Moved),
        Instr::IConst0 => emit_new_var(f, id, SpecType::Integer, SpecExpr::Const(Const::Int(0))),
        Instr::IConst1 => emit_new_var(f, id, SpecType::Integer, SpecExpr::Const(Const::Int(1))),
        Instr::IConst2 => emit_new_var(f, id, SpecType::Integer, SpecExpr::Const(Const::Int(2))),
        Instr::IConst3 => emit_new_var(f, id, SpecType::Integer, SpecExpr::Const(Const::Int(3))),
        Instr::LConst0 => emit_new_var(f, id, SpecType::Long, SpecExpr::Const(Const::Long(0))),
        Instr::LConst1 => emit_new_var(f, id, SpecType::Long, SpecExpr::Const(Const::Long(1))),
        Instr::BiPush(b) => emit_new_var(f, id, SpecType::Integer, SpecExpr::Const(Const::Int(b as i32))),
        Instr::IInc(k, c) => (
            SpecFrame { stack: f.stack, locals: f.locals.insert(k as usize, (SpecType::Integer, id)) },
            (id + 1) as u64,
            SpecStep::Emit(
                SpecStatement {
                    assign: Some((SpecType::Integer, id)),
                    expression: SpecExpr::IInc(f.locals[k as usize], c as i32),
                },
            ),
        ),
        Instr::GetStatic(i) => emit_new_var(
            f,
            id,
            spec_type_of_field(spec_get_field_ref(pool, ConstantIndex(i))->0.descriptor),
            SpecExpr::GetStatic(ConstantIndex(i)),
        ),
        Instr::LdC(i) => load_const_step(f, id, pool, ConstantIndex(i as u16)),
        Instr::LdCW(i) => load_const_step(f, id, pool, ConstantIndex(i)),
        Instr::LdC2W(i) => load_const_step(f, id, pool, ConstantIndex(i)),
        Instr::InvokeSpecial(i) => invoke_step(f, id, pool, InvokeType::Special, ConstantIndex(i)),
        Instr::InvokeStatic(i) => invoke_step(f, id, pool, InvokeType::Static, ConstantIndex(i)),
        Instr::InvokeVirtual(i) => invoke_step(f, id, pool, InvokeType::Virtual, ConstantIndex(i)),
        Instr::Goto(o) => (f, id, SpecStep::End(SpecBranch::Goto(branch_to(start, o)), false)),
        Instr::Return => (f, id, SpecStep::End(SpecBranch::Return(None), true)),
        Instr::IReturn => (popped(f), id, SpecStep::End(SpecBranch::Return(Some(f.stack.last())), true)),
        Instr::AReturn => (popped(f), id, SpecStep::End(SpecBranch::Return(Some(f.stack.last())), true)),
        Instr::IfLt(o) => (popped(f), id, SpecStep::End(SpecBranch::IfICmp(IComparator::Lt, f.stack.last(), None, branch_to(start, o), BlockId(end)), false)),
        Instr::IfLe(o) => (popped(f), id, SpecStep::End(SpecBranch::IfICmp(IComparator::Le, f.stack.last(), None, branch_to(start, o), BlockId(end)), false)),
        Instr::IfEq(o) => (popped(f), id, SpecStep::End(SpecBranch::IfICmp(IComparator::Eq, f.stack.last(), None, branch_to(start, o), BlockId(end)), false)),
        Instr::IfGe(o) => (popped(f), id, SpecStep::End(SpecBranch::IfICmp(IComparator::Ge, f.stack.last(), None, branch_to(start, o), BlockId(end)), false)),
        Instr::IfICmpGe(o) => (popped_two(f), id, SpecStep::End(SpecBranch::IfICmp(IComparator::Ge, second_top(f), Some(f.stack.last()), branch_to(start, o), BlockId(end)), false)),
        Instr::IfICmpLe(o) => (popped_two(f), id, SpecStep::End(SpecBranch::IfICmp(IComparator::Le, second_top(f), Some(f.stack.last()), branch_to(start, o), BlockId(end)), false)),
        Instr::IfACmpEq(o) => (popped_two(f), id, SpecStep::End(SpecBranch::IfACmp(AComparator::Eq, second_top(f), f.stack.last(), branch_to(start, o), BlockId(end)), false)),
        Instr::IfACmpNe(o) => (popped_two(f), id, SpecStep::End(SpecBranch::IfACmp(AComparator::Ne, second_top(f), f.stack.last(), branch_to(start, o), BlockId(end)), false)),
        Instr::New(i) => {
            let name = spec_get_utf8(pool, spec_get_class(pool, ConstantIndex(i))->0.name_index)->0;
            emit_new_var(f, id, SpecType::Object(name), SpecExpr::New(name))
        },
        Instr::LCmp => emit_binary(f, id, SpecType::Integer, |a: (SpecType, u64), b: (SpecType, u64)| SpecExpr::LCmp(a, b)),
        Instr::LAdd => emit_binary(f, id, SpecType::Long, |a: (SpecType, u64), b: (SpecType, u64)| SpecExpr::LAdd(a, b)),
        Instr::AThrow => (popped(f), id, SpecStep::End(SpecBranch::Throw(f.stack.last()), false)),
        _ => (f, id, SpecStep::Fail(TranslateError::UnsupportedInstruction)),
    }
}

/// Translating the instruction does not go wrong: the slots it reads are
/// occupied, the stack holds the values it takes, the constant-pool entries
/// it reads are of the right kind, and new variables can be numbered.
pub open spec fn step_admitted(instr: Instr, f: SpecFrame, id: u64, pool: Seq<SpecConstant>) -> bool {
    let n = f.stack.len();
    match instr {
        Instr::ALoad0 => f.locals.contains_key(0),
        Instr::ALoad1 => f.locals.contains_key(1),
        Instr::ALoad2 => f.locals.contains_key(2),
        Instr::ILoad(k) => f.locals.contains_key(k as usize),
        Instr::LLoad(k) => f.locals.contains_key(k as usize),
        Instr::AStore1 | Instr::AStore2 | Instr::IStore(_) | Instr::LStore(_) | Instr::Dup
        | Instr::IReturn | Instr::AReturn | Instr::IfLt(_) | Instr::IfLe(_) | Instr::IfEq(_)
        | Instr::IfGe(_) | Instr::AThrow => n >= 1,
        Instr::IConst0 | Instr::IConst1 | Instr::IConst2 | Instr::IConst3 | Instr::LConst0
        | Instr::LConst1 | Instr::BiPush(_) => id < u64::MAX,
        Instr::IInc(k, _) => id < u64::MAX && f.locals.contains_key(k as usize),
        Instr::GetStatic(i) => id < u64::MAX && spec_get_field_ref(pool, ConstantIndex(i)) is Some,
        Instr::LdC(i) => id < u64::MAX && spec_get_info(pool, ConstantIndex(i as u16)) is Some,
        Instr::LdCW(i) => id < u64::MAX && spec_get_info(pool, ConstantIndex(i)) is Some,
        Instr::LdC2W(i) => id < u64::MAX && spec_get_info(pool, ConstantIndex(i)) is Some,
        Instr::InvokeSpecial(i) => invoke_admitted(f, id, pool, InvokeType::Special, ConstantIndex(i)),
        Instr::InvokeStatic(i) => invoke_admitted(f, id, pool, InvokeType::Static, ConstantIndex(i)),
        Instr::InvokeVirtual(i) => invoke_admitted(f, id, pool, InvokeType::Virtual, ConstantIndex(i)),
        Instr::IfICmpGe(_) | Instr::IfICmpLe(_) | Instr::IfACmpEq(_) | Instr::IfACmpNe(_) => n >= 2,
        Instr::LCmp | Instr::LAdd => n >= 2 && id < u64::MAX,
        Instr::New(i) => {
            &&& id < u64::MAX
            &&& spec_get_class(pool, ConstantIndex(i)) is Some
            &&& spec_get_utf8(pool, spec_get_class(pool, ConstantIndex(i))->0.name_index) is Some
        },
        _ => true,
    }
}

/// What translating instructions yields next: a statement, or the end of
/// the block.
#[derive(Debug)]
pub enum TranslateNext {
    Statement(Statement),
    Branch(BranchStub, Option<ExceptionHandlers>),
}

/// The mathematical value of a translation result; `Moved` when there is
/// nothing.
pub open spec fn step_view(r: Result<Option<TranslateNext>, TranslateError>) -> SpecStep {
    match r {
        Ok(Some(TranslateNext::Statement(s))) => SpecStep::Emit(s@),
        Ok(Some(TranslateNext::Branch(b, e))) => SpecStep::End(b@, e is Some),
        Ok(None) => SpecStep::Moved,
        Err(e) => SpecStep::Fail(e),
    }
}

/// The frame, the next variable number and the result agree with `want`.
pub open spec fn step_done(
    state: StackAndLocals,
    next_id: u64,
    r: Result<Option<TranslateNext>, TranslateError>,
    want: (SpecFrame, u64, SpecStep),
) -> bool {
    &&& frame_view(state) == want.0
    &&& next_id == want.1
    &&& step_view(r) == want.2
}

/// Translates one instruction at a time: its addresses, and the constant pool
/// its operands refer to.
struct TranslateInstr<'a> {
    range: &'a Range<u32>,
    consts: &'a ConstantPool,
}

impl<'a> TranslateInstr<'a> {
    fn load(&self, state: &mut StackAndLocals, idx: usize)
        requires
            old(state).locals@.contains_key(idx),
        ensures
            frame_view(*final(state)) == pushed(frame_view(*old(state)), old(state).locals_view()[idx]),
    {
        state.load(idx);
        assert(frame_view(*state) =~= pushed(frame_view(*old(state)), old(state).locals_view()[idx]));
    }

    fn store(&self, state: &mut StackAndLocals, idx: usize)
        requires
            old(state).stack@.len() > 0,
        ensures
            frame_view(*final(state)) == (SpecFrame {
                stack: old(state).stack_view().drop_last(),
                locals: old(state).locals_view().insert(idx, old(state).stack_view().last()),
            }),
    {
        state.store(idx);
    }

    fn duplicate(&self, state: &mut StackAndLocals)
        requires
            old(state).stack@.len() > 0,
        ensures
            frame_view(*final(state)) == pushed(frame_view(*old(state)), old(state).stack_view().last()),
    {
        let var = state.pop();
        state.push(var.duplicate());
        state.push(var);
        assert(state.stack_view() =~= old(state).stack_view().push(old(state).stack_view().last()));
        assert(frame_view(*state) =~= pushed(frame_view(*old(state)), old(state).stack_view().last()));
    }

    /// Pushes a new variable of type `t` assigned `expression`.
    fn emit(
        &self,
        state: &mut StackAndLocals,
        var_id_gen: &mut VarIdGen,
        t: Type,
        expression: Expr,
    ) -> (r: Result<Option<TranslateNext>, TranslateError>)
        requires
            old(var_id_gen)@ < u64::MAX,
        ensures
            step_done(
                *final(state),
                final(var_id_gen)@,
                r,
                emit_new_var(frame_view(*old(state)), old(var_id_gen)@, t@, expression@),
            ),
    {
        let var = var_id_gen.gen(t);
        state.push(var.duplicate());
        let statement = Statement { assign: Some(var), expression };
        let r = Ok(Some(TranslateNext::Statement(statement)));
        assert(frame_view(*state) =~= emit_new_var(frame_view(*old(state)), old(var_id_gen)@, t@, expression@).0);
        r
    }

    fn iconst(&self, state: &mut StackAndLocals, var_id_gen: &mut VarIdGen, value: i32) -> (r: Result<
        Option<TranslateNext>,
        TranslateError,
    >)
        requires
            old(var_id_gen)@ < u64::MAX,
        ensures
            step_done(
                *final(state),
                final(var_id_gen)@,
                r,
                emit_new_var(frame_view(*old(state)), old(var_id_gen)@, SpecType::Integer, SpecExpr::Const(Const::Int(value))),
            ),
    {
        self.emit(state, var_id_gen, Type::integer(), Expr::Const(Const::Int(value)))
    }

    fn lconst(&self, state: &mut StackAndLocals, var_id_gen: &mut VarIdGen, value: i64) -> (r: Result<
        Option<TranslateNext>,
        TranslateError,
    >)
        requires
            old(var_id_gen)@ < u64::MAX,
        ensures
            step_done(
                *final(state),
                final(var_id_gen)@,
                r,
                emit_new_var(frame_view(*old(state)), old(var_id_gen)@, SpecType::Long, SpecExpr::Const(Const::Long(value))),
            ),
    {
        self.emit(state, var_id_gen, Type::Long, Expr::Const(Const::Long(value)))
    }

    fn get_static(&self, state: &mut StackAndLocals, var_id_gen: &mut VarIdGen, idx: u16) -> (r: Result<
        Option<TranslateNext>,
        TranslateError,
    >)
        requires
            old(var_id_gen)@ < u64::MAX,
            spec_get_field_ref(self.consts@, ConstantIndex(idx)) is Some,
        ensures
            step_done(
                *final(state),
                final(var_id_gen)@,
                r,
                translate_step(Instr::GetStatic(idx), self.range.start, self.range.end, frame_view(*old(state)), old(var_id_gen)@, self.consts@),
            ),
    {
        reveal(translate_step);
        let field = self.consts.get_field_ref(ConstantIndex::from_u16(idx)).unwrap();
        self.emit(state, var_id_gen, Type::from_field_type(field.descriptor), Expr::GetStatic(ConstantIndex::from_u16(idx)))
    }

    fn load_const(&self, state: &mut StackAndLocals, var_id_gen: &mut VarIdGen, idx: u16) -> (r: Result<
        Option<TranslateNext>,
        TranslateError,
    >)
        requires
            old(var_id_gen)@ < u64::MAX,
            spec_get_info(self.consts@, ConstantIndex(idx)) is Some,
        ensures
            step_done(
                *final(state),
                final(var_id_gen)@,
                r,
                load_const_step(frame_view(*old(state)), old(var_id_gen)@, self.consts@, ConstantIndex(idx)),
            ),
    {
        match self.consts.get_info(ConstantIndex::from_u16(idx)).unwrap() {
            Constant::String(string_const) => {
                self.emit(state, var_id_gen, Type::string(), Expr::Const(Const::String(string_const.string_index)))
            },
            Constant::Integer(integer_const) => {
                self.emit(state, var_id_gen, Type::integer(), Expr::Const(Const::Int(integer_const.value)))
            },
            Constant::Long(long_const) => {
                self.emit(state, var_id_gen, Type::Long, Expr::Const(Const::Long(long_const.value)))
            },
            _ => Err(TranslateError::UnsupportedConstant),
        }
    }

    fn lcmp(&self, state: &mut StackAndLocals, var_id_gen: &mut VarIdGen) -> (r: Result<Option<TranslateNext>, TranslateError>)
        requires
            old(var_id_gen)@ < u64::MAX,
            old(state).stack@.len() >= 2,
        ensures
            step_done(
                *final(state),
                final(var_id_gen)@,
                r,
                translate_step(Instr::LCmp, self.range.start, self.range.end, frame_view(*old(state)), old(var_id_gen)@, self.consts@),
            ),
    {
        reveal(translate_step);
        let value2 = state.pop();
        assert(state.stack_view().len() == state.stack@.len());
        let value1 = state.pop();
        assert(state.stack_view() =~= old(state).stack_view().subrange(0, old(state).stack@.len() - 2));
        self.emit(state, var_id_gen, Type::integer(), Expr::LCmp(value1, value2))
    }

    fn ladd(&self, state: &mut StackAndLocals, var_id_gen: &mut VarIdGen) -> (r: Result<Option<TranslateNext>, TranslateError>)
        requires
            old(var_id_gen)@ < u64::MAX,
            old(state).stack@.len() >= 2,
        ensures
            step_done(
                *final(state),
                final(var_id_gen)@,
                r,
                translate_step(Instr::LAdd, self.range.start, self.range.end, frame_view(*old(state)), old(var_id_gen)@, self.consts@),
            ),
    {
        reveal(translate_step);
        let value2 = state.pop();
        assert(state.stack_view().len() == state.stack@.len());
        let value1 = state.pop();
        assert(state.stack_view() =~= old(state).stack_view().subrange(0, old(state).stack@.len() - 2));
        self.emit(state, var_id_gen, Type::Long, Expr::LAdd(value1, value2))
    }

    fn iinc(&self, state: &mut StackAndLocals, var_id_gen: &mut VarIdGen, idx: u8, value: i32) -> (r: Result<
        Option<TranslateNext>,
        TranslateError,
    >)
        requires
            old(var_id_gen)@ < u64::MAX,
            old(state).locals@.contains_key(idx as usize),
        ensures
            ({
                let f = frame_view(*old(state));
                let id = old(var_id_gen)@;
                step_done(
                    *final(state),
                    final(var_id_gen)@,
                    r,
                    (
                        SpecFrame { stack: f.stack, locals: f.locals.insert(idx as usize, (SpecType::Integer, id)) },
                        (id + 1) as u64,
                        SpecStep::Emit(
                            SpecStatement {
                                assign: Some((SpecType::Integer, id)),
                                expression: SpecExpr::IInc(f.locals[idx as usize], value),
                            },
                        ),
                    ),
                )
            }),
    {
        let var2 = var_id_gen.gen(Type::integer());
        let var1 = match state.locals.get(&(idx as usize)) {
            Some(v) => v.duplicate(),
            None => {
                assert(false);
                return Err(TranslateError::UnsupportedInstruction);
            },
        };
        state.locals.insert(idx as usize, var2.duplicate());
        assert(frame_view(*state).locals =~= frame_view(*old(state)).locals.insert(idx as usize, (SpecType::Integer, old(var_id_gen)@)));
        assert(frame_view(*state).stack =~= frame_view(*old(state)).stack);
        let statement = Statement { assign: Some(var2), expression: Expr::IInc(var1, value) };
        Ok(Some(TranslateNext::Statement(statement)))
    }

    fn new(&self, state: &mut StackAndLocals, var_id_gen: &mut VarIdGen, idx: u16) -> (r: Result<
        Option<TranslateNext>,
        TranslateError,
    >)
        requires
            step_admitted(Instr::New(idx), frame_view(*old(state)), old(var_id_gen)@, self.consts@),
        ensures
            step_done(
                *final(state),
                final(var_id_gen)@,
                r,
                translate_step(Instr::New(idx), self.range.start, self.range.end, frame_view(*old(state)), old(var_id_gen)@, self.consts@),
            ),
    {
        reveal(translate_step);
        let class = self.consts.get_class(ConstantIndex::from_u16(idx)).unwrap();
        let class_name = self.consts.get_utf8(class.name_index).unwrap();
        let t = Type::Object(Utf8Constant { string: class_name.to_owned() });
        self.emit(state, var_id_gen, t, Expr::New(class_name.to_owned()))
    }
    fn invoke(&self, state: &mut StackAndLocals, var_id_gen: &mut VarIdGen, invoke: InvokeType, idx: u16) -> (r: Result<
        Option<TranslateNext>,
        TranslateError,
    >)
        requires
            invoke_admitted(frame_view(*old(state)), old(var_id_gen)@, self.consts@, invoke, ConstantIndex(idx)),
        ensures
            step_done(
                *final(state),
                final(var_id_gen)@,
                r,
                invoke_step(frame_view(*old(state)), old(var_id_gen)@, self.consts@, invoke, ConstantIndex(idx)),
            ),
    {
        let cidx = ConstantIndex::from_u16(idx);
        let method = self.consts.get_method_ref(cidx).unwrap();
        let method_args_len = method.descriptor.params.len();
        assert(method_args_len == method@.descriptor.params.len());
        let ghost f = frame_view(*old(state));
        let ghost n = f.stack.len() as int;
        let args = state.pop_n(method_args_len);
        assert(state.stack_view().len() == state.stack@.len());
        let target = match invoke {
            InvokeType::Static => InvokeTarget::Static,
            InvokeType::Special => InvokeTarget::Special(state.pop()),
            InvokeType::Virtual => InvokeTarget::Virtual(state.pop()),
        };
        let ghost rest = f.stack.subrange(0, n - method_args_len);
        assert(invoke is Static ==> state.stack_view() =~= rest);
        assert(!(invoke is Static) ==> state.stack_view() =~= rest.drop_last());
        let expr = Expr::Invoke(InvokeExpr { target, index: cidx, args });
        match method.descriptor.ret {
            ReturnTypeDescriptor::Void => {
                let statement = Statement { assign: None, expression: expr };
                assert(frame_view(*state) =~= invoke_step(f, old(var_id_gen)@, self.consts@, invoke, cidx).0);
                Ok(Some(TranslateNext::Statement(statement)))
            },
            ReturnTypeDescriptor::Field(field_type) => {
                let t = Type::from_field_type(field_type);
                self.emit(state, var_id_gen, t, expr)
            },
        }
    }

    fn athrow(&self, state: &mut StackAndLocals) -> (r: Result<Option<TranslateNext>, TranslateError>)
        requires
            old(state).stack@.len() > 0,
        ensures
            ({
                let f = frame_view(*old(state));
                &&& frame_view(*final(state)) == popped(f)
                &&& step_view(r) == SpecStep::End(SpecBranch::Throw(f.stack.last()), false)
            }),
    {
        let var = state.pop();
        assert(frame_view(*state) =~= popped(frame_view(*old(state))));
        Ok(Some(TranslateNext::Branch(BranchStub::Throw(var), None)))
    }

    fn goto(&self, offset: i16) -> (r: Result<Option<TranslateNext>, TranslateError>)
        ensures
            step_view(r) == SpecStep::End(SpecBranch::Goto(branch_to(self.range.start, offset)), false),
    {
        let addr = jump_block(self.range.start, offset);
        Ok(Some(TranslateNext::Branch(BranchStub::Goto(addr), None)))
    }

    fn ret(&self, state: &mut StackAndLocals, with_value: bool) -> (r: Result<Option<TranslateNext>, TranslateError>)
        requires
            with_value ==> old(state).stack@.len() > 0,
        ensures
            ({
                let f = frame_view(*old(state));
                &&& frame_view(*final(state)) == if with_value { popped(f) } else { f }
                &&& step_view(r) == SpecStep::End(
                    SpecBranch::Return(if with_value { Some(f.stack.last()) } else { None }),
                    true,
                )
            }),
    {
        let mut var_opt = None;
        if with_value {
            var_opt = Some(state.pop());
            assert(frame_view(*state) =~= popped(frame_view(*old(state))));
        }
        Ok(Some(TranslateNext::Branch(BranchStub::Return(var_opt), Some(ExceptionHandlers))))
    }

    fn if_icmp(&self, state: &mut StackAndLocals, offset: i16, comp: IComparator) -> (r: Result<
        Option<TranslateNext>,
        TranslateError,
    >)
        requires
            old(state).stack@.len() >= 2,
        ensures
            ({
                let f = frame_view(*old(state));
                &&& frame_view(*final(state)) == popped_two(f)
                &&& step_view(r) == SpecStep::End(
                    SpecBranch::IfICmp(comp, second_top(f), Some(f.stack.last()), branch_to(self.range.start, offset), BlockId(self.range.end)),
                    false,
                )
            }),
    {
        let value2 = state.pop();
        assert(state.stack_view().len() == state.stack@.len());
        let value1 = state.pop();
        assert(frame_view(*state) =~= popped_two(frame_view(*old(state))));
        let if_addr = jump_block(self.range.start, offset);
        let else_addr = BlockId::from_addr(self.range.end);
        Ok(Some(TranslateNext::Branch(BranchStub::IfICmp(comp, value1, Some(value2), if_addr, else_addr), None)))
    }

    fn if_zcmp(&self, state: &mut StackAndLocals, offset: i16, comp: IComparator) -> (r: Result<
        Option<TranslateNext>,
        TranslateError,
    >)
        requires
            old(state).stack@.len() > 0,
        ensures
            ({
                let f = frame_view(*old(state));
                &&& frame_view(*final(state)) == popped(f)
                &&& step_view(r) == SpecStep::End(
                    SpecBranch::IfICmp(comp, f.stack.last(), None, branch_to(self.range.start, offset), BlockId(self.range.end)),
                    false,
                )
            }),
    {
        let var = state.pop();
        assert(frame_view(*state) =~= popped(frame_view(*old(state))));
        let if_addr = jump_block(self.range.start, offset);
        let else_addr = BlockId::from_addr(self.range.end);
        Ok(Some(TranslateNext::Branch(BranchStub::IfICmp(comp, var, None, if_addr, else_addr), None)))
    }

    fn if_acmp(&self, state: &mut StackAndLocals, offset: i16, comp: AComparator) -> (r: Result<
        Option<TranslateNext>,
        TranslateError,
    >)
        requires
            old(state).stack@.len() >= 2,
        ensures
            ({
                let f = frame_view(*old(state));
                &&& frame_view(*final(state)) == popped_two(f)
                &&& step_view(r) == SpecStep::End(
                    SpecBranch::IfACmp(comp, second_top(f), f.stack.last(), branch_to(self.range.start, offset), BlockId(self.range.end)),
                    false,
                )
            }),
    {
        let value2 = state.pop();
        assert(state.stack_view().len() == state.stack@.len());
        let value1 = state.pop();
        assert(frame_view(*state) =~= popped_two(frame_view(*old(state))));
        let if_addr = jump_block(self.range.start, offset);
        let else_addr = BlockId::from_addr(self.range.end);
        Ok(Some(TranslateNext::Branch(BranchStub::IfACmp(comp, value1, value2, if_addr, else_addr), None)))
    }
}

/// The instructions that end a block: jumps, conditional branches, returns
/// and throws.
pub open spec fn spec_ends_translation(i: Instr) -> bool {
    match i {
        Instr::Goto(_) | Instr::Return | Instr::IReturn | Instr::AReturn | Instr::IfLt(_)
        | Instr::IfLe(_) | Instr::IfEq(_) | Instr::IfGe(_) | Instr::IfICmpGe(_)
        | Instr::IfICmpLe(_) | Instr::IfACmpEq(_) | Instr::IfACmpNe(_) | Instr::AThrow => true,
        _ => false,
    }
}

fn ends_translation(i: &Instr) -> (r: bool)
    ensures
        r == spec_ends_translation(*i),
{
    match i {
        Instr::Goto(_) | Instr::Return | Instr::IReturn | Instr::AReturn | Instr::IfLt(_)
        | Instr::IfLe(_) | Instr::IfEq(_) | Instr::IfGe(_) | Instr::IfICmpGe(_)
        | Instr::IfICmpLe(_) | Instr::IfACmpEq(_) | Instr::IfACmpNe(_) | Instr::AThrow => true,
        _ => false,
    }
}

/// Translates an instruction that ends a block.
fn translate_branch(t: &TranslateInstr, state: &mut StackAndLocals, instr: &Instr) -> (r: Result<
    Option<TranslateNext>,
    TranslateError,
>)
    requires
        spec_ends_translation(*instr),
        step_admitted(*instr, frame_view(*old(state)), 0, t.consts@),
    ensures
        ({
            let want = translate_step(*instr, t.range.start, t.range.end, frame_view(*old(state)), 0, t.consts@);
            &&& frame_view(*final(state)) == want.0
            &&& step_view(r) == want.2
        }),
{
    reveal(translate_step);
    match instr {
        Instr::Goto(offset) => t.goto(*offset),
        Instr::Return => t.ret(state, false),
        Instr::IReturn => t.ret(state, true),
        Instr::AReturn => t.ret(state, true),
        Instr::IfLt(offset) => t.if_zcmp(state, *offset, IComparator::Lt),
        Instr::IfLe(offset) => t.if_zcmp(state, *offset, IComparator::Le),
        Instr::IfEq(offset) => t.if_zcmp(state, *offset, IComparator::Eq),
        Instr::IfGe(offset) => t.if_zcmp(state, *offset, IComparator::Ge),
        Instr::IfICmpGe(offset) => t.if_icmp(state, *offset, IComparator::Ge),
        Instr::IfICmpLe(offset) => t.if_icmp(state, *offset, IComparator::Le),
        Instr::IfACmpEq(offset) => t.if_acmp(state, *offset, AComparator::Eq),
        Instr::IfACmpNe(offset) => t.if_acmp(state, *offset, AComparator::Ne),
        _ => t.athrow(state),
    }
}

/// Translates `lcmp`.
fn translate_long_comparison(t: &TranslateInstr, state: &mut StackAndLocals, var_id_gen: &mut VarIdGen) -> (r: Result<
    Option<TranslateNext>,
    TranslateError,
>)
    requires
        step_admitted(Instr::LCmp, frame_view(*old(state)), old(var_id_gen)@, t.consts@),
    ensures
        step_done(
            *final(state),
            final(var_id_gen)@,
            r,
            translate_step(Instr::LCmp, t.range.start, t.range.end, frame_view(*old(state)), old(var_id_gen)@, t.consts@),
        ),
{
    reveal(translate_step);
    t.lcmp(state, var_id_gen)
}

/// What the instructions from the `i`-th on yield: the position
/// after the instruction that yielded something (or the end), the frame,
/// the next variable number, and the result, `Moved` when the instructions
/// ran out; not `admitted` when an instruction is reached whose translation
/// goes wrong.
#[verifier::ext_equal]
pub struct NextOutcome {
    pub pos: nat,
    pub frame: SpecFrame,
    pub next_id: u64,
    pub step: SpecStep,
    pub admitted: bool,
}

/// Translates instructions from the `i`-th on until one yields a statement,
/// ends the block or fails.
pub open spec fn next_outcome(
    instrs: Seq<InstructionWithRange>,
    i: nat,
    f: SpecFrame,
    id: u64,
    pool: Seq<SpecConstant>,
) -> NextOutcome
    decreases instrs.len() - i,
{
    if i >= instrs.len() {
        NextOutcome { pos: i, frame: f, next_id: id, step: SpecStep::Moved, admitted: true }
    } else if !step_admitted(instrs[i as int].instr, f, id, pool) {
        NextOutcome { pos: i, frame: f, next_id: id, step: SpecStep::Moved, admitted: false }
    } else {
        let e = instrs[i as int];
        let (f2, id2, st) = translate_step(e.instr, e.range.start, e.range.end, f, id, pool);
        match st {
            SpecStep::Moved => next_outcome(instrs, i + 1, f2, id2, pool),
            _ => NextOutcome { pos: i + 1, frame: f2, next_id: id2, step: st, admitted: true },
        }
    }
}

/// Translates instructions from position `*pos` on until one yields a
/// statement or ends the block; `None` when the instructions run out first.
#[verifier::rlimit(60)]
#[verifier::spinoff_prover]
pub fn translate_next(
    instrs: &Vec<InstructionWithRange>,
    pos: &mut usize,
    state: &mut StackAndLocals,
    consts: &ConstantPool,
    var_id_gen: &mut VarIdGen,
) -> (r: Result<Option<TranslateNext>, TranslateError>)
    requires
        next_outcome(instrs@, *old(pos) as nat, frame_view(*old(state)), old(var_id_gen)@, consts@).admitted,
    ensures
        ({
            let o = next_outcome(instrs@, *old(pos) as nat, frame_view(*old(state)), old(var_id_gen)@, consts@);
            &&& *final(pos) == o.pos
            &&& frame_view(*final(state)) == o.frame
            &&& final(var_id_gen)@ == o.next_id
            &&& step_view(r) == o.step
        }),
{
    reveal(translate_step);
    let ghost goal = next_outcome(instrs@, *pos as nat, frame_view(*state), var_id_gen@, consts@);
    let mut i = *pos;
    while i < instrs.len()
        invariant
            *pos == i,
            goal == next_outcome(instrs@, *old(pos) as nat, frame_view(*old(state)), old(var_id_gen)@, consts@),
            goal == next_outcome(instrs@, i as nat, frame_view(*state), var_id_gen@, consts@),
            goal.admitted,
        decreases instrs@.len() - i,
    {
        reveal(translate_step);
        let e = &instrs[i];
        i = i + 1;
        *pos = i;
        let t = TranslateInstr { range: &e.range, consts };
        match &e.instr {
            Instr::ALoad0 => t.load(state, 0),
            Instr::ALoad1 => t.load(state, 1),
            Instr::ALoad2 => t.load(state, 2),
            Instr::AStore1 => t.store(state, 1),
            Instr::AStore2 => t.store(state, 2),
            Instr::ILoad(idx) => t.load(state, *idx as usize),
            Instr::IStore(idx) => t.store(state, *idx as usize),
            Instr::LLoad(idx) => t.load(state, *idx as usize),
            Instr::LStore(idx) => t.store(state, *idx as usize),
            Instr::Dup => t.duplicate(state),
            Instr::IConst0 => return t.iconst(state, var_id_gen, 0),
            Instr::IConst1 => return t.iconst(state, var_id_gen, 1),
            Instr::IConst2 => return t.iconst(state, var_id_gen, 2),
            Instr::IConst3 => return t.iconst(state, var_id_gen, 3),
            Instr::LConst0 => return t.lconst(state, var_id_gen, 0),
            Instr::LConst1 => return t.lconst(state, var_id_gen, 1),
            Instr::BiPush(b) => return t.iconst(state, var_id_gen, *b as i32),
            Instr::IInc(idx, value) => return t.iinc(state, var_id_gen, *idx, *value as i32),
            Instr::GetStatic(idx) => return t.get_static(state, var_id_gen, *idx),
            Instr::LdC(idx) => return t.load_const(state, var_id_gen, *idx as u16),
            Instr::LdCW(idx) => return t.load_const(state, var_id_gen, *idx),
            Instr::LdC2W(idx) => return t.load_const(state, var_id_gen, *idx),
            Instr::InvokeSpecial(idx) => return t.invoke(state, var_id_gen, InvokeType::Special, *idx),
            Instr::InvokeStatic(idx) => return t.invoke(state, var_id_gen, InvokeType::Static, *idx),
            Instr::InvokeVirtual(idx) => return t.invoke(state, var_id_gen, InvokeType::Virtual, *idx),
            Instr::New(idx) => return t.new(state, var_id_gen, *idx),
            Instr::LCmp => return translate_long_comparison(&t, state, var_id_gen),
            Instr::LAdd => return t.ladd(state, var_id_gen),
            _ => {
                if ends_translation(&e.instr) {
                    return translate_branch(&t, state, &e.instr);
                } else {
                    return Err(TranslateError::UnsupportedInstruction);
                }
            },
        }
    }
    Ok(None)
}

/// The position reached is not before the start, not past the end, and
/// past the start when something was yielded.
pub proof fn lemma_next_outcome_pos(
    instrs: Seq<InstructionWithRange>,
    i: nat,
    f: SpecFrame,
    id: u64,
    pool: Seq<SpecConstant>,
)
    requires
        i <= instrs.len(),
    ensures
        i <= next_outcome(instrs, i, f, id, pool).pos <= instrs.len(),
        !(next_outcome(instrs, i, f, id, pool).step is Moved) ==> i < next_outcome(instrs, i, f, id, pool).pos,
    decreases instrs.len() - i,
{
    if i < instrs.len() && step_admitted(instrs[i as int].instr, f, id, pool) {
        let e = instrs[i as int];
        let (f2, id2, st) = translate_step(e.instr, e.range.start, e.range.end, f, id, pool);
        if st is Moved {
            lemma_next_outcome_pos(instrs, i + 1, f2, id2, pool);
        }
    }
}

/// How translating a block comes out.
#[verifier::ext_equal]
pub enum BlockOutcome {
    /// The statements, the ending, whether exception handlers are in force,
    /// the frame on exit, and the next variable number.
    Done(Seq<SpecStatement>, SpecBranch, bool, SpecFrame, u64),
    Failed(TranslateError),
    /// An instruction was reached whose translation goes wrong.
    Refused,
}

/// Translates the instructions of a block from the `i`-th on, after the
/// statements `stmts`: statements are collected until an instruction ends the
/// block; when the instructions run out first, the block falls through to the
/// one at `end`.
pub open spec fn block_from(
    instrs: Seq<InstructionWithRange>,
    i: nat,
    f: SpecFrame,
    id: u64,
    pool: Seq<SpecConstant>,
    stmts: Seq<SpecStatement>,
    end: u32,
) -> BlockOutcome
    decreases instrs.len() - i,
{
    let o = next_outcome(instrs, i, f, id, pool);
    if i > instrs.len() || !o.admitted {
        BlockOutcome::Refused
    } else {
        match o.step {
            SpecStep::Moved => BlockOutcome::Done(stmts, SpecBranch::Goto(BlockId(end)), true, o.frame, o.next_id),
            SpecStep::Emit(s) => {
                proof {
                    lemma_next_outcome_pos(instrs, i, f, id, pool);
                }
                block_from(instrs, o.pos, o.frame, o.next_id, pool, stmts.push(s), end)
            },
            SpecStep::End(b, e) => BlockOutcome::Done(stmts, b, e, o.frame, o.next_id),
            SpecStep::Fail(err) => BlockOutcome::Failed(err),
        }
    }
}

/// The mathematical values of statements.
pub open spec fn statements_view(s: Seq<Statement>) -> Seq<SpecStatement> {
    s.map_values(|x: Statement| x@)
}

/// Translates a block of instructions, starting from the frame `incoming`.
pub fn translate_block(
    instr_block: &InstructionBlock,
    incoming: StackAndLocals,
    consts: &ConstantPool,
    var_id_gen: &mut VarIdGen,
) -> (r: Result<BasicBlock, TranslateError>)
    requires
        !(block_from(instr_block.instrs@, 0, frame_view(incoming), old(var_id_gen)@, consts@, seq![], instr_block.range.end) is Refused),
    ensures
        match block_from(instr_block.instrs@, 0, frame_view(incoming), old(var_id_gen)@, consts@, seq![], instr_block.range.end) {
            BlockOutcome::Done(statements, branch, exceptions, outgoing, next_id) => r matches Ok(b) && {
                &&& b.address == BlockId(instr_block.range.start)
                &&& frame_view(b.incoming) == frame_view(incoming)
                &&& statements_view(b.statements@) == statements
                &&& b.branch_stub@ == branch
                &&& (b.exceptions is Some) == exceptions
                &&& frame_view(b.outgoing) == outgoing
                &&& final(var_id_gen)@ == next_id
            },
            BlockOutcome::Failed(e) => r matches Err(x) && x == e,
            BlockOutcome::Refused => false,
        },
{
    let ghost goal = block_from(instr_block.instrs@, 0, frame_view(incoming), var_id_gen@, consts@, seq![], instr_block.range.end);
    let address = BlockId(instr_block.range.start);
    let mut state = incoming.duplicate();
    let mut statements: Vec<Statement> = Vec::new();
    let mut pos: usize = 0;
    assert(frame_view(state) =~= frame_view(incoming));
    assert(statements_view(statements@) =~= Seq::<SpecStatement>::empty());
    loop
        invariant
            address == BlockId(instr_block.range.start),
            pos <= instr_block.instrs@.len(),
            goal == block_from(instr_block.instrs@, 0, frame_view(incoming), old(var_id_gen)@, consts@, seq![], instr_block.range.end),
            goal == block_from(instr_block.instrs@, pos as nat, frame_view(state), var_id_gen@, consts@, statements_view(statements@), instr_block.range.end),
            !(goal is Refused),
        decreases instr_block.instrs@.len() - pos,
    {
        let ghost p0 = pos;
        let ghost f0 = frame_view(state);
        let ghost id0 = var_id_gen@;
        proof {
            lemma_next_outcome_pos(instr_block.instrs@, pos as nat, f0, id0, consts@);
        }
        match translate_next(&instr_block.instrs, &mut pos, &mut state, consts, var_id_gen) {
            Err(e) => {
                return Err(e);
            },
            Ok(Some(TranslateNext::Statement(stmt))) => {
                let ghost before = statements_view(statements@);
                statements.push(stmt);
                assert(statements_view(statements@) =~= before.push(stmt@));
            },
            Ok(Some(TranslateNext::Branch(branch_stub, exceptions))) => {
                return Ok(BasicBlock { address, incoming, statements, branch_stub, exceptions, outgoing: state });
            },
            Ok(None) => {
                let branch_stub = BranchStub::Goto(BlockId(instr_block.range.end));
                return Ok(BasicBlock {
                    address,
                    incoming,
                    statements,
                    branch_stub,
                    exceptions: Some(ExceptionHandlers),
                    outgoing: state,
                });
            },
        }
    }
}

/// The variables that statements assign are numbered below `bound` and
/// strictly increase along the statements.
pub open spec fn assigns_increasing(stmts: Seq<SpecStatement>, low: u64, bound: u64) -> bool {
    &&& forall|k: int| 0 <= k < stmts.len() ==> (#[trigger] stmts[k].assign matches Some(v) ==> low <= v.1 < bound)
    &&& forall|k: int, l: int|
        0 <= k < l < stmts.len() ==> (#[trigger] stmts[k].assign matches Some(v) ==> (#[trigger] stmts[l].assign matches Some(w) ==> v.1 < w.1))
}

/// One instruction numbers any variable it assigns with the next number, and
/// only takes numbers.
proof fn lemma_step_fresh(instr: Instr, start: u32, end: u32, f: SpecFrame, id: u64, pool: Seq<SpecConstant>)
    requires
        step_admitted(instr, f, id, pool),
    ensures
        ({
            let (f2, id2, st) = translate_step(instr, start, end, f, id, pool);
            &&& id <= id2
            &&& st matches SpecStep::Emit(s) ==> (s.assign matches Some(v) ==> v.1 == id && id2 == id + 1)
        }),
{
    reveal(translate_step);
}

proof fn lemma_next_fresh(instrs: Seq<InstructionWithRange>, i: nat, f: SpecFrame, id: u64, pool: Seq<SpecConstant>)
    ensures
        ({
            let o = next_outcome(instrs, i, f, id, pool);
            &&& id <= o.next_id
            &&& o.step matches SpecStep::Emit(s) ==> (s.assign matches Some(v) ==> id <= v.1 && v.1 + 1 == o.next_id)
        }),
    decreases instrs.len() - i,
{
    if i < instrs.len() && step_admitted(instrs[i as int].instr, f, id, pool) {
        let e = instrs[i as int];
        lemma_step_fresh(e.instr, e.range.start, e.range.end, f, id, pool);
        let (f2, id2, st) = translate_step(e.instr, e.range.start, e.range.end, f, id, pool);
        if st is Moved {
            lemma_next_fresh(instrs, i + 1, f2, id2, pool);
        }
    }
}

proof fn lemma_block_fresh(
    instrs: Seq<InstructionWithRange>,
    i: nat,
    f: SpecFrame,
    id: u64,
    pool: Seq<SpecConstant>,
    stmts: Seq<SpecStatement>,
    end: u32,
    low: u64,
)
    requires
        low <= id,
        assigns_increasing(stmts, low, id),
    ensures
        block_from(instrs, i, f, id, pool, stmts, end) matches BlockOutcome::Done(s2, _, _, _, nid) ==> id <= nid
            && assigns_increasing(s2, low, nid),
    decreases instrs.len() - i,
{
    let o = next_outcome(instrs, i, f, id, pool);
    lemma_next_fresh(instrs, i, f, id, pool);
    if i <= instrs.len() && o.admitted {
        if let SpecStep::Emit(st) = o.step {
            lemma_next_outcome_pos(instrs, i, f, id, pool);
            let s1 = stmts.push(st);
            assert forall|k: int| 0 <= k < s1.len() implies (#[trigger] s1[k].assign matches Some(v) ==> low <= v.1 < o.next_id) by {
                if k < stmts.len() {
                    assert(s1[k] == stmts[k]);
                }
            }
            assert forall|k: int, l: int| 0 <= k < l < s1.len() implies (#[trigger] s1[k].assign matches Some(v) ==> (
                #[trigger] s1[l].assign matches Some(w) ==> v.1 < w.1)) by {
                assert(s1[k] == stmts[k]);
                if l < stmts.len() {
                    assert(s1[l] == stmts[l]);
                }
            }
            lemma_block_fresh(instrs, o.pos, o.frame, o.next_id, pool, s1, end, low);
        }
    }
}

/// Single assignment within a block: the variables that the statements of a
/// translated block assign get numbers from the generator, none twice, in
/// increasing order, so none of them was in use before.
pub proof fn law_block_assigns_fresh_variables(
    instrs: Seq<InstructionWithRange>,
    f: SpecFrame,
    id: u64,
    pool: Seq<SpecConstant>,
    end: u32,
)
    ensures
        block_from(instrs, 0, f, id, pool, seq![], end) matches BlockOutcome::Done(stmts, _, _, _, nid) ==> id <= nid
            && assigns_increasing(stmts, id, nid),
{
    lemma_block_fresh(instrs, 0, f, id, pool, seq![], end, id);
}

/// Whether `a` stands in the relation `c` to `b`.
pub open spec fn icomparator_holds(c: IComparator, a: int, b: int) -> bool {
    match c {
        IComparator::Lt => a < b,
        IComparator::Le => a <= b,
        IComparator::Eq => a == b,
        IComparator::Ge => a >= b,
    }
}

/// Whether two references compare as `c` says, given whether they are the
/// same reference.
pub open spec fn acomparator_holds(c: AComparator, same: bool) -> bool {
    match c {
        AComparator::Eq => same,
        AComparator::Ne => !same,
    }
}

/// Whether the JVM takes the conditional branch `instr` on `int` values:
/// `ifeq` to `ifle` compare the value `a` with zero, `if_icmpeq` to
/// `if_icmple` compare `a` (the value below the top) with `b` (the top).
pub open spec fn jvm_int_branch_taken(instr: Instr, a: int, b: int) -> Option<bool> {
    match instr {
        Instr::IfEq(_) => Some(a == 0),
        Instr::IfNe(_) => Some(a != 0),
        Instr::IfLt(_) => Some(a < 0),
        Instr::IfGe(_) => Some(a >= 0),
        Instr::IfGt(_) => Some(a > 0),
        Instr::IfLe(_) => Some(a <= 0),
        Instr::IfICmpEq(_) => Some(a == b),
        Instr::IfICmpNe(_) => Some(a != b),
        Instr::IfICmpLt(_) => Some(a < b),
        Instr::IfICmpGe(_) => Some(a >= b),
        Instr::IfICmpGt(_) => Some(a > b),
        Instr::IfICmpLe(_) => Some(a <= b),
        _ => None,
    }
}

/// Whether the JVM takes the conditional branch `instr` on two references,
/// given whether they are the same.
pub open spec fn jvm_ref_branch_taken(instr: Instr, same: bool) -> Option<bool> {
    match instr {
        Instr::IfACmpEq(_) => Some(same),
        Instr::IfACmpNe(_) => Some(!same),
        _ => None,
    }
}

/// The offset of a branch instruction, from its own address to its target.
pub open spec fn jvm_branch_offset(instr: Instr) -> Option<i16> {
    match instr {
        Instr::Goto(o) | Instr::IfEq(o) | Instr::IfNe(o) | Instr::IfLt(o) | Instr::IfGe(o)
        | Instr::IfGt(o) | Instr::IfLe(o) | Instr::IfICmpEq(o) | Instr::IfICmpNe(o)
        | Instr::IfICmpLt(o) | Instr::IfICmpGe(o) | Instr::IfICmpGt(o) | Instr::IfICmpLe(o)
        | Instr::IfACmpEq(o) | Instr::IfACmpNe(o) | Instr::IfNull(o) | Instr::IfNonNull(o) => Some(o),
        _ => None,
    }
}

/// Whether `t` is the block at `start + offset`, wrapped to 32 bits.
pub open spec fn targets(t: BlockId, start: u32, offset: i16) -> bool {
    t.0 as int == (start as int + offset as int) % 0x1_0000_0000
}

/// Translating a branch keeps the JVM's meaning of it: a branch on `int`
/// values becomes a comparison that holds exactly when the JVM takes the
/// branch, on the value on top of the stack against zero or on the two
/// values on top; a branch on references compares them as the JVM does; a
/// taken branch goes to the instruction's own address plus its offset, and
/// otherwise to the next instruction; `goto` goes to its target; `return`
/// gives no value, `ireturn` and `areturn` the value on top of the stack.
pub proof fn law_branches_keep_their_jvm_meaning(
    instr: Instr,
    start: u32,
    end: u32,
    f: SpecFrame,
    id: u64,
    pool: Seq<SpecConstant>,
)
    requires
        step_admitted(instr, f, id, pool),
    ensures
        translate_step(instr, start, end, f, id, pool).2 matches SpecStep::End(SpecBranch::IfICmp(c, x, y, t, e), _) ==> {
            &&& jvm_branch_offset(instr) is Some
            &&& targets(t, start, jvm_branch_offset(instr)->0)
            &&& e == BlockId(end)
            &&& (y is None ==> x == f.stack.last() && forall|v: int, w: int|
                jvm_int_branch_taken(instr, v, w) == Some(icomparator_holds(c, v, 0)))
            &&& (y is Some ==> x == f.stack[f.stack.len() - 2] && y->0 == f.stack.last() && forall|a: int, b: int|
                jvm_int_branch_taken(instr, a, b) == Some(icomparator_holds(c, a, b)))
        },
        translate_step(instr, start, end, f, id, pool).2 matches SpecStep::End(SpecBranch::IfACmp(c, x, y, t, e), _) ==> {
            &&& jvm_branch_offset(instr) is Some
            &&& targets(t, start, jvm_branch_offset(instr)->0)
            &&& e == BlockId(end)
            &&& x == f.stack[f.stack.len() - 2]
            &&& y == f.stack.last()
            &&& forall|same: bool| jvm_ref_branch_taken(instr, same) == Some(acomparator_holds(c, same))
        },
        translate_step(instr, start, end, f, id, pool).2 matches SpecStep::End(SpecBranch::Goto(t), _) ==> {
            &&& instr is Goto
            &&& targets(t, start, jvm_branch_offset(instr)->0)
        },
        translate_step(instr, start, end, f, id, pool).2 matches SpecStep::End(SpecBranch::Return(v), _) ==> {
            &&& (instr is Return <==> v is None)
            &&& (v is Some ==> (instr is IReturn || instr is AReturn) && v->0 == f.stack.last())
        },
{
    reveal(translate_step);
}

/// The local variable slot that a JVM load instruction reads.
pub open spec fn jvm_local_loaded(instr: Instr) -> Option<int> {
    match instr {
        Instr::ALoad0 => Some(0),
        Instr::ALoad1 => Some(1),
        Instr::ALoad2 => Some(2),
        Instr::ALoad3 => Some(3),
        Instr::ALoad(k) | Instr::ILoad(k) | Instr::LLoad(k) | Instr::FLoad(k) | Instr::DLoad(k) => Some(k as int),
        _ => None,
    }
}

/// The local variable slot that a JVM store instruction writes.
pub open spec fn jvm_local_stored(instr: Instr) -> Option<int> {
    match instr {
        Instr::AStore0 => Some(0),
        Instr::AStore1 => Some(1),
        Instr::AStore2 => Some(2),
        Instr::AStore3 => Some(3),
        Instr::AStore(k) | Instr::IStore(k) | Instr::LStore(k) | Instr::FStore(k) | Instr::DStore(k) => Some(k as int),
        _ => None,
    }
}

/// The constant that a JVM constant instruction pushes.
pub open spec fn jvm_constant_pushed(instr: Instr) -> Option<Const> {
    match instr {
        Instr::IConstM1 => Some(Const::Int(-1i32)),
        Instr::IConst0 => Some(Const::Int(0i32)),
        Instr::IConst1 => Some(Const::Int(1i32)),
        Instr::IConst2 => Some(Const::Int(2i32)),
        Instr::IConst3 => Some(Const::Int(3i32)),
        Instr::IConst4 => Some(Const::Int(4i32)),
        Instr::IConst5 => Some(Const::Int(5i32)),
        Instr::LConst0 => Some(Const::Long(0i64)),
        Instr::LConst1 => Some(Const::Long(1i64)),
        Instr::BiPush(b) => Some(Const::Int(b as i32)),
        Instr::SiPush(v) => Some(Const::Int(v as i32)),
        _ => None,
    }
}

/// Translating an instruction that only moves values keeps the JVM's
/// meaning of it: a load pushes the variable in the slot it names, a store
/// moves the top of the stack into the slot it names, `dup` pushes the top
/// again; a constant instruction assigns its constant to a new variable on
/// top of the stack; `iinc` assigns the slot's variable plus the increment
/// to a new variable in that slot; `lcmp` and `ladd` combine the value
/// below the top with the top, in that order, and push the result.
pub proof fn law_values_move_as_on_the_jvm(
    instr: Instr,
    start: u32,
    end: u32,
    f: SpecFrame,
    id: u64,
    pool: Seq<SpecConstant>,
)
    requires
        step_admitted(instr, f, id, pool),
    ensures
        ({
            let (f2, id2, step) = translate_step(instr, start, end, f, id, pool);
            &&& (jvm_local_loaded(instr) matches Some(k) ==> step is Moved ==>
                f2.stack == f.stack.push(f.locals[k as usize]) && f2.locals == f.locals && id2 == id)
            &&& (jvm_local_stored(instr) matches Some(k) ==> step is Moved ==>
                f2.stack == f.stack.drop_last() && f2.locals == f.locals.insert(k as usize, f.stack.last()) && id2 == id)
            &&& (instr is Dup && step is Moved ==> f2.stack == f.stack.push(f.stack.last()) && f2.locals == f.locals)
            &&& (jvm_constant_pushed(instr) matches Some(c) ==> step matches SpecStep::Emit(st) ==> {
                &&& st.expression == SpecExpr::Const(c)
                &&& st.assign == Some((if c is Long { SpecType::Long } else { SpecType::Integer }, id))
                &&& f2.stack == f.stack.push((if c is Long { SpecType::Long } else { SpecType::Integer }, id))
                &&& f2.locals == f.locals
                &&& id2 == id + 1
            })
            &&& (instr matches Instr::IInc(k, d) ==> step matches SpecStep::Emit(st) ==> {
                &&& st.expression == SpecExpr::IInc(f.locals[k as usize], d as i32)
                &&& st.assign == Some((SpecType::Integer, id))
                &&& f2.locals == f.locals.insert(k as usize, (SpecType::Integer, id))
                &&& f2.stack == f.stack
            })
            &&& (step matches SpecStep::Emit(st) ==> instr is LCmp ==>
                st.expression == SpecExpr::LCmp(f.stack[f.stack.len() - 2], f.stack.last())
                && st.assign == Some((SpecType::Integer, id)))
            &&& (step matches SpecStep::Emit(st) ==> instr is LAdd ==>
                st.expression == SpecExpr::LAdd(f.stack[f.stack.len() - 2], f.stack.last())
                && st.assign == Some((SpecType::Long, id)))
            &&& ((instr is LCmp || instr is LAdd) && step is Emit ==>
                f2.stack == f.stack.subrange(0, f.stack.len() - 2).push(st_var(step)))
        }),
{
    reveal(translate_step);
}

/// The variable a statement step assigns.
pub open spec fn st_var(step: SpecStep) -> (SpecType, u64) {
    match step {
        SpecStep::Emit(st) => st.assign->0,
        _ => arbitrary(),
    }
}

/// Translating a method call keeps the JVM's meaning of it: the arguments
/// are the topmost values of the stack, as many as the method takes, in the
/// order they were pushed; `invokespecial` and `invokevirtual` call on the
/// object just below them, `invokestatic` on none; the call names the
/// method reference that the instruction names.
pub proof fn law_calls_take_their_operands_as_on_the_jvm(
    instr: Instr,
    start: u32,
    end: u32,
    f: SpecFrame,
    id: u64,
    pool: Seq<SpecConstant>,
)
    requires
        step_admitted(instr, f, id, pool),
    ensures
        translate_step(instr, start, end, f, id, pool).2 matches SpecStep::Emit(st) ==>
            st.expression matches SpecExpr::Invoke(target, idx, args) ==> {
                let n = f.stack.len() as int;
                let k = args.len() as int;
                &&& k == spec_get_method_ref(pool, idx)->0.descriptor.params.len()
                &&& args == f.stack.subrange(n - k, n)
                &&& (instr matches Instr::InvokeStatic(i) ==> target is Static && idx == ConstantIndex(i))
                &&& (instr matches Instr::InvokeSpecial(i) ==> target == SpecInvokeTarget::Special(f.stack[n - k - 1])
                    && idx == ConstantIndex(i))
                &&& (instr matches Instr::InvokeVirtual(i) ==> target == SpecInvokeTarget::Virtual(f.stack[n - k - 1])
                    && idx == ConstantIndex(i))
                &&& (instr is InvokeStatic || instr is InvokeSpecial || instr is InvokeVirtual)
            },
{
    reveal(translate_step);
}

} // verus!
