//! Blocks, variables, operands and branches of the intermediate form.
use vstd::prelude::*;
use vstd::std_specs::cmp::PartialOrdIs;
use core::cmp::Ordering;
use crate::classfile::constant_pool::ConstantIndex;
use crate::frontend::types::Type;

verus! {

/// A basic block, named by the address of its first instruction.
#[derive(Clone, Copy, Debug, PartialEq, Eq, Ord, Structural)]
pub struct BlockId(pub u32);

/// Blocks are ordered by their addresses.
impl PartialOrd for BlockId {
    fn partial_cmp(&self, other: &Self) -> (r: Option<Ordering>) {
        if self.0 < other.0 {
            Some(Ordering::Less)
        } else if self.0 == other.0 {
            Some(Ordering::Equal)
        } else {
            Some(Ordering::Greater)
        }
    }
}

impl vstd::std_specs::cmp::PartialOrdSpecImpl for BlockId {
    open spec fn obeys_partial_cmp_spec() -> bool {
        true
    }

    open spec fn partial_cmp_spec(&self, other: &Self) -> Option<Ordering> {
        if self.0 < other.0 {
            Some(Ordering::Less)
        } else if self.0 == other.0 {
            Some(Ordering::Equal)
        } else {
            Some(Ordering::Greater)
        }
    }
}

/// Blocks compare as the addresses that name them: one block comes before
/// another exactly when its address is lower, and two are equal exactly
/// when their addresses are.
pub proof fn law_blocks_ordered_by_address(a: u32, b: u32)
    ensures
        BlockId(a).is_lt(&BlockId(b)) <==> a < b,
        BlockId(a).is_le(&BlockId(b)) <==> a <= b,
        BlockId(a).is_gt(&BlockId(b)) <==> a > b,
        (BlockId(a) == BlockId(b)) <==> a == b,
{
}

impl BlockId {
    /// The block at the start of a method.
    pub fn start() -> (r: Self)
        ensures
            r.0 == 0,
    {
        BlockId(0)
    }

    pub fn from_addr(addr: u32) -> (r: Self)
        ensures
            r.0 == addr,
    {
        BlockId(addr)
    }

    /// The block at `addr + offset`, wrapped to 32 bits.
    pub fn from_addr_with_offset(addr: u32, offset: i32) -> (r: Self)
        ensures
            r.0 as int == (addr as int + offset as int) % 0x1_0000_0000,
    {
        let sum: i64 = addr as i64 + offset as i64;
        let r: u32 = #[verifier::truncate] (sum as u32);
        assert(r as int == (addr as int + offset as int) % 0x1_0000_0000) by (bit_vector)
            requires
                sum == addr as i64 + offset as i64,
                r == sum as u32,
        ;
        BlockId(r)
    }
}

/// A variable: its type and its number.
#[derive(Clone, Copy, Debug, PartialEq, Eq, PartialOrd, Ord, Structural)]
pub struct VarId(pub Type, pub u64);

/// Hands out variables with consecutive numbers.
pub struct VarIdGen {
    next_id: u64,
}

impl View for VarIdGen {
    type V = u64;

    /// The number of the next variable.
    closed spec fn view(&self) -> u64 {
        self.next_id
    }
}

impl VarIdGen {
    pub fn new() -> (r: Self)
        ensures
            r@ == 0,
    {
        VarIdGen { next_id: 0 }
    }

    /// A new variable of the given type; the numbers run out at `u64::MAX`.
    pub fn gen(&mut self, var_type: Type) -> (r: VarId)
        requires
            old(self)@ < u64::MAX,
        ensures
            r == VarId(var_type, old(self)@),
            final(self)@ == old(self)@ + 1,
    {
        let var_id = VarId(var_type, self.next_id);
        self.next_id += 1;
        var_id
    }
}

/// Counts that start at 0 and go up by one at each step are the step numbers.
pub proof fn lemma_counts_from_zero(counts: Seq<u64>, n: int)
    requires
        0 <= n < counts.len(),
        counts[0] == 0,
        forall|i: int| 0 <= i < n ==> #[trigger] counts[i + 1] == counts[i] + 1,
    ensures
        forall|i: int| 0 <= i <= n ==> #[trigger] counts[i] == i,
    decreases n,
{
    if n > 0 {
        lemma_counts_from_zero(counts, n - 1);
        assert(counts[(n - 1) + 1] == counts[n - 1] + 1);
    }
}

/// Variables come out numbered from 0 up: when a run of `gen` calls starts
/// on a new generator (whose count `new` sets to 0), each call returning
/// its type with the count it finds and adding one to it, the `i`-th call
/// returns the `i`-th type with number `i`, and no two calls share a
/// number.
pub proof fn law_var_ids_count_up(types: Seq<Type>, counts: Seq<u64>, ids: Seq<VarId>)
    requires
        counts.len() == types.len() + 1,
        ids.len() == types.len(),
        counts[0] == 0,
        forall|i: int| 0 <= i < types.len() ==> #[trigger] ids[i] == VarId(types[i], counts[i]),
        forall|i: int| 0 <= i < types.len() ==> #[trigger] counts[i + 1] == counts[i] + 1,
    ensures
        forall|i: int| 0 <= i < ids.len() ==> #[trigger] ids[i] == VarId(types[i], i as u64),
        forall|i: int, j: int| 0 <= i < j < ids.len() ==> #[trigger] ids[i].1 != #[trigger] ids[j].1,
{
    lemma_counts_from_zero(counts, types.len() as int);
    assert forall|i: int| 0 <= i < ids.len() implies #[trigger] ids[i] == VarId(types[i], i as u64) by {
        assert(counts[i] == i);
    }
}

/// An operation on two integers.
#[derive(Clone, Copy, Debug, PartialEq, Eq, Structural)]
pub enum BinaryOperation {
    Add,
    Sub,
    BitwiseAnd,
    BitwiseOr,
    BitwiseXor,
    ShiftLeft,
    ShiftRightLogical,
    ShiftRightArithmetic,
}

/// An operation on two operands with the type of its result.
#[derive(Clone, Copy, Debug, PartialEq, Eq, Structural)]
pub struct BinaryExpr {
    pub operation: BinaryOperation,
    pub result_type: Type,
    pub operand_left: Op,
    pub operand_right: Op,
}

/// A narrowing of an integer.
#[derive(Clone, Copy, Debug, PartialEq, Eq, Structural)]
pub enum ConvertOperation {
    IntToChar,
    IntToByte,
    IntToShort,
}

/// A narrowing of an operand.
#[derive(Clone, Copy, Debug, PartialEq, Eq, Structural)]
pub struct ConvertExpr {
    pub operation: ConvertOperation,
    pub operand: Op,
}

/// Entering or leaving an object's monitor.
#[derive(Clone, Copy, Debug, PartialEq, Eq, Structural)]
pub enum MonitorStateTransition {
    Enter,
    Exit,
}

/// What a floating-point comparison gives when an operand is NaN.
#[derive(Clone, Copy, Debug, PartialEq, Eq, Structural)]
pub enum NaNCmpMode {
    Greater,
    Less,
}

/// How a method is invoked, with the receiver where there is one.
#[derive(Clone, Copy, Debug, PartialEq, Eq, Structural)]
pub enum InvokeTarget {
    Static,
    Special(Op),
    Virtual(Op),
}

/// A method invocation: the target, the method reference and the arguments.
#[derive(Debug)]
pub struct InvokeExpr {
    pub target: InvokeTarget,
    pub index: ConstantIndex,
    pub args: Vec<Op>,
}

/// A constant operand.
#[derive(Clone, Copy, Debug, PartialEq, Eq, Structural)]
pub enum Const {
    Int(i32),
    Long(i64),
    Null,
}

impl Const {
    pub fn get_type(&self) -> (r: Type)
        ensures
            r == match *self {
                Const::Int(_) => Type::Int,
                Const::Long(_) => Type::Long,
                Const::Null => Type::Reference,
            },
    {
        match self {
            Const::Int(_) => Type::Int,
            Const::Long(_) => Type::Long,
            Const::Null => Type::Reference,
        }
    }
}

/// An operand: a variable or a constant.
#[derive(Clone, Copy, Debug, PartialEq, Eq, Structural)]
pub enum Op {
    Var(VarId),
    Const(Const),
}

/// The type of an operand.
pub open spec fn spec_op_type(op: Op) -> Type {
    match op {
        Op::Var(v) => v.0,
        Op::Const(Const::Int(_)) => Type::Int,
        Op::Const(Const::Long(_)) => Type::Long,
        Op::Const(Const::Null) => Type::Reference,
    }
}

impl Op {
    pub fn get_type(&self) -> (r: Type)
        ensures
            r == spec_op_type(*self),
    {
        match self {
            Op::Var(v) => v.0,
            Op::Const(c) => c.get_type(),
        }
    }
}

/// The comparison of an integer branch.
#[derive(Clone, Copy, Debug, PartialEq, Eq, Structural)]
pub enum IComparator {
    Lt,
    Le,
    Eq,
    Ge,
    Gt,
}

/// The comparison of a reference branch.
#[derive(Clone, Copy, Debug, PartialEq, Eq, Structural)]
pub enum AComparator {
    Eq,
    Ne,
}

/// A multi-way branch on an integer value.
#[derive(Debug)]
pub struct Switch {
    pub value: Op,
    pub default: BlockId,
    pub cases: Vec<(i32, BlockId)>,
}

/// How a basic block ends.
#[derive(Debug)]
pub enum BranchStub {
    Goto(BlockId),
    IfICmp(IComparator, Op, Op, BlockId, BlockId),
    IfACmp(AComparator, Op, Op, BlockId, BlockId),
    Return(Option<Op>),
    Switch(Switch),
    Throw(Op),
}

} // verus!
