//! LLVM IR text for expressions.
use vstd::prelude::*;
use crate::backend::common::{
    Dest, DestAssign, GenFunctionType, GenSizeOf, OpVal, TmpVarIdGen, spec_dest_assign, spec_op_val, spec_function_type,
    spec_tlt_array_component_type, spec_tlt_return_type, spec_tlt_type, tlt_array_component_type, tlt_return_type,
    tlt_type,
};
use crate::backend::decls::{DeclDatabase, SpecDeclKey, joined, decl_added};
use crate::backend::vtable::{VTableMap, vtable_outcome};
use crate::classfile::class_file::spec_get_method_ref;
use crate::classfile::constant_pool::{ConstantIndex, ConstantPool, SpecConstant, spec_get_class, spec_get_utf8};
use crate::classfile::descriptors::SpecMethodDescriptor;
use crate::compiler::classes::ClassLookupError;
use crate::compiler::mangle::{mangle_method_name, spec_mangle_method_name, param_views};
use crate::frontend::types::Type;
use crate::frontend::translate::{
    AComparator, BinaryExpr, BinaryOperation, Const, ConvertExpr, ConvertOperation, IComparator, InvokeExpr, InvokeTarget,
    MonitorStateTransition, NaNCmpMode, Op, spec_op_type,
};
use crate::lookup::first_index;
use crate::text::{push_char, push_decimal, decimal, str_eq};

verus! {

/// The name of a temporary register.
pub open spec fn tmp_name(k: nat) -> Seq<char> {
    seq!['%', 't'] + decimal(k)
}

/// Appends the name of a temporary register.
fn push_tmp(out: &mut String, k: u64)
    ensures
        final(out)@ == old(out)@ + tmp_name(k as nat),
{
    push_char(out, '%');
    push_char(out, 't');
    push_decimal(out, k);
    assert(out@ =~= old(out)@ + tmp_name(k as nat));
}

/// One ordered floating-point comparison of `a` and `b` into temporary `k`.
pub open spec fn ordered_compare_line(k: nat, cond: Seq<char>, typ: Seq<char>, a: Seq<char>, b: Seq<char>) -> Seq<char> {
    "  "@ + tmp_name(k) + " = fcmp "@ + cond + " "@ + typ + " "@ + a + ", "@ + b + "\n"@
}

/// A choice between two `i32` values by the flag in temporary `flag`, into
/// the register `dest`.
pub open spec fn select_line(dest: Seq<char>, flag: nat, when_set: Seq<char>, otherwise: Seq<char>) -> Seq<char> {
    "  "@ + dest + " = select i1 "@ + tmp_name(flag) + ", i32 "@ + when_set + ", i32 "@ + otherwise + "\n"@
}

/// The value a comparison gives when an operand is NaN.
pub open spec fn nan_result(mode: NaNCmpMode) -> Op {
    match mode {
        NaNCmpMode::Greater => Op::Const(Const::Int(1i32)),
        NaNCmpMode::Less => Op::Const(Const::Int(-1i32)),
    }
}

/// The text of a three-way floating-point comparison into `dest`, with
/// temporaries numbered from `t`: three ordered comparisons, then selects
/// that give -1, 0 or 1, and the NaN result when no comparison holds.
pub open spec fn spec_compare_fp(t: nat, var1: Op, var2: Op, mode: NaNCmpMode, dest: Seq<char>) -> Seq<char> {
    let typ = spec_tlt_type(spec_op_type(var1));
    let a = spec_op_val(var1);
    let b = spec_op_val(var2);
    ordered_compare_line(t, "ogt"@, typ, a, b)
        + ordered_compare_line(t + 1, "oeq"@, typ, a, b)
        + ordered_compare_line(t + 2, "olt"@, typ, a, b)
        + select_line(tmp_name(t + 3), t + 2, "-1"@, spec_op_val(nan_result(mode)))
        + select_line(tmp_name(t + 4), t + 1, "0"@, tmp_name(t + 3))
        + select_line(dest, t, "1"@, tmp_name(t + 4))
}

/// Appends one ordered comparison.
fn push_ordered_compare(out: &mut String, k: u64, cond: &str, typ: &str, a: &String, b: &String)
    ensures
        final(out)@ == old(out)@ + ordered_compare_line(k as nat, cond@, typ@, a@, b@),
{
    out.append("  ");
    push_tmp(out, k);
    out.append(" = fcmp ");
    out.append(cond);
    out.append(" ");
    out.append(typ);
    out.append(" ");
    out.append(a.as_str());
    out.append(", ");
    out.append(b.as_str());
    out.append("\n");
    assert(out@ =~= old(out)@ + ordered_compare_line(k as nat, cond@, typ@, a@, b@));
}

/// Appends one select.
fn push_select(out: &mut String, dest: &String, flag: u64, when_set: &str, otherwise: &String)
    ensures
        final(out)@ == old(out)@ + select_line(dest@, flag as nat, when_set@, otherwise@),
{
    out.append("  ");
    out.append(dest.as_str());
    out.append(" = select i1 ");
    push_tmp(out, flag);
    out.append(", i32 ");
    out.append(when_set);
    out.append(", i32 ");
    out.append(otherwise.as_str());
    out.append("\n");
    assert(out@ =~= old(out)@ + select_line(dest@, flag as nat, when_set@, otherwise@));
}

/// The name of a temporary register, as a string.
fn tmp_string(k: u64) -> (r: String)
    ensures
        r@ == tmp_name(k as nat),
{
    let mut s = String::new();
    push_tmp(&mut s, k);
    assert(s@ =~= tmp_name(k as nat));
    s
}

/// Compares two floating-point operands into `dest`: 1 when the first is
/// greater, 0 when they are equal, -1 when it is less, and the NaN result of
/// `mode` when they are unordered. Nothing is written, and no temporary is
/// taken, when the value is not kept.
pub fn gen_expr_compare_fp(
    out: &mut String,
    var_id_gen: &mut TmpVarIdGen,
    var1: &Op,
    var2: &Op,
    mode: &NaNCmpMode,
    dest: Dest,
)
    requires
        old(var_id_gen)@ + 5 <= u64::MAX,
    ensures
        match dest {
            Dest::Ignore => final(out)@ == old(out)@ && final(var_id_gen)@ == old(var_id_gen)@,
            Dest::Assign(assign) => {
                &&& final(out)@ == old(out)@ + spec_compare_fp(
                    old(var_id_gen)@ as nat,
                    *var1,
                    *var2,
                    *mode,
                    spec_dest_assign(assign),
                )
                &&& final(var_id_gen)@ == old(var_id_gen)@ + 5
            },
        },
{
    if let Dest::Assign(assign) = dest {
        let typ = tlt_type(&var1.get_type());
        let a = OpVal(var1).to_string();
        let b = OpVal(var2).to_string();
        let ghost start = out@;

        let tmp_is_gt = var_id_gen.gen();
        push_ordered_compare(out, tmp_is_gt, "ogt", typ, &a, &b);

        let tmp_is_eq = var_id_gen.gen();
        push_ordered_compare(out, tmp_is_eq, "oeq", typ, &a, &b);

        let tmp_is_lt = var_id_gen.gen();
        push_ordered_compare(out, tmp_is_lt, "olt", typ, &a, &b);

        let nan_op = match mode {
            NaNCmpMode::Greater => Op::Const(Const::Int(1)),
            NaNCmpMode::Less => Op::Const(Const::Int(-1)),
        };

        let tmp_lt_or_nan = var_id_gen.gen();
        push_select(out, &tmp_string(tmp_lt_or_nan), tmp_is_lt, "-1", &OpVal(&nan_op).to_string());

        let tmp_eq_or_lt_or_nan = var_id_gen.gen();
        push_select(out, &tmp_string(tmp_eq_or_lt_or_nan), tmp_is_eq, "0", &tmp_string(tmp_lt_or_nan));

        push_select(out, &assign.to_string(), tmp_is_gt, "1", &tmp_string(tmp_eq_or_lt_or_nan));
        proof {
            let t = tmp_is_gt as nat;
            assert(out@ =~= start + spec_compare_fp(t, *var1, *var2, *mode, spec_dest_assign(assign)));
        }
    }
}

/// The LLVM condition of an integer comparison.
pub open spec fn int_condition(comp: IComparator) -> Seq<char> {
    match comp {
        IComparator::Lt => "slt"@,
        IComparator::Le => "sle"@,
        IComparator::Eq => "eq"@,
        IComparator::Ge => "sge"@,
        IComparator::Gt => "sgt"@,
    }
}

/// The LLVM condition of a reference comparison.
pub open spec fn addr_condition(comp: AComparator) -> Seq<char> {
    match comp {
        AComparator::Eq => "eq"@,
        AComparator::Ne => "ne"@,
    }
}

/// An `i1` flag widened to `i32` into `dest`.
pub open spec fn zext_line(dest: Seq<char>, flag: nat) -> Seq<char> {
    "  "@ + dest + " = zext i1 "@ + tmp_name(flag) + " to i32\n"@
}

/// An integer comparison of two operands into temporary `k`.
pub open spec fn int_compare_line(k: nat, cond: Seq<char>, typ: Seq<char>, a: Seq<char>, b: Seq<char>) -> Seq<char> {
    "  "@ + tmp_name(k) + " = icmp "@ + cond + " "@ + typ + " "@ + a + ", "@ + b + "\n"@
}

/// The text of an integer comparison into `dest`, with temporary `t`.
pub open spec fn spec_compare_int(t: nat, comp: IComparator, var1: Op, var2: Op, dest: Seq<char>) -> Seq<char> {
    int_compare_line(t, int_condition(comp), "i32"@, spec_op_val(var1), spec_op_val(var2)) + zext_line(dest, t)
}

/// The pointer of a reference into temporary `k`.
pub open spec fn extract_pointer_line(k: nat, op: Op) -> Seq<char> {
    "  "@ + tmp_name(k) + " = extractvalue %ref "@ + spec_op_val(op) + ", 0\n"@
}

/// The text of a reference comparison into `dest`, with temporaries from
/// `t`: the two objects' pointers are compared.
pub open spec fn spec_compare_addr(t: nat, comp: AComparator, var1: Op, var2: Op, dest: Seq<char>) -> Seq<char> {
    extract_pointer_line(t, var1) + extract_pointer_line(t + 1, var2)
        + int_compare_line(t + 2, addr_condition(comp), "i8*"@, tmp_name(t), tmp_name(t + 1)) + zext_line(dest, t + 2)
}

/// The text of a three-way comparison of two longs, with temporaries from
/// `t`; the difference of the two flags goes to `dest` when it is kept.
pub open spec fn spec_compare_long(t: nat, var1: Op, var2: Op, dest: Dest) -> Seq<char> {
    long_flags(t, var1, var2) + match dest {
        Dest::Assign(a) => "  "@ + spec_dest_assign(a) + " = sub i32 "@ + tmp_name(t + 3) + ", "@ + tmp_name(t + 1)
            + "\n"@,
        Dest::Ignore => Seq::<char>::empty(),
    }
}

/// The "less" and "greater" flags of two longs, widened, in temporaries
/// `t + 1` and `t + 3`.
pub open spec fn long_flags(t: nat, var1: Op, var2: Op) -> Seq<char> {
    int_compare_line(t, "slt"@, "i64"@, spec_op_val(var1), spec_op_val(var2)) + zext_line(tmp_name(t + 1), t)
        + int_compare_line(t + 2, "sgt"@, "i64"@, spec_op_val(var1), spec_op_val(var2)) + zext_line(tmp_name(t + 3), t + 2)
}

/// Appends an integer comparison into temporary `k`.
fn push_int_compare(out: &mut String, k: u64, cond: &str, typ: &str, a: &String, b: &String)
    ensures
        final(out)@ == old(out)@ + int_compare_line(k as nat, cond@, typ@, a@, b@),
{
    out.append("  ");
    push_tmp(out, k);
    out.append(" = icmp ");
    out.append(cond);
    out.append(" ");
    out.append(typ);
    out.append(" ");
    out.append(a.as_str());
    out.append(", ");
    out.append(b.as_str());
    out.append("\n");
    assert(out@ =~= old(out)@ + int_compare_line(k as nat, cond@, typ@, a@, b@));
}

/// Appends the widening of a flag.
fn push_zext(out: &mut String, dest: &String, flag: u64)
    ensures
        final(out)@ == old(out)@ + zext_line(dest@, flag as nat),
{
    out.append("  ");
    out.append(dest.as_str());
    out.append(" = zext i1 ");
    push_tmp(out, flag);
    out.append(" to i32\n");
    assert(out@ =~= old(out)@ + zext_line(dest@, flag as nat));
}

/// Compares two integers into `dest` as 1 or 0. Nothing is written, and no
/// temporary is taken, when the value is not kept.
pub fn gen_expr_compare_int(
    out: &mut String,
    var_id_gen: &mut TmpVarIdGen,
    comp: &IComparator,
    var1: &Op,
    var2: &Op,
    dest: Dest,
)
    requires
        old(var_id_gen)@ + 1 <= u64::MAX,
    ensures
        match dest {
            Dest::Ignore => final(out)@ == old(out)@ && final(var_id_gen)@ == old(var_id_gen)@,
            Dest::Assign(assign) => {
                &&& final(out)@ == old(out)@ + spec_compare_int(
                    old(var_id_gen)@ as nat,
                    *comp,
                    *var1,
                    *var2,
                    spec_dest_assign(assign),
                )
                &&& final(var_id_gen)@ == old(var_id_gen)@ + 1
            },
        },
{
    if let Dest::Assign(assign) = dest {
        let code = match comp {
            IComparator::Lt => "slt",
            IComparator::Le => "sle",
            IComparator::Eq => "eq",
            IComparator::Ge => "sge",
            IComparator::Gt => "sgt",
        };
        let ghost start = out@;
        let tmp_i1 = var_id_gen.gen();
        push_int_compare(out, tmp_i1, code, "i32", &OpVal(var1).to_string(), &OpVal(var2).to_string());
        push_zext(out, &assign.to_string(), tmp_i1);
        assert(out@ =~= start + spec_compare_int(tmp_i1 as nat, *comp, *var1, *var2, spec_dest_assign(assign)));
    }
}

/// Compares two references into `dest` as 1 or 0, by their objects'
/// pointers. Nothing is written, and no temporary is taken, when the value
/// is not kept.
pub fn gen_expr_compare_addr(
    out: &mut String,
    var_id_gen: &mut TmpVarIdGen,
    comp: &AComparator,
    var1: &Op,
    var2: &Op,
    dest: Dest,
)
    requires
        old(var_id_gen)@ + 3 <= u64::MAX,
    ensures
        match dest {
            Dest::Ignore => final(out)@ == old(out)@ && final(var_id_gen)@ == old(var_id_gen)@,
            Dest::Assign(assign) => {
                &&& final(out)@ == old(out)@ + spec_compare_addr(
                    old(var_id_gen)@ as nat,
                    *comp,
                    *var1,
                    *var2,
                    spec_dest_assign(assign),
                )
                &&& final(var_id_gen)@ == old(var_id_gen)@ + 3
            },
        },
{
    if let Dest::Assign(assign) = dest {
        let ghost start = out@;
        let tmp_ptr1 = var_id_gen.gen();
        out.append("  ");
        push_tmp(out, tmp_ptr1);
        out.append(" = extractvalue %ref ");
        out.append(OpVal(var1).to_string().as_str());
        out.append(", 0\n");
        let tmp_ptr2 = var_id_gen.gen();
        out.append("  ");
        push_tmp(out, tmp_ptr2);
        out.append(" = extractvalue %ref ");
        out.append(OpVal(var2).to_string().as_str());
        out.append(", 0\n");
        let code = match comp {
            AComparator::Eq => "eq",
            AComparator::Ne => "ne",
        };
        let tmp_i1 = var_id_gen.gen();
        push_int_compare(out, tmp_i1, code, "i8*", &tmp_string(tmp_ptr1), &tmp_string(tmp_ptr2));
        push_zext(out, &assign.to_string(), tmp_i1);
        assert(out@ =~= start + spec_compare_addr(tmp_ptr1 as nat, *comp, *var1, *var2, spec_dest_assign(assign)));
    }
}

/// Compares two longs into `dest` as -1, 0 or 1: the flag of "greater"
/// minus the flag of "less". The comparisons are written even when the
/// value is not kept.
pub fn gen_expr_compare_long(out: &mut String, var_id_gen: &mut TmpVarIdGen, var1: &Op, var2: &Op, dest: Dest)
    requires
        old(var_id_gen)@ + 4 <= u64::MAX,
    ensures
        final(out)@ == old(out)@ + spec_compare_long(old(var_id_gen)@ as nat, *var1, *var2, dest),
        final(var_id_gen)@ == old(var_id_gen)@ + 4,
{
    let ghost start = out@;
    let ghost t = var_id_gen@ as nat;
    let (tmp_lt_ext, tmp_gt_ext) = push_long_flags(out, var_id_gen, var1, var2);
    let ghost mid = out@;
    if let Dest::Assign(assign) = dest {
        out.append("  ");
        out.append(assign.to_string().as_str());
        out.append(" = sub i32 ");
        push_tmp(out, tmp_gt_ext);
        out.append(", ");
        push_tmp(out, tmp_lt_ext);
        out.append("\n");
    }
    assert(out@ =~= start + spec_compare_long(t, *var1, *var2, dest));
}

/// Writes the widened "less" and "greater" flags of two longs (see
/// `long_flags`): the temporaries that hold them.
fn push_long_flags(out: &mut String, var_id_gen: &mut TmpVarIdGen, var1: &Op, var2: &Op) -> (r: (u64, u64))
    requires
        old(var_id_gen)@ + 4 <= u64::MAX,
    ensures
        final(out)@ == old(out)@ + long_flags(old(var_id_gen)@ as nat, *var1, *var2),
        final(var_id_gen)@ == old(var_id_gen)@ + 4,
        r.0 == old(var_id_gen)@ + 1,
        r.1 == old(var_id_gen)@ + 3,
{
    let ghost start = out@;
    let a = OpVal(var1).to_string();
    let b = OpVal(var2).to_string();
    let tmp_lt = var_id_gen.gen();
    push_int_compare(out, tmp_lt, "slt", "i64", &a, &b);
    let tmp_lt_ext = var_id_gen.gen();
    push_zext(out, &tmp_string(tmp_lt_ext), tmp_lt);
    let tmp_gt = var_id_gen.gen();
    push_int_compare(out, tmp_gt, "sgt", "i64", &a, &b);
    let tmp_gt_ext = var_id_gen.gen();
    push_zext(out, &tmp_string(tmp_gt_ext), tmp_gt);
    assert(out@ =~= start + long_flags(tmp_lt as nat, *var1, *var2));
    (tmp_lt_ext, tmp_gt_ext)
}

/// The LLVM instruction of an operation, and whether the right operand is
/// a shift distance.
pub open spec fn binary_instruction(operation: BinaryOperation) -> (Seq<char>, bool) {
    match operation {
        BinaryOperation::Add => ("add"@, false),
        BinaryOperation::Sub => ("sub"@, false),
        BinaryOperation::BitwiseAnd => ("and"@, false),
        BinaryOperation::BitwiseOr => ("or"@, false),
        BinaryOperation::BitwiseXor => ("xor"@, false),
        BinaryOperation::ShiftLeft => ("shl"@, true),
        BinaryOperation::ShiftRightLogical => ("lshr"@, true),
        BinaryOperation::ShiftRightArithmetic => ("ashr"@, true),
    }
}

/// An operation `op` on `a` and `b` into `dest`.
pub open spec fn binary_line(dest: Seq<char>, op: Seq<char>, typ: Seq<char>, a: Seq<char>, b: Seq<char>) -> Seq<char> {
    "  "@ + dest + " = "@ + op + " "@ + typ + " "@ + a + ", "@ + b + "\n"@
}

/// The low five bits of a shift distance into temporary `t`.
pub open spec fn mask_line(t: nat, typ: Seq<char>, b: Seq<char>) -> Seq<char> {
    "  "@ + tmp_name(t) + " = and "@ + typ + " "@ + b + ", 31\n"@
}

/// The text of an operation into `dest`: a shift masks its distance to the
/// low five bits in temporary `t` first.
pub open spec fn spec_binary(t: nat, e: BinaryExpr, dest: Seq<char>) -> Seq<char> {
    let (op, shift) = binary_instruction(e.operation);
    let typ = spec_tlt_type(e.result_type);
    if shift {
        mask_line(t, spec_tlt_type(spec_op_type(e.operand_right)), spec_op_val(e.operand_right))
            + binary_line(dest, op, typ, spec_op_val(e.operand_left), tmp_name(t))
    } else {
        binary_line(dest, op, typ, spec_op_val(e.operand_left), spec_op_val(e.operand_right))
    }
}

/// Appends an operation on two values.
fn push_binary_line(out: &mut String, dest: &String, op: &str, typ: &str, a: &String, b: &String)
    ensures
        final(out)@ == old(out)@ + binary_line(dest@, op@, typ@, a@, b@),
{
    out.append("  ");
    out.append(dest.as_str());
    out.append(" = ");
    out.append(op);
    out.append(" ");
    out.append(typ);
    out.append(" ");
    out.append(a.as_str());
    out.append(", ");
    out.append(b.as_str());
    out.append("\n");
    assert(out@ =~= old(out)@ + binary_line(dest@, op@, typ@, a@, b@));
}

/// Appends the masking of a shift distance.
fn push_mask_line(out: &mut String, k: u64, typ: &str, b: &String)
    ensures
        final(out)@ == old(out)@ + mask_line(k as nat, typ@, b@),
{
    out.append("  ");
    push_tmp(out, k);
    out.append(" = and ");
    out.append(typ);
    out.append(" ");
    out.append(b.as_str());
    out.append(", 31\n");
    assert(out@ =~= old(out)@ + mask_line(k as nat, typ@, b@));
}

/// Writes an operation on two integers into `dest`. Nothing is written,
/// and no temporary is taken, when the value is not kept.
pub fn gen_expr_binary(out: &mut String, var_id_gen: &mut TmpVarIdGen, binary_expr: &BinaryExpr, dest: Dest)
    requires
        old(var_id_gen)@ + 1 <= u64::MAX,
    ensures
        match dest {
            Dest::Ignore => final(out)@ == old(out)@ && final(var_id_gen)@ == old(var_id_gen)@,
            Dest::Assign(assign) => {
                &&& final(out)@ == old(out)@ + spec_binary(old(var_id_gen)@ as nat, *binary_expr, spec_dest_assign(assign))
                &&& final(var_id_gen)@ == old(var_id_gen)@ + if binary_instruction(binary_expr.operation).1 { 1int } else { 0int }
            },
        },
{
    let (operation, shift) = match binary_expr.operation {
        BinaryOperation::Add => ("add", false),
        BinaryOperation::Sub => ("sub", false),
        BinaryOperation::BitwiseAnd => ("and", false),
        BinaryOperation::BitwiseOr => ("or", false),
        BinaryOperation::BitwiseXor => ("xor", false),
        BinaryOperation::ShiftLeft => ("shl", true),
        BinaryOperation::ShiftRightLogical => ("lshr", true),
        BinaryOperation::ShiftRightArithmetic => ("ashr", true),
    };
    assert(binary_instruction(binary_expr.operation) == (operation@, shift));
    if let Dest::Assign(assign) = dest {
        let typ = tlt_type(&binary_expr.result_type);
        let left = OpVal(&binary_expr.operand_left).to_string();
        let right = OpVal(&binary_expr.operand_right).to_string();
        if shift {
            let tmp_masked = var_id_gen.gen();
            push_mask_line(out, tmp_masked, tlt_type(&binary_expr.operand_right.get_type()), &right);
            push_binary_line(out, &assign.to_string(), operation, typ, &left, &tmp_string(tmp_masked));
        } else {
            push_binary_line(out, &assign.to_string(), operation, typ, &left, &right);
        }
    }
}

/// The width an operand is narrowed to, and whether it is widened back with
/// its sign.
pub open spec fn narrowing(operation: ConvertOperation) -> (Seq<char>, bool) {
    match operation {
        ConvertOperation::IntToChar => ("i8"@, false),
        ConvertOperation::IntToByte => ("i8"@, true),
        ConvertOperation::IntToShort => ("i16"@, true),
    }
}

/// The text of a narrowing into `dest`: truncated into temporary `t`, then
/// widened back to the operand's type.
pub open spec fn spec_convert(t: nat, e: ConvertExpr, dest: Seq<char>) -> Seq<char> {
    let (via, sign) = narrowing(e.operation);
    let typ = spec_tlt_type(spec_op_type(e.operand));
    "  "@ + tmp_name(t) + " = trunc "@ + typ + " "@ + spec_op_val(e.operand) + " to "@ + via + "\n"@
        + "  "@ + dest + (if sign { " = sext "@ } else { " = zext "@ }) + via + " "@ + tmp_name(t) + " to "@ + typ
        + "\n"@
}

/// Writes a narrowing of an integer into `dest`. Nothing is written, and no
/// temporary is taken, when the value is not kept.
pub fn gen_expr_convert(out: &mut String, var_id_gen: &mut TmpVarIdGen, conv_expr: &ConvertExpr, dest: Dest)
    requires
        old(var_id_gen)@ + 1 <= u64::MAX,
    ensures
        match dest {
            Dest::Ignore => final(out)@ == old(out)@ && final(var_id_gen)@ == old(var_id_gen)@,
            Dest::Assign(assign) => {
                &&& final(out)@ == old(out)@ + spec_convert(old(var_id_gen)@ as nat, *conv_expr, spec_dest_assign(assign))
                &&& final(var_id_gen)@ == old(var_id_gen)@ + 1
            },
        },
{
    let (via, sign) = match conv_expr.operation {
        ConvertOperation::IntToChar => ("i8", false),
        ConvertOperation::IntToByte => ("i8", true),
        ConvertOperation::IntToShort => ("i16", true),
    };
    if let Dest::Assign(assign) = dest {
        let ghost start = out@;
        let op_type = tlt_type(&conv_expr.operand.get_type());
        let tmp_trunc = var_id_gen.gen();
        out.append("  ");
        push_tmp(out, tmp_trunc);
        out.append(" = trunc ");
        out.append(op_type);
        out.append(" ");
        out.append(OpVal(&conv_expr.operand).to_string().as_str());
        out.append(" to ");
        out.append(via);
        out.append("\n  ");
        out.append(assign.to_string().as_str());
        if sign {
            out.append(" = sext ");
        } else {
            out.append(" = zext ");
        }
        out.append(via);
        out.append(" ");
        push_tmp(out, tmp_trunc);
        out.append(" to ");
        out.append(op_type);
        out.append("\n");
        proof {
            reveal_strlit("\n  ");
            reveal_strlit("\n");
            reveal_strlit("  ");
        }
        assert(out@ =~= start + spec_convert(tmp_trunc as nat, *conv_expr, spec_dest_assign(assign)));
    }
}

/// The call that enters or leaves the monitor of an object.
pub open spec fn spec_monitor(op: Op, transition: MonitorStateTransition) -> Seq<char> {
    (match transition {
        MonitorStateTransition::Enter => "  call void @_Jrt_object_monitorenter(%ref "@,
        MonitorStateTransition::Exit => "  call void @_Jrt_object_monitorexit(%ref "@,
    }) + spec_op_val(op) + ")\n"@
}

/// Writes the call that enters or leaves the monitor of an object.
pub fn gen_expr_monitor(out: &mut String, op: &Op, transition: &MonitorStateTransition)
    ensures
        final(out)@ == old(out)@ + spec_monitor(*op, *transition),
{
    match transition {
        MonitorStateTransition::Enter => out.append("  call void @_Jrt_object_monitorenter(%ref "),
        MonitorStateTransition::Exit => out.append("  call void @_Jrt_object_monitorexit(%ref "),
    }
    out.append(OpVal(op).to_string().as_str());
    out.append(")\n");
    assert(out@ =~= old(out)@ + spec_monitor(*op, *transition));
}

/// The size of values of an LLVM type, computed from a null pointer (see
/// `GenSizeOf`).
pub open spec fn spec_size_of(typ: Seq<char>) -> Seq<char> {
    "ptrtoint ("@ + typ + "* getelementptr ("@ + typ + ", "@ + typ + "* null, i64 1) to i64)"@
}

/// A new array of `count` components of type `ctyp` into `dest`.
pub open spec fn spec_array_new(ctyp: Type, count: Op, dest: Seq<char>) -> Seq<char> {
    "  "@ + dest + " = call %ref @_Jrt_array_new(i32 "@ + spec_op_val(count) + ", i64 "@
        + spec_size_of(spec_tlt_array_component_type(ctyp)) + ")\n"@
}

/// Writes the allocation of a new array into `dest`; nothing when the
/// value is not kept.
pub fn gen_expr_array_new(out: &mut String, ctyp: &Type, count: &Op, dest: Dest)
    ensures
        match dest {
            Dest::Ignore => final(out)@ == old(out)@,
            Dest::Assign(assign) => final(out)@ == old(out)@ + spec_array_new(*ctyp, *count, spec_dest_assign(assign)),
        },
{
    if let Dest::Assign(assign) = dest {
        let component_type = tlt_array_component_type(ctyp);
        out.append("  ");
        out.append(assign.to_string().as_str());
        out.append(" = call %ref @_Jrt_array_new(i32 ");
        out.append(OpVal(count).to_string().as_str());
        out.append(", i64 ");
        out.append(GenSizeOf(component_type).to_string().as_str());
        out.append(")\n");
        assert(out@ =~= old(out)@ + spec_array_new(*ctyp, *count, spec_dest_assign(assign)));
    }
}

/// The length of an array into `dest`.
pub open spec fn spec_array_length(aref: Op, dest: Seq<char>) -> Seq<char> {
    "  "@ + dest + " = call i32 @_Jrt_array_length(%ref "@ + spec_op_val(aref) + ")\n"@
}

/// Writes the length of an array into `dest`; nothing when the value is not
/// kept.
pub fn gen_expr_array_length(out: &mut String, aref: &Op, dest: Dest)
    ensures
        match dest {
            Dest::Ignore => final(out)@ == old(out)@,
            Dest::Assign(assign) => final(out)@ == old(out)@ + spec_array_length(*aref, spec_dest_assign(assign)),
        },
{
    if let Dest::Assign(assign) = dest {
        out.append("  ");
        out.append(assign.to_string().as_str());
        out.append(" = call i32 @_Jrt_array_length(%ref ");
        out.append(OpVal(aref).to_string().as_str());
        out.append(")\n");
        assert(out@ =~= old(out)@ + spec_array_length(*aref, spec_dest_assign(assign)));
    }
}

/// The address of element `idx` of an array into `dest`, with temporaries
/// `t` and `t + 1`: the elements' start, cast to the component type.
pub open spec fn spec_array_ptr(t: nat, ctyp: Type, aref: Op, idx: Op, dest: Seq<char>) -> Seq<char> {
    let comp = spec_tlt_array_component_type(ctyp);
    "  "@ + tmp_name(t) + " = call i8* @_Jrt_array_element_ptr(%ref "@ + spec_op_val(aref) + ")\n"@
        + "  "@ + tmp_name(t + 1) + " = bitcast i8* "@ + tmp_name(t) + " to "@ + comp + "*\n"@
        + "  "@ + dest + " = getelementptr "@ + comp + ", "@ + comp + "* "@ + tmp_name(t + 1) + ", i32 "@
        + spec_op_val(idx) + "\n"@
}

/// Writes the address of element `idx` of an array into `dest` (nothing,
/// and no temporary taken, when it is not kept): the component type.
pub fn gen_get_array_ptr(out: &mut String, var_id_gen: &mut TmpVarIdGen, ctyp: &Type, aref: &Op, idx: &Op, dest: Dest) -> (r:
    &'static str)
    requires
        old(var_id_gen)@ + 2 <= u64::MAX,
    ensures
        r@ == spec_tlt_array_component_type(*ctyp),
        match dest {
            Dest::Ignore => final(out)@ == old(out)@ && final(var_id_gen)@ == old(var_id_gen)@,
            Dest::Assign(assign) => {
                &&& final(out)@ == old(out)@ + spec_array_ptr(old(var_id_gen)@ as nat, *ctyp, *aref, *idx, spec_dest_assign(assign))
                &&& final(var_id_gen)@ == old(var_id_gen)@ + 2
            },
        },
{
    let component_type = tlt_array_component_type(ctyp);
    if let Dest::Assign(assign) = dest {
        let ghost start = out@;
        let tmp_element_ptr = var_id_gen.gen();
        out.append("  ");
        push_tmp(out, tmp_element_ptr);
        out.append(" = call i8* @_Jrt_array_element_ptr(%ref ");
        out.append(OpVal(aref).to_string().as_str());
        out.append(")\n");
        let tmp_element_ptr_cast = var_id_gen.gen();
        out.append("  ");
        push_tmp(out, tmp_element_ptr_cast);
        out.append(" = bitcast i8* ");
        push_tmp(out, tmp_element_ptr);
        out.append(" to ");
        out.append(component_type);
        out.append("*\n");
        out.append("  ");
        out.append(assign.to_string().as_str());
        out.append(" = getelementptr ");
        out.append(component_type);
        out.append(", ");
        out.append(component_type);
        out.append("* ");
        push_tmp(out, tmp_element_ptr_cast);
        out.append(", i32 ");
        out.append(OpVal(idx).to_string().as_str());
        out.append("\n");
        assert(out@ =~= start + spec_array_ptr(tmp_element_ptr as nat, *ctyp, *aref, *idx, spec_dest_assign(assign)));
    }
    component_type
}

/// Whether values of an array component type are narrower than an `i32`.
pub open spec fn narrow_component(ctyp: Type) -> bool {
    ctyp == Type::Boolean || ctyp == Type::Byte || ctyp == Type::Short || ctyp == Type::Char
}

/// The load of an element, widened when its component is narrow (with its
/// sign, except for a char).
pub open spec fn spec_array_load_tail(t: nat, ctyp: Type, dest: Seq<char>) -> Seq<char> {
    let comp = spec_tlt_array_component_type(ctyp);
    let load_dest = if narrow_component(ctyp) { tmp_name(t + 3) } else { dest };
    "  "@ + load_dest + " = load "@ + comp + ", "@ + comp + "* "@ + tmp_name(t) + "\n"@ + if narrow_component(ctyp) {
        "   "@ + dest + (if ctyp == Type::Char { " = zext "@ } else { " = sext "@ }) + comp + " "@ + tmp_name(t + 3)
            + " to "@ + spec_tlt_type(ctyp) + "\n"@
    } else {
        Seq::<char>::empty()
    }
}

/// The text of an element load into `dest`, with temporaries from `t`: the
/// element's address in `t`, the load, and the widening of a narrow value.
pub open spec fn spec_array_load(t: nat, ctyp: Type, aref: Op, idx: Op, dest: Seq<char>) -> Seq<char> {
    spec_array_ptr(t + 1, ctyp, aref, idx, tmp_name(t)) + spec_array_load_tail(t, ctyp, dest)
}

/// Writes the load of an element of an array into `dest`. Nothing is
/// written, and no temporary is taken, when the value is not kept.
pub fn gen_expr_array_load(out: &mut String, var_id_gen: &mut TmpVarIdGen, ctyp: &Type, aref: &Op, idx: &Op, dest: Dest)
    requires
        old(var_id_gen)@ + 4 <= u64::MAX,
    ensures
        match dest {
            Dest::Ignore => final(out)@ == old(out)@ && final(var_id_gen)@ == old(var_id_gen)@,
            Dest::Assign(assign) => {
                &&& final(out)@ == old(out)@ + spec_array_load(old(var_id_gen)@ as nat, *ctyp, *aref, *idx, spec_dest_assign(assign))
                &&& final(var_id_gen)@ == old(var_id_gen)@ + 4
            },
        },
{
    if let Dest::Assign(assign) = dest {
        let ghost start = out@;
        let tmp_array_ptr = var_id_gen.gen();
        let component_type = gen_get_array_ptr(out, var_id_gen, ctyp, aref, idx, Dest::Assign(DestAssign::Tmp(tmp_array_ptr)));
        let tmp_extend = var_id_gen.gen();
        let ghost mid = out@;
        push_load_tail(out, ctyp, component_type, tmp_array_ptr, tmp_extend, &assign.to_string());
        assert(spec_dest_assign(DestAssign::Tmp(tmp_array_ptr)) == tmp_name(tmp_array_ptr as nat));
    }
}

/// A load of the element at the address in temporary `t` into `dest`.
pub open spec fn load_line(dest: Seq<char>, comp: Seq<char>, t: nat) -> Seq<char> {
    "  "@ + dest + " = load "@ + comp + ", "@ + comp + "* "@ + tmp_name(t) + "\n"@
}

/// The widening of a narrow value in temporary `t` into `dest`.
pub open spec fn extend_line(dest: Seq<char>, signed: bool, comp: Seq<char>, t: nat, typ: Seq<char>) -> Seq<char> {
    "   "@ + dest + (if signed { " = sext "@ } else { " = zext "@ }) + comp + " "@ + tmp_name(t) + " to "@ + typ + "\n"@
}

/// Appends a load.
fn push_load_line(out: &mut String, dest: &String, comp: &str, t: u64)
    ensures
        final(out)@ == old(out)@ + load_line(dest@, comp@, t as nat),
{
    out.append("  ");
    out.append(dest.as_str());
    out.append(" = load ");
    out.append(comp);
    out.append(", ");
    out.append(comp);
    out.append("* ");
    push_tmp(out, t);
    out.append("\n");
    assert(out@ =~= old(out)@ + load_line(dest@, comp@, t as nat));
}

/// Appends a widening.
fn push_extend_line(out: &mut String, dest: &String, signed: bool, comp: &str, t: u64, typ: &str)
    ensures
        final(out)@ == old(out)@ + extend_line(dest@, signed, comp@, t as nat, typ@),
{
    out.append("   ");
    out.append(dest.as_str());
    if signed {
        out.append(" = sext ");
    } else {
        out.append(" = zext ");
    }
    out.append(comp);
    out.append(" ");
    push_tmp(out, t);
    out.append(" to ");
    out.append(typ);
    out.append("\n");
    assert(out@ =~= old(out)@ + extend_line(dest@, signed, comp@, t as nat, typ@));
}

/// Writes the load of an element whose address is in temporary `t`.
fn push_load_tail(out: &mut String, ctyp: &Type, component_type: &str, t: u64, tmp_extend: u64, assign: &String)
    requires
        component_type@ == spec_tlt_array_component_type(*ctyp),
        tmp_extend == t + 3,
    ensures
        final(out)@ == old(out)@ + spec_array_load_tail(t as nat, *ctyp, assign@),
{
    let narrow = match ctyp {
        Type::Boolean | Type::Byte | Type::Short | Type::Char => true,
        _ => false,
    };
    if narrow {
        let signed = match ctyp {
            Type::Char => false,
            _ => true,
        };
        push_load_line(out, &tmp_string(tmp_extend), component_type, t);
        push_extend_line(out, assign, signed, component_type, tmp_extend, tlt_type(ctyp));
        assert(out@ =~= old(out)@ + (load_line(tmp_name((t + 3) as nat), component_type@, t as nat) + extend_line(
            assign@,
            signed,
            component_type@,
            (t + 3) as nat,
            spec_tlt_type(*ctyp),
        )));
    } else {
        push_load_line(out, assign, component_type, t);
        assert(out@ =~= old(out)@ + (load_line(assign@, component_type@, t as nat) + Seq::<char>::empty()));
    }
}

/// A narrowing of a value into temporary `k`.
pub open spec fn trunc_line(k: nat, vtyp: Seq<char>, val: Seq<char>, comp: Seq<char>) -> Seq<char> {
    "   "@ + tmp_name(k) + " = trunc "@ + vtyp + " "@ + val + " to "@ + comp + "\n"@
}

/// A store of `val` to the address in temporary `t`.
pub open spec fn store_line(comp: Seq<char>, val: Seq<char>, t: nat) -> Seq<char> {
    "  store "@ + comp + " "@ + val + ", "@ + comp + "* "@ + tmp_name(t) + "\n"@
}

/// Appends a narrowing.
fn push_trunc_line(out: &mut String, k: u64, vtyp: &str, val: &String, comp: &str)
    ensures
        final(out)@ == old(out)@ + trunc_line(k as nat, vtyp@, val@, comp@),
{
    out.append("   ");
    push_tmp(out, k);
    out.append(" = trunc ");
    out.append(vtyp);
    out.append(" ");
    out.append(val.as_str());
    out.append(" to ");
    out.append(comp);
    out.append("\n");
    assert(out@ =~= old(out)@ + trunc_line(k as nat, vtyp@, val@, comp@));
}

/// Appends a store.
fn push_store_line(out: &mut String, comp: &str, val: &String, t: u64)
    ensures
        final(out)@ == old(out)@ + store_line(comp@, val@, t as nat),
{
    out.append("  store ");
    out.append(comp);
    out.append(" ");
    out.append(val.as_str());
    out.append(", ");
    out.append(comp);
    out.append("* ");
    push_tmp(out, t);
    out.append("\n");
    assert(out@ =~= old(out)@ + store_line(comp@, val@, t as nat));
}

/// The store of a value into an element whose address is in temporary `t`,
/// narrowed first into temporary `t + 3` when the component is narrow.
pub open spec fn spec_array_store_tail(t: nat, ctyp: Type, value: Op) -> Seq<char> {
    let comp = spec_tlt_array_component_type(ctyp);
    if narrow_component(ctyp) {
        trunc_line(t + 3, spec_tlt_type(spec_op_type(value)), spec_op_val(value), comp) + store_line(comp, tmp_name(t + 3), t)
    } else {
        store_line(comp, spec_op_val(value), t)
    }
}

/// The text of an element store, with temporaries from `t`.
pub open spec fn spec_array_store(t: nat, ctyp: Type, aref: Op, idx: Op, value: Op) -> Seq<char> {
    spec_array_ptr(t + 1, ctyp, aref, idx, tmp_name(t)) + spec_array_store_tail(t, ctyp, value)
}

/// Writes the store of a value into an element of an array.
pub fn gen_expr_array_store(out: &mut String, var_id_gen: &mut TmpVarIdGen, ctyp: &Type, aref: &Op, idx: &Op, value: &Op)
    requires
        old(var_id_gen)@ + 4 <= u64::MAX,
    ensures
        final(out)@ == old(out)@ + spec_array_store(old(var_id_gen)@ as nat, *ctyp, *aref, *idx, *value),
        final(var_id_gen)@ == old(var_id_gen)@ + if narrow_component(*ctyp) { 4int } else { 3int },
{
    let ghost start = out@;
    let tmp_array_ptr = var_id_gen.gen();
    let component_type = gen_get_array_ptr(out, var_id_gen, ctyp, aref, idx, Dest::Assign(DestAssign::Tmp(tmp_array_ptr)));
    assert(spec_dest_assign(DestAssign::Tmp(tmp_array_ptr)) == tmp_name(tmp_array_ptr as nat));
    push_store_tail(out, var_id_gen, ctyp, component_type, tmp_array_ptr, value);
}

/// Writes the store of a value into an element whose address is in
/// temporary `t`.
fn push_store_tail(out: &mut String, var_id_gen: &mut TmpVarIdGen, ctyp: &Type, component_type: &str, t: u64, value: &Op)
    requires
        component_type@ == spec_tlt_array_component_type(*ctyp),
        old(var_id_gen)@ == t + 3,
        old(var_id_gen)@ + 1 <= u64::MAX,
    ensures
        final(out)@ == old(out)@ + spec_array_store_tail(t as nat, *ctyp, *value),
        final(var_id_gen)@ == old(var_id_gen)@ + if narrow_component(*ctyp) { 1int } else { 0int },
{
    let narrow = match ctyp {
        Type::Boolean | Type::Byte | Type::Short | Type::Char => true,
        _ => false,
    };
    let val = OpVal(value).to_string();
    if narrow {
        let tmp_trunc = var_id_gen.gen();
        push_trunc_line(out, tmp_trunc, tlt_type(&value.get_type()), &val, component_type);
        push_store_line(out, component_type, &tmp_string(tmp_trunc), t);
    } else {
        push_store_line(out, component_type, &val, t);
    }
}

/// The class name, the method name and the descriptor of the method that
/// the method reference at `index` names, when they all resolve.
pub open spec fn invoked_method(consts: Seq<SpecConstant>, index: ConstantIndex) -> Option<
    (Seq<char>, Seq<char>, SpecMethodDescriptor),
> {
    match spec_get_method_ref(consts, index) {
        Some(m) => match spec_get_utf8(consts, m.name_index) {
            Some(method_name) => match spec_get_class(consts, m.class_index) {
                Some(c) => match spec_get_utf8(consts, c.name_index) {
                    Some(class_name) => Some((class_name, method_name, m.descriptor)),
                    None => None,
                },
                None => None,
            },
            None => None,
        },
        None => None,
    }
}

/// An argument of a call: its LLVM type and its value.
pub open spec fn arg_text(a: Op) -> Seq<char> {
    spec_tlt_type(spec_op_type(a)) + " "@ + spec_op_val(a)
}

/// The arguments of a call: the receiver first, where there is one.
pub open spec fn call_arg_texts(target: InvokeTarget, args: Seq<Op>) -> Seq<Seq<char>> {
    (match target {
        InvokeTarget::Static => Seq::<Seq<char>>::empty(),
        InvokeTarget::Special(r) => seq!["%ref "@ + spec_op_val(r)],
        InvokeTarget::Virtual(r) => seq!["%ref "@ + spec_op_val(r)],
    }) + args.map_values(|a: Op| arg_text(a))
}

/// The start of a line that may assign its value.
pub open spec fn assign_prefix(dest: Dest) -> Seq<char> {
    match dest {
        Dest::Assign(a) => "  "@ + spec_dest_assign(a) + " = "@,
        Dest::Ignore => "  "@,
    }
}

/// The call of the function `fptr` returning `ret`.
pub open spec fn call_text(dest: Dest, ret: Seq<char>, fptr: Seq<char>, target: InvokeTarget, args: Seq<Op>) -> Seq<
    char,
> {
    assign_prefix(dest) + "call "@ + ret + " "@ + fptr + "("@ + joined(call_arg_texts(target, args)) + ")\n"@
}

/// The lookup of slot `index` of the object's table into temporary `t`,
/// cast to the method's function type in temporary `t + 1`.
pub open spec fn vtable_lookup_text(t: nat, object: Op, index: nat, ftyp: Seq<char>) -> Seq<char> {
    "  "@ + tmp_name(t) + " = call i8* @_Jrt_object_vtable_lookup(%ref "@ + spec_op_val(object) + ", i64 "@
        + decimal(index) + ")\n"@ + "  "@ + tmp_name(t + 1) + " = bitcast i8* "@ + tmp_name(t) + " to "@ + ftyp
        + "*\n"@
}

/// The key under which a directly called method is declared.
pub open spec fn invoked_key(m: (Seq<char>, Seq<char>, SpecMethodDescriptor), target: InvokeTarget) -> SpecDeclKey {
    SpecDeclKey::Method(m.0, m.1, m.2, target is Static)
}

/// Appends the arguments of a call.
fn push_call_args(out: &mut String, target: &InvokeTarget, args: &Vec<Op>)
    ensures
        final(out)@ == old(out)@ + joined(call_arg_texts(*target, args@)),
{
    let mut texts: Vec<String> = Vec::new();
    match target {
        InvokeTarget::Static => {},
        InvokeTarget::Special(var) => {
            let mut s = String::from_str("%ref ");
            s.append(OpVal(var).to_string().as_str());
            texts.push(s);
        },
        InvokeTarget::Virtual(var) => {
            let mut s = String::from_str("%ref ");
            s.append(OpVal(var).to_string().as_str());
            texts.push(s);
        },
    }
    let ghost head = texts@.map_values(|s: String| s@);
    let mut i: usize = 0;
    while i < args.len()
        invariant
            i <= args@.len(),
            texts@.map_values(|s: String| s@) == head + args@.take(i as int).map_values(|a: Op| arg_text(a)),
        decreases args@.len() - i,
    {
        let mut s = String::from_str(tlt_type(&args[i].get_type()));
        s.append(" ");
        s.append(OpVal(&args[i]).to_string().as_str());
        assert(s@ == arg_text(args@[i as int]));
        let ghost before = texts@;
        texts.push(s);
        proof {
            assert(texts@.map_values(|s: String| s@) =~= before.map_values(|s: String| s@).push(arg_text(args@[i as int])));
            assert(args@.take(i + 1).map_values(|a: Op| arg_text(a)) =~= args@.take(i as int).map_values(|a: Op| arg_text(a)).push(arg_text(args@[i as int])));
        }
        i += 1;
        assert(texts@.map_values(|s: String| s@) =~= head + args@.take(i as int).map_values(|a: Op| arg_text(a)));
    }
    assert(args@.take(args@.len() as int) =~= args@);
    assert(texts@.map_values(|s: String| s@) =~= call_arg_texts(*target, args@));
    push_joined(out, &texts);
}

/// Appends the texts, with `, ` between two.
fn push_joined(out: &mut String, texts: &Vec<String>)
    ensures
        final(out)@ == old(out)@ + joined(texts@.map_values(|s: String| s@)),
{
    let ghost ts = texts@.map_values(|s: String| s@);
    let mut i: usize = 0;
    while i < texts.len()
        invariant
            i <= texts@.len(),
            ts == texts@.map_values(|s: String| s@),
            out@ == old(out)@ + joined(ts.take(i as int)),
        decreases texts@.len() - i,
    {
        if i > 0 {
            out.append(", ");
        }
        out.append(texts[i].as_str());
        proof {
            let t2 = ts.take(i + 1);
            assert(t2.drop_last() =~= ts.take(i as int));
            assert(t2.last() == ts[i as int]);
            if i == 0 {
                assert(joined(ts.take(0)) =~= Seq::<char>::empty());
            }
        }
        i += 1;
    }
    assert(ts.take(texts@.len() as int) =~= ts);
}

/// Looks up the slot of a virtual call and writes the lookup (see
/// `vtable_lookup_text`): the temporary that holds the function pointer.
fn gen_virtual_fptr(
    out: &mut String,
    var_id_gen: &mut TmpVarIdGen,
    vtables: &VTableMap,
    method_class_name: &str,
    method_name: &str,
    descriptor: &crate::classfile::descriptors::MethodDescriptor,
    object: &Op,
) -> (r: Result<String, ClassLookupError>)
    requires
        old(var_id_gen)@ + 2 <= u64::MAX,
        vtable_outcome(vtables@, method_class_name@) is Some,
        vtable_outcome(vtables@, method_class_name@) matches Some(Ok(t)) ==> first_index(
            t.keys,
            (method_name@, descriptor@),
        ) >= 0,
    ensures
        match vtable_outcome(vtables@, method_class_name@) {
            Some(Ok(t)) => r matches Ok(f) && {
                &&& final(out)@ == old(out)@ + vtable_lookup_text(
                    old(var_id_gen)@ as nat,
                    *object,
                    t.targets[first_index(t.keys, (method_name@, descriptor@))].method_index_lower as nat,
                    spec_function_type(descriptor@),
                )
                &&& f@ == tmp_name((old(var_id_gen)@ + 1) as nat)
                &&& final(var_id_gen)@ == old(var_id_gen)@ + 2
            },
            Some(Err(e)) => r == Err::<String, ClassLookupError>(e) && final(out)@ == old(out)@
                && final(var_id_gen)@ == old(var_id_gen)@,
            None => false,
        },
{
    let vtable = match vtables.get(method_class_name) {
        Ok(v) => v,
        Err(e) => return Err(e),
    };
    let target = vtable.get(method_name, descriptor).unwrap();
    let ghost start = out@;

    let tmp_fptr = var_id_gen.gen();
    out.append("  ");
    push_tmp(out, tmp_fptr);
    out.append(" = call i8* @_Jrt_object_vtable_lookup(%ref ");
    out.append(OpVal(object).to_string().as_str());
    out.append(", i64 ");
    push_decimal(out, target.method_index_lower as u64);
    out.append(")\n");
    let tmp_fptr_cast = var_id_gen.gen();
    out.append("  ");
    push_tmp(out, tmp_fptr_cast);
    out.append(" = bitcast i8* ");
    push_tmp(out, tmp_fptr);
    out.append(" to ");
    out.append(GenFunctionType(descriptor).to_string().as_str());
    out.append("*\n");
    proof {
        assert(out@ =~= start + vtable_lookup_text(
            tmp_fptr as nat,
            *object,
            target.method_index_lower as nat,
            spec_function_type(descriptor@),
        ));
    }
    Ok(tmp_string(tmp_fptr_cast))
}

/// The symbol of a directly called method, declared first when it belongs
/// to another class than `class_name`.
fn gen_direct_fptr(
    decls: &mut DeclDatabase,
    class_name: &str,
    method_class_name: &str,
    method_name: &str,
    descriptor: &crate::classfile::descriptors::MethodDescriptor,
    is_static: bool,
) -> (r: String)
    requires
        old(decls).wf(),
    ensures
        final(decls).wf(),
        final(decls).spec_vtables() == old(decls).spec_vtables(),
        exists|hash: u64| r@ == "@"@ + #[trigger] spec_mangle_method_name(
            method_class_name@,
            method_name@,
            descriptor@.ret,
            descriptor@.params,
            hash,
        ),
        if method_class_name@ == class_name@ {
            final(decls)@ == old(decls)@
        } else {
            decl_added(
                old(decls).spec_vtables(),
                old(decls)@,
                SpecDeclKey::Method(method_class_name@, method_name@, descriptor@, is_static),
                final(decls)@,
            )
        },
{
    if !str_eq(method_class_name, class_name) {
        if is_static {
            decls.add_static_method(method_class_name, method_name, descriptor);
        } else {
            decls.add_instance_method(method_class_name, method_name, descriptor);
        }
    }
    let mangled = mangle_method_name(method_class_name, method_name, &descriptor.ret, descriptor.params.as_slice());
    assert(param_views(descriptor.params@) == descriptor@.params);
    let mut s = String::from_str("@");
    s.append(mangled.as_str());
    s
}

/// Writes the call of `fptr` (see `call_text`).
fn push_call(out: &mut String, dest: Dest, descriptor: &crate::classfile::descriptors::MethodDescriptor, fptr: &String,
    target: &InvokeTarget, args: &Vec<Op>)
    ensures
        final(out)@ == old(out)@ + call_text(dest, spec_tlt_return_type(descriptor@.ret), fptr@, *target, args@),
{
    if let Dest::Assign(assign) = dest {
        out.append("  ");
        out.append(assign.to_string().as_str());
        out.append(" = ");
    } else {
        out.append("  ");
    }
    out.append("call ");
    out.append(tlt_return_type(&descriptor.ret));
    out.append(" ");
    out.append(fptr.as_str());
    out.append("(");
    push_call_args(out, target, args);
    out.append(")\n");
    assert(out@ =~= old(out)@ + call_text(dest, spec_tlt_return_type(descriptor@.ret), fptr@, *target, args@));
}

/// Writes a method call: through the object's table for a virtual call,
/// after looking the slot up in the table of the method's class; directly
/// by the method's symbol otherwise, declaring the method first when it
/// belongs to another class than `class_name`. A class whose table cannot
/// be built stops the call before anything is written.
pub fn gen_expr_invoke(
    out: &mut String,
    decls: &mut DeclDatabase,
    class_name: &str,
    vtables: &VTableMap,
    var_id_gen: &mut TmpVarIdGen,
    expr: &InvokeExpr,
    consts: &ConstantPool,
    dest: Dest,
) -> (r: Result<(), ClassLookupError>)
    requires
        old(decls).wf(),
        invoked_method(consts@, expr.index) is Some,
        old(var_id_gen)@ + 2 <= u64::MAX,
        expr.target is Virtual ==> ({
            let m = invoked_method(consts@, expr.index)->0;
            &&& vtable_outcome(vtables@, m.0) is Some
            &&& vtable_outcome(vtables@, m.0) matches Some(Ok(t)) ==> first_index(t.keys, (m.1, m.2)) >= 0
        }),
    ensures
        final(decls).wf(),
        final(decls).spec_vtables() == old(decls).spec_vtables(),
        ({
            let m = invoked_method(consts@, expr.index)->0;
            let ret = spec_tlt_return_type(m.2.ret);
            match expr.target {
                InvokeTarget::Virtual(object) => match vtable_outcome(vtables@, m.0) {
                    Some(Ok(t)) => {
                        &&& r is Ok
                        &&& final(out)@ == old(out)@ + vtable_lookup_text(
                            old(var_id_gen)@ as nat,
                            object,
                            t.targets[first_index(t.keys, (m.1, m.2))].method_index_lower as nat,
                            spec_function_type(m.2),
                        ) + call_text(dest, ret, tmp_name((old(var_id_gen)@ + 1) as nat), expr.target, expr.args@)
                        &&& final(var_id_gen)@ == old(var_id_gen)@ + 2
                        &&& final(decls)@ == old(decls)@
                    },
                    Some(Err(e)) => {
                        &&& r == Err::<(), ClassLookupError>(e)
                        &&& final(out)@ == old(out)@
                        &&& final(var_id_gen)@ == old(var_id_gen)@
                        &&& final(decls)@ == old(decls)@
                    },
                    None => false,
                },
                _ => {
                    &&& r is Ok
                    &&& final(var_id_gen)@ == old(var_id_gen)@
                    &&& exists|hash: u64| final(out)@ == old(out)@ + call_text(
                        dest,
                        ret,
                        "@"@ + #[trigger] spec_mangle_method_name(m.0, m.1, m.2.ret, m.2.params, hash),
                        expr.target,
                        expr.args@,
                    )
                    &&& if m.0 == class_name@ {
                        final(decls)@ == old(decls)@
                    } else {
                        decl_added(old(decls).spec_vtables(), old(decls)@, invoked_key(m, expr.target), final(decls)@)
                    }
                },
            }
        }),
{
    let method_ref = consts.get_method_ref(expr.index).unwrap();
    let method_name = consts.get_utf8(method_ref.name_index).unwrap();
    let method_class = consts.get_class(method_ref.class_index).unwrap();
    let method_class_name = consts.get_utf8(method_class.name_index).unwrap();
    let ghost m = invoked_method(consts@, expr.index)->0;
    assert(method_class_name@ == m.0 && method_name@ == m.1 && method_ref.descriptor@ == m.2);

    let fptr = match &expr.target {
        InvokeTarget::Virtual(var) => {
            match gen_virtual_fptr(out, var_id_gen, vtables, method_class_name, method_name, &method_ref.descriptor, var) {
                Ok(f) => f,
                Err(e) => return Err(e),
            }
        },
        InvokeTarget::Special(_) => gen_direct_fptr(
            decls,
            class_name,
            method_class_name,
            method_name,
            &method_ref.descriptor,
            false,
        ),
        InvokeTarget::Static => gen_direct_fptr(
            decls,
            class_name,
            method_class_name,
            method_name,
            &method_ref.descriptor,
            true,
        ),
    };
    push_call(out, dest, &method_ref.descriptor, &fptr, &expr.target, &expr.args);
    Ok(())
}

} // verus!
