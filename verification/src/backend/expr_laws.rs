//! The LLVM instructions chosen for the front end's comparisons and
//! operations mean what those comparisons and operations mean.
use vstd::prelude::*;
use crate::backend::common::{
    Dest, DestAssign, spec_dest_assign, spec_op_val, spec_tlt_type, spec_tlt_array_component_type, spec_tlt_field_type,
};
use crate::classfile::descriptors::{BaseType, SpecFieldType};
use crate::frontend::types::Type;
use crate::backend::expr::{
    int_condition, addr_condition, binary_instruction, spec_compare_fp, ordered_compare_line, select_line,
    tmp_name, spec_compare_long, int_compare_line, zext_line, narrowing,
};
use crate::frontend::translate::{
    AComparator, BinaryOperation, Const, ConvertOperation, IComparator, NaNCmpMode, Op, spec_op_type,
};

verus! {

/// What LLVM's `icmp` with the predicate `pred` says of two integers, read
/// as signed where the predicate is a signed one; `None` for a name that is
/// no such predicate.
pub open spec fn llvm_int_predicate(pred: Seq<char>, a: int, b: int) -> Option<bool> {
    if pred == "eq"@ {
        Some(a == b)
    } else if pred == "ne"@ {
        Some(a != b)
    } else if pred == "slt"@ {
        Some(a < b)
    } else if pred == "sle"@ {
        Some(a <= b)
    } else if pred == "sgt"@ {
        Some(a > b)
    } else if pred == "sge"@ {
        Some(a >= b)
    } else {
        None
    }
}

/// Whether `a` stands in the relation `c` to `b`.
pub open spec fn comparator_holds(c: IComparator, a: int, b: int) -> bool {
    match c {
        IComparator::Lt => a < b,
        IComparator::Le => a <= b,
        IComparator::Eq => a == b,
        IComparator::Ge => a >= b,
        IComparator::Gt => a > b,
    }
}

/// Whether two references compare as `c` says, given whether they are the
/// same.
pub open spec fn ref_comparator_holds(c: AComparator, same: bool) -> bool {
    match c {
        AComparator::Eq => same,
        AComparator::Ne => !same,
    }
}

/// The operation that an LLVM binary instruction performs on integers.
pub open spec fn llvm_binary_operation(name: Seq<char>) -> Option<BinaryOperation> {
    if name == "add"@ {
        Some(BinaryOperation::Add)
    } else if name == "sub"@ {
        Some(BinaryOperation::Sub)
    } else if name == "and"@ {
        Some(BinaryOperation::BitwiseAnd)
    } else if name == "or"@ {
        Some(BinaryOperation::BitwiseOr)
    } else if name == "xor"@ {
        Some(BinaryOperation::BitwiseXor)
    } else if name == "shl"@ {
        Some(BinaryOperation::ShiftLeft)
    } else if name == "lshr"@ {
        Some(BinaryOperation::ShiftRightLogical)
    } else if name == "ashr"@ {
        Some(BinaryOperation::ShiftRightArithmetic)
    } else {
        None
    }
}

/// Whether an operation shifts its left operand by its right one.
pub open spec fn is_shift(op: BinaryOperation) -> bool {
    op is ShiftLeft || op is ShiftRightLogical || op is ShiftRightArithmetic
}

/// An integer comparison is compiled to the `icmp` predicate that holds of
/// two values exactly when the comparison does, with the operands in order.
pub proof fn law_int_comparisons_keep_their_meaning(c: IComparator, a: int, b: int)
    ensures
        llvm_int_predicate(int_condition(c), a, b) == Some(comparator_holds(c, a, b)),
{
    reveal_strlit("eq");
    reveal_strlit("ne");
    reveal_strlit("slt");
    reveal_strlit("sle");
    reveal_strlit("sgt");
    reveal_strlit("sge");
    assert("slt"@[2] != "sle"@[2]);
    assert("slt"@[1] != "sgt"@[1]);
    assert("slt"@[1] != "sge"@[1]);
    assert("sle"@[1] != "sgt"@[1]);
    assert("sle"@[1] != "sge"@[1]);
    assert("sgt"@[2] != "sge"@[2]);
    assert("eq"@[0] != "ne"@[0]);
}

/// A reference comparison is compiled to the `icmp` predicate on the two
/// pointers that holds exactly when the comparison does.
pub proof fn law_reference_comparisons_keep_their_meaning(c: AComparator, a: int, b: int)
    ensures
        llvm_int_predicate(addr_condition(c), a, b) == Some(ref_comparator_holds(c, a == b)),
{
    reveal_strlit("eq");
    reveal_strlit("ne");
    assert("eq"@[0] != "ne"@[0]);
}

/// Each operation is compiled to the LLVM instruction that performs it, and
/// exactly the shifts have their distance masked first.
pub proof fn law_binary_operations_keep_their_meaning(op: BinaryOperation)
    ensures
        llvm_binary_operation(binary_instruction(op).0) == Some(op),
        binary_instruction(op).1 == is_shift(op),
{
    reveal_strlit("add");
    reveal_strlit("sub");
    reveal_strlit("and");
    reveal_strlit("or");
    reveal_strlit("xor");
    reveal_strlit("shl");
    reveal_strlit("lshr");
    reveal_strlit("ashr");
    assert("add"@[0] != "sub"@[0]);
    assert("add"@[1] != "and"@[1]);
    assert("and"@[0] != "sub"@[0]);
    assert("and"@[0] != "xor"@[0]);
    assert("add"@[0] != "xor"@[0]);
    assert("sub"@[0] != "xor"@[0]);
    assert("shl"@[0] != "add"@[0]);
    assert("shl"@[1] != "sub"@[1]);
    assert("shl"@[0] != "and"@[0]);
    assert("shl"@[0] != "xor"@[0]);
    assert("or"@[0] != "xor"@[0]);
    assert("lshr"@[0] != "ashr"@[0]);
}

/// How two floating-point values compare: one below, equal to or above the
/// other, or unordered (one of them NaN).
pub enum FpOrder {
    Less,
    Equal,
    Greater,
    Unordered,
}

/// What LLVM's ordered `fcmp` predicates say of two floating-point values
/// that compare as `o`; ordered predicates are false when a value is NaN.
pub open spec fn llvm_float_predicate(pred: Seq<char>, o: FpOrder) -> Option<bool> {
    if pred == "olt"@ {
        Some(o is Less)
    } else if pred == "oeq"@ {
        Some(o is Equal)
    } else if pred == "ogt"@ {
        Some(o is Greater)
    } else if pred == "ole"@ {
        Some(o is Less || o is Equal)
    } else if pred == "oge"@ {
        Some(o is Greater || o is Equal)
    } else if pred == "one"@ {
        Some(o is Less || o is Greater)
    } else {
        None
    }
}

/// The JVM's `fcmpg`/`dcmpg` (NaN gives 1) and `fcmpl`/`dcmpl` (NaN gives
/// -1): 1 when the first value is greater, 0 when equal, -1 when less.
pub open spec fn jvm_float_compare(mode: NaNCmpMode, o: FpOrder) -> int {
    match o {
        FpOrder::Greater => 1,
        FpOrder::Equal => 0,
        FpOrder::Less => -1,
        FpOrder::Unordered => if mode is Greater { 1 } else { -1 },
    }
}

/// The value the chain of selects gives: 1 when the first comparison
/// holds, else 0 when the second does, else -1 when the third does, else
/// the NaN result.
pub open spec fn select_chain_value(gt: Seq<char>, eq: Seq<char>, lt: Seq<char>, nan: int, o: FpOrder) -> int {
    if llvm_float_predicate(gt, o) == Some(true) {
        1
    } else if llvm_float_predicate(eq, o) == Some(true) {
        0
    } else if llvm_float_predicate(lt, o) == Some(true) {
        -1
    } else {
        nan
    }
}

/// Three ordered comparisons of the operands with the predicates `gt`,
/// `eq` and `lt`, then selects of 1, 0, -1 and the NaN result `nan`.
pub open spec fn three_way_fp_text(
    t: nat,
    var1: Op,
    var2: Op,
    dest: Seq<char>,
    gt: Seq<char>,
    eq: Seq<char>,
    lt: Seq<char>,
    nan: i32,
) -> Seq<char> {
    let typ = spec_tlt_type(spec_op_type(var1));
    let a = spec_op_val(var1);
    let b = spec_op_val(var2);
    ordered_compare_line(t, gt, typ, a, b) + ordered_compare_line(t + 1, eq, typ, a, b)
        + ordered_compare_line(t + 2, lt, typ, a, b)
        + select_line(tmp_name(t + 3), t + 2, "-1"@, spec_op_val(Op::Const(Const::Int(nan))))
        + select_line(tmp_name(t + 4), t + 1, "0"@, tmp_name(t + 3)) + select_line(dest, t, "1"@, tmp_name(t + 4))
}

/// A floating-point comparison is compiled to three ordered `fcmp`s of the
/// operands, in order, and selects of 1, 0, -1 and a NaN result, whose
/// value is the JVM's for every way the two values can compare, NaN
/// included.
pub proof fn law_fp_comparisons_keep_their_meaning(t: nat, var1: Op, var2: Op, mode: NaNCmpMode, dest: Seq<char>)
    ensures
        exists|gt: Seq<char>, eq: Seq<char>, lt: Seq<char>, nan: i32| {
            &&& spec_compare_fp(t, var1, var2, mode, dest) == #[trigger] three_way_fp_text(t, var1, var2, dest, gt, eq, lt, nan)
            &&& forall|o: FpOrder| #[trigger] select_chain_value(gt, eq, lt, nan as int, o) == jvm_float_compare(mode, o)
        },
{
    reveal_strlit("olt");
    reveal_strlit("oeq");
    reveal_strlit("ogt");
    assert("olt"@[1] != "oeq"@[1]);
    assert("olt"@[1] != "ogt"@[1]);
    assert("oeq"@[1] != "ogt"@[1]);
    let nan: i32 = if mode is Greater { 1i32 } else { -1i32 };
    assert(spec_compare_fp(t, var1, var2, mode, dest) == three_way_fp_text(t, var1, var2, dest, "ogt"@, "oeq"@, "olt"@, nan));
    assert forall|o: FpOrder| #[trigger] select_chain_value("ogt"@, "oeq"@, "olt"@, nan as int, o) == jvm_float_compare(mode, o) by {}
}

/// The JVM's `lcmp`: 1 when the first value is greater, 0 when equal, -1
/// when less.
pub open spec fn jvm_long_compare(a: int, b: int) -> int {
    if a > b {
        1
    } else if a == b {
        0
    } else {
        -1
    }
}

/// `1` for true, `0` for false, as `zext i1` gives.
pub open spec fn flag_value(b: bool) -> int {
    if b { 1 } else { 0 }
}

/// Two `icmp`s of the operands with the predicates `lt` and `gt`, widened,
/// and the difference of the second and the first into `dest`.
pub open spec fn three_way_long_text(t: nat, var1: Op, var2: Op, dest: DestAssign, lt: Seq<char>, gt: Seq<char>) -> Seq<char> {
    int_compare_line(t, lt, "i64"@, spec_op_val(var1), spec_op_val(var2)) + zext_line(tmp_name(t + 1), t)
        + int_compare_line(t + 2, gt, "i64"@, spec_op_val(var1), spec_op_val(var2)) + zext_line(tmp_name(t + 3), t + 2)
        + "  "@ + spec_dest_assign(dest) + " = sub i32 "@ + tmp_name(t + 3) + ", "@ + tmp_name(t + 1) + "\n"@
}

/// A comparison of two longs is compiled to the difference of two widened
/// `icmp` flags, the "greater" flag minus the "less" flag, which is the
/// JVM's `lcmp` of the two values.
pub proof fn law_long_comparisons_keep_their_meaning(t: nat, var1: Op, var2: Op, dest: DestAssign)
    ensures
        exists|lt: Seq<char>, gt: Seq<char>| {
            &&& spec_compare_long(t, var1, var2, Dest::Assign(dest)) == #[trigger] three_way_long_text(t, var1, var2, dest, lt, gt)
            &&& forall|a: int, b: int| #![trigger llvm_int_predicate(gt, a, b), llvm_int_predicate(lt, a, b)]
                llvm_int_predicate(lt, a, b) is Some && llvm_int_predicate(gt, a, b) is Some
                && flag_value(llvm_int_predicate(gt, a, b)->0) - flag_value(llvm_int_predicate(lt, a, b)->0)
                == jvm_long_compare(a, b)
        },
{
    reveal_strlit("eq");
    reveal_strlit("ne");
    reveal_strlit("slt");
    reveal_strlit("sle");
    reveal_strlit("sgt");
    assert("slt"@[2] != "sle"@[2]);
    assert("slt"@[1] != "sgt"@[1]);
    assert("sle"@[1] != "sgt"@[1]);
    assert(spec_compare_long(t, var1, var2, Dest::Assign(dest)) =~= three_way_long_text(t, var1, var2, dest, "slt"@, "sgt"@));
    assert forall|a: int, b: int| #![trigger llvm_int_predicate("sgt"@, a, b), llvm_int_predicate("slt"@, a, b)]
        llvm_int_predicate("slt"@, a, b) is Some && llvm_int_predicate("sgt"@, a, b) is Some
        && flag_value(llvm_int_predicate("sgt"@, a, b)->0) - flag_value(llvm_int_predicate("slt"@, a, b)->0)
        == jvm_long_compare(a, b) by {}
}

/// The width in bits of an LLVM first-class type, and whether it is a
/// floating-point type; `None` for other names.
pub open spec fn llvm_type_shape(name: Seq<char>) -> Option<(nat, bool)> {
    if name == "i32"@ {
        Some((32, false))
    } else if name == "i64"@ {
        Some((64, false))
    } else if name == "float"@ {
        Some((32, true))
    } else if name == "double"@ {
        Some((64, true))
    } else {
        None
    }
}

/// The width in bits of a JVM value of a primitive type as the JVM computes
/// with it (`boolean`, `byte`, `char` and `short` as `int`), and whether it
/// is a floating-point type.
pub open spec fn jvm_value_shape(t: Type) -> (nat, bool) {
    match t {
        Type::Long => (64, false),
        Type::Float => (32, true),
        Type::Double => (64, true),
        _ => (32, false),
    }
}

/// Values of primitive types are held in LLVM values of the width and kind
/// the JVM computes them in; references in the reference type.
pub proof fn law_value_types_keep_their_shape(t: Type)
    ensures
        t != Type::Reference ==> llvm_type_shape(spec_tlt_type(t)) == Some(jvm_value_shape(t)),
        t == Type::Reference ==> spec_tlt_type(t) == "%ref"@,
{
    reveal_strlit("i32");
    reveal_strlit("i64");
    reveal_strlit("float");
    reveal_strlit("double");
    assert("i32"@[1] != "i64"@[1]);
    assert("float"@.len() == 5 && "double"@.len() == 6 && "i32"@.len() == 3 && "i64"@.len() == 3);
    match t {
        Type::Long => assert(spec_tlt_type(t) == "i64"@),
        Type::Float => assert(spec_tlt_type(t) == "float"@),
        Type::Double => assert(spec_tlt_type(t) == "double"@),
        Type::Reference => {},
        _ => assert(spec_tlt_type(t) == "i32"@),
    }
}

/// The width in bits of the JVM's array components of a primitive type
/// (`boolean` and `byte` 8, `char` and `short` 16, `int` and `float` 32,
/// `long` and `double` 64), and whether they are floating-point.
pub open spec fn jvm_component_shape(t: Type) -> (nat, bool) {
    match t {
        Type::Boolean | Type::Byte => (8, false),
        Type::Char | Type::Short => (16, false),
        Type::Long => (64, false),
        Type::Float => (32, true),
        Type::Double => (64, true),
        _ => (32, false),
    }
}

/// The width and kind of LLVM's integer and floating-point types of up to
/// 64 bits.
pub open spec fn llvm_component_shape(name: Seq<char>) -> Option<(nat, bool)> {
    if name == "i8"@ {
        Some((8, false))
    } else if name == "i16"@ {
        Some((16, false))
    } else {
        llvm_type_shape(name)
    }
}

/// Array components of primitive types are stored in LLVM values of their
/// JVM width and kind, except `char` components, which are stored in 8
/// bits; references as references.
pub proof fn law_array_components_keep_their_width(t: Type)
    ensures
        t != Type::Reference && t != Type::Char ==> llvm_component_shape(spec_tlt_array_component_type(t))
            == Some(jvm_component_shape(t)),
        t == Type::Reference ==> spec_tlt_array_component_type(t) == "%ref"@,
{
    reveal_strlit("i8");
    reveal_strlit("i16");
    reveal_strlit("i32");
    reveal_strlit("i64");
    reveal_strlit("float");
    reveal_strlit("double");
    assert("i32"@[1] != "i64"@[1]);
    assert("i8"@.len() == 2 && "i16"@.len() == 3 && "float"@.len() == 5 && "double"@.len() == 6);
    assert("i16"@[1] != "i32"@[1] && "i16"@[1] != "i64"@[1]);
    match t {
        Type::Boolean | Type::Byte => assert(spec_tlt_array_component_type(t) == "i8"@),
        Type::Short => assert(spec_tlt_array_component_type(t) == "i16"@),
        Type::Int => assert(spec_tlt_array_component_type(t) == "i32"@),
        Type::Long => assert(spec_tlt_array_component_type(t) == "i64"@),
        Type::Float => assert(spec_tlt_array_component_type(t) == "float"@),
        Type::Double => assert(spec_tlt_array_component_type(t) == "double"@),
        _ => {},
    }
}

/// Values of primitive field types are held in LLVM values of the width
/// and kind the JVM computes them in; objects and arrays in references.
pub proof fn law_field_values_keep_their_shape(b: BaseType, n: Seq<char>, c: SpecFieldType)
    ensures
        llvm_type_shape(spec_tlt_field_type(SpecFieldType::Base(b))) == Some(match b {
            BaseType::Long => (64nat, false),
            BaseType::Float => (32nat, true),
            BaseType::Double => (64nat, true),
            _ => (32nat, false),
        }),
        spec_tlt_field_type(SpecFieldType::Object(n)) == "%ref"@,
        spec_tlt_field_type(SpecFieldType::Array(Box::new(c))) == "%ref"@,
{
    reveal_strlit("i32");
    reveal_strlit("i64");
    reveal_strlit("float");
    reveal_strlit("double");
    assert("i32"@[1] != "i64"@[1]);
    assert("float"@.len() == 5 && "double"@.len() == 6 && "i32"@.len() == 3 && "i64"@.len() == 3);
    match b {
        BaseType::Long => assert(spec_tlt_field_type(SpecFieldType::Base(b)) == "i64"@),
        BaseType::Float => assert(spec_tlt_field_type(SpecFieldType::Base(b)) == "float"@),
        BaseType::Double => assert(spec_tlt_field_type(SpecFieldType::Base(b)) == "double"@),
        _ => assert(spec_tlt_field_type(SpecFieldType::Base(b)) == "i32"@),
    }
}

/// The width in bits that the JVM's `i2b`, `i2s` and `i2c` cut an `int` to,
/// and whether the result is widened back with its sign (`i2c` gives an
/// unsigned `char`).
pub open spec fn jvm_narrowing(op: ConvertOperation) -> (nat, bool) {
    match op {
        ConvertOperation::IntToByte => (8, true),
        ConvertOperation::IntToShort => (16, true),
        ConvertOperation::IntToChar => (16, false),
    }
}

/// A narrowing widens back with its sign exactly when the JVM's does, and
/// cuts to the JVM's width, except `i2c`, which cuts to 8 bits.
pub proof fn law_narrowings_keep_their_meaning(op: ConvertOperation)
    ensures
        narrowing(op).1 == jvm_narrowing(op).1,
        op != ConvertOperation::IntToChar ==> llvm_component_shape(narrowing(op).0) == Some((jvm_narrowing(op).0, false)),
{
    reveal_strlit("i8");
    reveal_strlit("i16");
    assert("i8"@.len() == 2 && "i16"@.len() == 3);
}

} // verus!
