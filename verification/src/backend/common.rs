//! LLVM IR spellings of types, operands, destinations and constants.
use vstd::prelude::*;
use crate::classfile::descriptors::{
    BaseType, FieldType, MethodDescriptor, ParameterDescriptor, ReturnTypeDescriptor, SpecFieldType,
    SpecMethodDescriptor, SpecReturnType,
};
use crate::frontend::translate::{Const, Op, VarId, lemma_counts_from_zero};
use crate::frontend::types::Type;
use crate::text::{push_char, push_decimal, push_signed_decimal, push_hex, decimal, signed_decimal, hex_digits};

verus! {

/// Where the value of an expression goes.
#[derive(Clone, Copy, Debug, PartialEq, Eq, Structural)]
pub enum Dest {
    Ignore,
    Assign(DestAssign),
}

/// A register that receives a value: a variable or a temporary.
#[derive(Clone, Copy, Debug, PartialEq, Eq, Structural)]
pub enum DestAssign {
    Var(VarId),
    Tmp(u64),
}

/// The register name of a destination.
pub open spec fn spec_dest_assign(d: DestAssign) -> Seq<char> {
    match d {
        DestAssign::Var(v) => seq!['%', 'v'] + decimal(v.1 as nat),
        DestAssign::Tmp(t) => seq!['%', 't'] + decimal(t as nat),
    }
}

impl DestAssign {
    /// The register name: `%v` or `%t` and the number.
    pub fn to_string(&self) -> (r: String)
        ensures
            r@ == spec_dest_assign(*self),
    {
        let mut out = String::new();
        push_char(&mut out, '%');
        match self {
            DestAssign::Var(v) => {
                push_char(&mut out, 'v');
                push_decimal(&mut out, v.1);
            },
            DestAssign::Tmp(t) => {
                push_char(&mut out, 't');
                push_decimal(&mut out, *t);
            },
        }
        assert(out@ =~= spec_dest_assign(*self));
        out
    }
}

/// Hands out temporary registers with consecutive numbers.
pub struct TmpVarIdGen {
    next_id: u64,
}

impl View for TmpVarIdGen {
    type V = u64;

    /// The number of the next temporary.
    closed spec fn view(&self) -> u64 {
        self.next_id
    }
}

impl TmpVarIdGen {
    pub fn new() -> (r: Self)
        ensures
            r@ == 0,
    {
        TmpVarIdGen { next_id: 0 }
    }

    /// A new temporary; the numbers run out at `u64::MAX`.
    pub fn gen(&mut self) -> (r: u64)
        requires
            old(self)@ < u64::MAX,
        ensures
            r == old(self)@,
            final(self)@ == old(self)@ + 1,
    {
        let var_id = self.next_id;
        self.next_id += 1;
        var_id
    }
}

/// Temporaries come out numbered from 0 up: when a run of `gen` calls
/// starts on a new generator (whose count `new` sets to 0), each call
/// returning the count it finds and adding one to it, the `n`-th call
/// returns `n - 1`, so the numbers of one generator are distinct and
/// increasing.
pub proof fn law_temporaries_count_up(counts: Seq<u64>, outs: Seq<u64>)
    requires
        counts.len() == outs.len() + 1,
        counts[0] == 0,
        forall|i: int| 0 <= i < outs.len() ==> #[trigger] outs[i] == counts[i],
        forall|i: int| 0 <= i < outs.len() ==> #[trigger] counts[i + 1] == counts[i] + 1,
    ensures
        forall|i: int| 0 <= i < outs.len() ==> #[trigger] outs[i] == i,
        forall|i: int, j: int| 0 <= i < j < outs.len() ==> #[trigger] outs[i] < #[trigger] outs[j],
{
    lemma_counts_from_zero(counts, outs.len() as int);
    assert forall|i: int| 0 <= i < outs.len() implies #[trigger] outs[i] == i by {
        assert(counts[i] == i);
    }
}

/// An operand as a value in LLVM IR.
pub struct OpVal<'a>(pub &'a Op);

/// The spelling of an operand: a variable's register, a number, or the
/// null reference.
pub open spec fn spec_op_val(op: Op) -> Seq<char> {
    match op {
        Op::Var(v) => seq!['%', 'v'] + decimal(v.1 as nat),
        Op::Const(Const::Int(x)) => signed_decimal(x as int),
        Op::Const(Const::Long(x)) => signed_decimal(x as int),
        Op::Const(Const::Null) => "zeroinitializer"@,
    }
}

impl<'a> OpVal<'a> {
    pub fn to_string(&self) -> (r: String)
        ensures
            r@ == spec_op_val(*self.0),
    {
        let mut out = String::new();
        match self.0 {
            Op::Var(v) => {
                push_char(&mut out, '%');
                push_char(&mut out, 'v');
                push_decimal(&mut out, v.1);
            },
            Op::Const(c) => match c {
                Const::Int(x) => push_signed_decimal(&mut out, *x as i64),
                Const::Long(x) => push_signed_decimal(&mut out, *x),
                Const::Null => out.append("zeroinitializer"),
            },
        }
        assert(out@ =~= spec_op_val(*self.0));
        out
    }
}

/// The size of an LLVM type, computed from a null pointer.
pub struct GenSizeOf<'a>(pub &'a str);

impl<'a> GenSizeOf<'a> {
    pub fn to_string(&self) -> (r: String)
        ensures
            r@ == "ptrtoint ("@ + self.0@ + "* getelementptr ("@ + self.0@ + ", "@ + self.0@
                + "* null, i64 1) to i64)"@,
    {
        let mut out = String::from_str("ptrtoint (");
        out.append(self.0);
        out.append("* getelementptr (");
        out.append(self.0);
        out.append(", ");
        out.append(self.0);
        out.append("* null, i64 1) to i64)");
        out
    }
}

/// A string as an LLVM character array constant.
pub struct GenStringConst<'a>(pub &'a str);

/// One byte of a string constant: printable ASCII stands for itself, except
/// `"` and `\`; every other byte is `\` and two lower-case hex digits.
pub open spec fn spec_string_const_byte(b: u8) -> Seq<char> {
    if 0x20 <= b <= 0x7e && b != 0x22 && b != 0x5c {
        seq![b as char]
    } else {
        seq!['\\'] + hex_digits(b as nat, 2)
    }
}

/// The bytes of a string constant one after the other.
pub open spec fn spec_string_const_bytes(bytes: Seq<u8>) -> Seq<char>
    decreases bytes.len(),
{
    if bytes.len() == 0 {
        Seq::empty()
    } else {
        spec_string_const_bytes(bytes.drop_last()) + spec_string_const_byte(bytes.last())
    }
}

/// A string constant: `c"`, the escaped UTF-8 bytes, and a terminating NUL.
pub open spec fn spec_string_const(bytes: Seq<u8>) -> Seq<char> {
    seq!['c', '"'] + spec_string_const_bytes(bytes) + seq!['\\', '0', '0', '"']
}

impl<'a> GenStringConst<'a> {
    pub fn to_string(&self) -> (r: String)
        ensures
            r@ == spec_string_const(vstd::utf8::encode_utf8(self.0@)),
    {
        let bytes = self.0.as_bytes();
        let ghost bs = bytes@;
        let mut out = String::new();
        push_char(&mut out, 'c');
        push_char(&mut out, '"');
        let mut i: usize = 0;
        while i < bytes.len()
            invariant
                bs == bytes@,
                i <= bs.len(),
                out@ == seq!['c', '"'] + spec_string_const_bytes(bs.take(i as int)),
            decreases bs.len() - i,
        {
            let byte = bytes[i];
            if 0x20 <= byte && byte <= 0x7e && byte != 0x22 && byte != 0x5c {
                push_char(&mut out, byte as char);
            } else {
                push_char(&mut out, '\\');
                push_hex(&mut out, byte as u32, 2);
            }
            assert(bs.take(i + 1).drop_last() =~= bs.take(i as int));
            i += 1;
            assert(out@ =~= seq!['c', '"'] + spec_string_const_bytes(bs.take(i as int)));
        }
        assert(bs.take(bs.len() as int) =~= bs);
        push_char(&mut out, '\\');
        push_char(&mut out, '0');
        push_char(&mut out, '0');
        push_char(&mut out, '"');
        assert(out@ =~= spec_string_const(bs));
        out
    }
}

/// A method's LLVM function type: the return type, then the receiver and
/// the parameters.
pub struct GenFunctionType<'a>(pub &'a MethodDescriptor);

/// The LLVM function type of a method: its return type, then the receiver
/// and the parameters.
pub open spec fn spec_function_type(d: SpecMethodDescriptor) -> Seq<char> {
    spec_tlt_return_type(d.ret) + " (%ref"@ + spec_param_types(d.params) + ")"@
}

/// The LLVM types of parameters, each preceded by `, `.
pub open spec fn spec_param_types(params: Seq<SpecFieldType>) -> Seq<char>
    decreases params.len(),
{
    if params.len() == 0 {
        Seq::empty()
    } else {
        spec_param_types(params.drop_last()) + ", "@ + spec_tlt_field_type(params.last())
    }
}

impl<'a> GenFunctionType<'a> {
    pub fn to_string(&self) -> (r: String)
        ensures
            r@ == spec_tlt_return_type(self.0.ret@) + " (%ref"@ + spec_param_types(self.0@.params) + ")"@,
    {
        let ghost ps = self.0@.params;
        let mut out = String::from_str(tlt_return_type(&self.0.ret));
        out.append(" (%ref");
        let ghost head = out@;
        let mut i: usize = 0;
        while i < self.0.params.len()
            invariant
                ps == self.0@.params,
                ps.len() == self.0.params@.len(),
                i <= ps.len(),
                out@ == head + spec_param_types(ps.take(i as int)),
            decreases ps.len() - i,
        {
            match &self.0.params[i] {
                ParameterDescriptor::Field(field) => {
                    out.append(", ");
                    out.append(tlt_field_type(field));
                },
            }
            assert(ps.take(i + 1).drop_last() =~= ps.take(i as int));
            assert(ps[i as int] == self.0.params@[i as int]@);
            i += 1;
        }
        assert(ps.take(ps.len() as int) =~= ps);
        out.append(")");
        out
    }
}

/// The LLVM type of a return type.
pub open spec fn spec_tlt_return_type(t: SpecReturnType) -> Seq<char> {
    match t {
        SpecReturnType::Void => "void"@,
        SpecReturnType::Field(f) => spec_tlt_field_type(f),
    }
}

/// The LLVM type of a value of a field type: the small integral types are
/// held as `i32`, objects and arrays as references.
pub open spec fn spec_tlt_field_type(t: SpecFieldType) -> Seq<char> {
    match t {
        SpecFieldType::Base(b) => match b {
            BaseType::Long => "i64"@,
            BaseType::Float => "float"@,
            BaseType::Double => "double"@,
            _ => "i32"@,
        },
        SpecFieldType::Object(_) => "%ref"@,
        SpecFieldType::Array(_) => "%ref"@,
    }
}

/// The LLVM type of an array component: booleans, bytes and chars take a
/// byte, shorts two.
pub open spec fn spec_tlt_array_component_type(t: Type) -> Seq<char> {
    match t {
        Type::Boolean => "i8"@,
        Type::Byte => "i8"@,
        Type::Char => "i8"@,
        Type::Short => "i16"@,
        Type::Int => "i32"@,
        Type::Long => "i64"@,
        Type::Float => "float"@,
        Type::Double => "double"@,
        Type::Reference => "%ref"@,
    }
}

/// The LLVM type of a value of a type.
pub open spec fn spec_tlt_type(t: Type) -> Seq<char> {
    match t {
        Type::Long => "i64"@,
        Type::Float => "float"@,
        Type::Double => "double"@,
        Type::Reference => "%ref"@,
        _ => "i32"@,
    }
}

/// A method's LLVM function type, as a string (see `GenFunctionType`).
pub fn tlt_function_type(descr: &MethodDescriptor) -> (r: String)
    ensures
        r@ == spec_tlt_return_type(descr.ret@) + " (%ref"@ + spec_param_types(descr@.params) + ")"@,
{
    GenFunctionType(descr).to_string()
}

pub fn tlt_return_type(return_type: &ReturnTypeDescriptor) -> (r: &'static str)
    ensures
        r@ == spec_tlt_return_type(return_type@),
{
    match return_type {
        ReturnTypeDescriptor::Void => "void",
        ReturnTypeDescriptor::Field(field_type) => tlt_field_type(field_type),
    }
}

pub fn tlt_field_type(field_type: &FieldType) -> (r: &'static str)
    ensures
        r@ == spec_tlt_field_type(field_type@),
{
    match field_type {
        FieldType::Base(base_type) => match base_type {
            BaseType::Boolean => "i32",
            BaseType::Byte => "i32",
            BaseType::Char => "i32",
            BaseType::Short => "i32",
            BaseType::Int => "i32",
            BaseType::Long => "i64",
            BaseType::Float => "float",
            BaseType::Double => "double",
        },
        FieldType::Object(_) => "%ref",
        FieldType::Array(_) => "%ref",
    }
}

pub fn tlt_array_component_type(ctyp: &Type) -> (r: &'static str)
    ensures
        r@ == spec_tlt_array_component_type(*ctyp),
{
    match ctyp {
        Type::Boolean => "i8",
        Type::Byte => "i8",
        Type::Char => "i8",
        Type::Short => "i16",
        Type::Int => "i32",
        Type::Long => "i64",
        Type::Float => "float",
        Type::Double => "double",
        Type::Reference => "%ref",
    }
}

pub fn tlt_type(t: &Type) -> (r: &'static str)
    ensures
        r@ == spec_tlt_type(*t),
{
    match t {
        Type::Boolean => "i32",
        Type::Byte => "i32",
        Type::Char => "i32",
        Type::Short => "i32",
        Type::Int => "i32",
        Type::Long => "i64",
        Type::Float => "float",
        Type::Double => "double",
        Type::Reference => "%ref",
    }
}

} // verus!
