//! The text that the class file printer shows for constants, instructions,
//! types and method signatures.
use vstd::prelude::*;
use crate::classfile::access_flags::{ACC_PUBLIC, ACC_STATIC};
use crate::classfile::class_file::Method;
use crate::classfile::constant_pool::{
    Constant, ConstantIndex, ConstantPool, SpecConstant, spec_get_class, spec_get_info,
    spec_get_name_and_type, spec_get_utf8,
};
use crate::classfile::descriptors::{
    BaseType, FieldType, MethodDescriptor, ParameterDescriptor, ReturnTypeDescriptor, SpecFieldType,
    SpecReturnType,
};
use crate::classfile::debug_text::{spec_constant_debug, spec_instr_debug};
use crate::classfile::instructions::Instr;
use crate::text::{decimal, push_char, push_decimal, push_signed_decimal, signed_decimal, str_eq};

verus! {

/// The text of the floating-point value of the entry at `idx`, from texts
/// that the caller formatted, one per pool index; empty past their end.
pub open spec fn float_text_at(float_texts: Seq<String>, idx: u16) -> Seq<char> {
    if (idx as int) < float_texts.len() {
        float_texts[idx as int]@
    } else {
        Seq::empty()
    }
}

/// The name of the class that a class entry names.
pub open spec fn class_name_at(pool: Seq<SpecConstant>, idx: ConstantIndex) -> Option<Seq<char>> {
    match spec_get_class(pool, idx) {
        Some(c) => spec_get_utf8(pool, c.name_index),
        None => None,
    }
}

/// The class name, member name and descriptor of a field or method
/// reference, when all the entries they need are there.
pub open spec fn member_ref_text(
    pool: Seq<SpecConstant>,
    class_index: ConstantIndex,
    name_and_type_index: ConstantIndex,
) -> Option<(Seq<char>, Seq<char>, Seq<char>)> {
    match (class_name_at(pool, class_index), spec_get_name_and_type(pool, name_and_type_index)) {
        (Some(c), Some(nt)) => match (spec_get_utf8(pool, nt.name_index), spec_get_utf8(pool, nt.descriptor_index)) {
            (Some(n), Some(d)) => Some((c, n, d)),
            _ => None,
        },
        _ => None,
    }
}

/// Whether the entry at `idx` and every entry it refers to are there.
pub open spec fn constant_formattable(pool: Seq<SpecConstant>, idx: u16) -> bool {
    match spec_get_info(pool, ConstantIndex(idx)) {
        Some(SpecConstant::FieldRef(f)) => member_ref_text(pool, f.class_index, f.name_and_type_index) is Some,
        Some(SpecConstant::MethodRef(m)) => member_ref_text(pool, m.class_index, m.name_and_type_index) is Some,
        Some(SpecConstant::String(s)) => spec_get_utf8(pool, s.string_index) is Some,
        Some(_) => true,
        None => false,
    }
}

/// The text of the entry at `idx`: field and method references by class,
/// name and descriptor, strings by their text, other entries by their
/// debug text, with a floating-point value shown by its text in
/// `float_texts`.
pub open spec fn spec_format_constant(pool: Seq<SpecConstant>, idx: u16, float_texts: Seq<String>) -> Seq<char> {
    match spec_get_info(pool, ConstantIndex(idx)) {
        Some(SpecConstant::FieldRef(f)) => {
            let t = member_ref_text(pool, f.class_index, f.name_and_type_index)->0;
            "Field "@ + t.0 + "."@ + t.1 + ":"@ + t.2
        },
        Some(SpecConstant::MethodRef(m)) => {
            let t = member_ref_text(pool, m.class_index, m.name_and_type_index)->0;
            if t.1 == "<init>"@ {
                "Method "@ + t.0 + ".\"<init>\":"@ + t.2
            } else {
                "Method "@ + t.0 + "."@ + t.1 + ":"@ + t.2
            }
        },
        Some(SpecConstant::String(s)) => "String "@ + spec_get_utf8(pool, s.string_index)->0,
        Some(c) => spec_constant_debug(c, float_text_at(float_texts, idx)),
        None => Seq::empty(),
    }
}

/// Reads the class name, member name and descriptor of a reference.
fn member_ref(pool: &ConstantPool, class_index: ConstantIndex, name_and_type_index: ConstantIndex)
    -> (r: (&str, &str, &str))
    requires
        member_ref_text(pool@, class_index, name_and_type_index) is Some,
    ensures
        (r.0@, r.1@, r.2@) == member_ref_text(pool@, class_index, name_and_type_index)->0,
{
    let class = pool.get_class(class_index).unwrap();
    let class_name = pool.get_utf8(class.name_index).unwrap();
    let name_and_type = pool.get_name_and_type(name_and_type_index).unwrap();
    let name = pool.get_utf8(name_and_type.name_index).unwrap();
    let descriptor = pool.get_utf8(name_and_type.descriptor_index).unwrap();
    (class_name, name, descriptor)
}

/// Whether the class and member names that a reference needs are there.
fn member_ref_known(pool: &ConstantPool, class_index: ConstantIndex, name_and_type_index: ConstantIndex) -> (r: bool)
    ensures
        r == (member_ref_text(pool@, class_index, name_and_type_index) is Some),
{
    match pool.get_class(class_index) {
        Some(class) => match pool.get_utf8(class.name_index) {
            Some(_) => match pool.get_name_and_type(name_and_type_index) {
                Some(nt) => pool.get_utf8(nt.name_index).is_some() && pool.get_utf8(nt.descriptor_index).is_some(),
                None => false,
            },
            None => false,
        },
        None => false,
    }
}

/// Whether `format_constant` can format the entry at `idx`.
pub fn constant_is_formattable(pool: &ConstantPool, idx: u16) -> (r: bool)
    ensures
        r == constant_formattable(pool@, idx),
{
    match pool.get_info(ConstantIndex::from_u16(idx)) {
        Some(Constant::FieldRef(f)) => member_ref_known(pool, f.class_index, f.name_and_type_index),
        Some(Constant::MethodRef(m)) => member_ref_known(pool, m.class_index, m.name_and_type_index),
        Some(Constant::String(s)) => pool.get_utf8(s.string_index).is_some(),
        Some(_) => true,
        None => false,
    }
}

pub fn format_constant(idx: u16, pool: &ConstantPool, float_texts: &[String]) -> (r: String)
    requires
        constant_formattable(pool@, idx),
    ensures
        r@ == spec_format_constant(pool@, idx, float_texts@),
{
    match pool.get_info(ConstantIndex::from_u16(idx)).unwrap() {
        Constant::FieldRef(field_ref) => {
            let (class_name, name, descriptor) = member_ref(pool, field_ref.class_index, field_ref.name_and_type_index);
            let mut out = String::from_str("Field ");
            out.append(class_name);
            out.append(".");
            out.append(name);
            out.append(":");
            out.append(descriptor);
            out
        },
        Constant::MethodRef(method_ref) => {
            let (class_name, name, descriptor) = member_ref(pool, method_ref.class_index, method_ref.name_and_type_index);
            let mut out = String::from_str("Method ");
            out.append(class_name);
            if str_eq(name, "<init>") {
                out.append(".\"<init>\":");
                out.append(descriptor);
            } else {
                out.append(".");
                out.append(name);
                out.append(":");
                out.append(descriptor);
            }
            out
        },
        Constant::String(string) => {
            let mut out = String::from_str("String ");
            out.append(pool.get_utf8(string.string_index).unwrap());
            out
        },
        c => {
            if (idx as usize) < float_texts.len() {
                c.debug_text(float_texts[idx as usize].as_str())
            } else {
                let empty = String::new();
                c.debug_text(empty.as_str())
            }
        },
    }
}

/// `s` followed by spaces up to `width` characters.
pub open spec fn pad_right(s: Seq<char>, width: nat) -> Seq<char> {
    if s.len() >= width {
        s
    } else {
        s + Seq::new((width - s.len()) as nat, |i: int| ' ')
    }
}

/// Whether the entries that an instruction's text refers to are there.
pub open spec fn instr_formattable(pool: Seq<SpecConstant>, instr: Instr) -> bool {
    match instr {
        Instr::InvokeSpecial(n) => constant_formattable(pool, n),
        Instr::InvokeStatic(n) => constant_formattable(pool, n),
        Instr::InvokeVirtual(n) => constant_formattable(pool, n),
        Instr::GetStatic(n) => constant_formattable(pool, n),
        Instr::LdC(n) => constant_formattable(pool, n as u16),
        _ => true,
    }
}

/// The operand column of an instruction that refers to the constant pool:
/// the index, padded, and the entry's text as a comment.
pub open spec fn spec_constant_operand(pool: Seq<SpecConstant>, n: u16, float_texts: Seq<String>) -> Seq<char> {
    pad_right(decimal(n as nat), 19) + "// "@ + spec_format_constant(pool, n, float_texts)
}

/// The text of an instruction at `ipos`: its mnemonic and operands, a
/// branch by its target address; instructions without a spelling of their
/// own by their debug text.
pub open spec fn spec_format_instr(ipos: u32, instr: Instr, pool: Seq<SpecConstant>, float_texts: Seq<String>) -> Seq<char> {
    match instr {
        Instr::ALoad0 => "aload_0"@,
        Instr::InvokeSpecial(n) => "invokespecial #"@ + spec_constant_operand(pool, n, float_texts),
        Instr::Return => "return"@,
        Instr::IConst0 => "iconst_0"@,
        Instr::InvokeStatic(n) => "invokestatic  #"@ + spec_constant_operand(pool, n, float_texts),
        Instr::AStore1 => "astore_1"@,
        Instr::ALoad1 => "aload_1"@,
        Instr::InvokeVirtual(n) => "invokevirtual #"@ + spec_constant_operand(pool, n, float_texts),
        Instr::IfEq(off) => "ifeq          "@ + signed_decimal(ipos as int + off as int),
        Instr::GetStatic(n) => "getstatic     #"@ + spec_constant_operand(pool, n, float_texts),
        Instr::LdC(n) => "ldc           #"@ + spec_constant_operand(pool, n as u16, float_texts),
        _ => spec_instr_debug(instr),
    }
}

/// Appends the index padded to 19 characters, and the entry as a comment.
fn push_constant_operand(out: &mut String, n: u16, pool: &ConstantPool, float_texts: &[String])
    requires
        constant_formattable(pool@, n),
    ensures
        final(out)@ == old(out)@ + spec_constant_operand(pool@, n, float_texts@),
{
    let mut digits = String::new();
    push_decimal(&mut digits, n as u64);
    let len = decimal_len(n as u64);
    out.append(digits.as_str());
    assert(out@ =~= old(out)@ + digits@ + Seq::new(0, |j: int| ' '));
    let mut i: usize = len;
    while i < 19
        invariant
            len == digits@.len(),
            len <= i <= 19 || (len > 19 && i == len),
            out@ == old(out)@ + digits@ + Seq::new((i - len) as nat, |j: int| ' '),
            digits@ == decimal(n as nat),
        decreases 19 - i,
    {
        push_char(out, ' ');
        i += 1;
        assert(out@ =~= old(out)@ + digits@ + Seq::new((i - len) as nat, |j: int| ' '));
    }
    assert(old(out)@ + digits@ + Seq::new((i - len) as nat, |j: int| ' ') =~= old(out)@ + pad_right(decimal(n as nat), 19));
    out.append("// ");
    let c = format_constant(n, pool, float_texts);
    out.append(c.as_str());
}

/// Whether `format_instr` can format the instruction.
pub fn instr_is_formattable(pool: &ConstantPool, instr: &Instr) -> (r: bool)
    ensures
        r == instr_formattable(pool@, *instr),
{
    match instr {
        Instr::InvokeSpecial(n) => constant_is_formattable(pool, *n),
        Instr::InvokeStatic(n) => constant_is_formattable(pool, *n),
        Instr::InvokeVirtual(n) => constant_is_formattable(pool, *n),
        Instr::GetStatic(n) => constant_is_formattable(pool, *n),
        Instr::LdC(n) => constant_is_formattable(pool, *n as u16),
        _ => true,
    }
}

pub fn format_instr(ipos: u32, instr: &Instr, pool: &ConstantPool, float_texts: &[String]) -> (r: String)
    requires
        instr_formattable(pool@, *instr),
    ensures
        r@ == spec_format_instr(ipos, *instr, pool@, float_texts@),
{
    match instr {
        Instr::ALoad0 => String::from_str("aload_0"),
        Instr::InvokeSpecial(n) => {
            let mut out = String::from_str("invokespecial #");
            push_constant_operand(&mut out, *n, pool, float_texts);
            out
        },
        Instr::Return => String::from_str("return"),
        Instr::IConst0 => String::from_str("iconst_0"),
        Instr::InvokeStatic(n) => {
            let mut out = String::from_str("invokestatic  #");
            push_constant_operand(&mut out, *n, pool, float_texts);
            out
        },
        Instr::AStore1 => String::from_str("astore_1"),
        Instr::ALoad1 => String::from_str("aload_1"),
        Instr::InvokeVirtual(n) => {
            let mut out = String::from_str("invokevirtual #");
            push_constant_operand(&mut out, *n, pool, float_texts);
            out
        },
        Instr::IfEq(off) => {
            let mut out = String::from_str("ifeq          ");
            push_signed_decimal(&mut out, ipos as i64 + *off as i64);
            out
        },
        Instr::GetStatic(n) => {
            let mut out = String::from_str("getstatic     #");
            push_constant_operand(&mut out, *n, pool, float_texts);
            out
        },
        Instr::LdC(n) => {
            let mut out = String::from_str("ldc           #");
            push_constant_operand(&mut out, *n as u16, pool, float_texts);
            out
        },
        _ => instr.debug_text(),
    }
}

/// A field type as Java source spells it.
pub open spec fn spec_format_field_type(t: SpecFieldType) -> Seq<char>
    decreases t,
{
    match t {
        SpecFieldType::Base(b) => match b {
            BaseType::Byte => "byte"@,
            BaseType::Char => "char"@,
            BaseType::Double => "double"@,
            BaseType::Float => "float"@,
            BaseType::Int => "int"@,
            BaseType::Long => "long"@,
            BaseType::Short => "short"@,
            BaseType::Boolean => "boolean"@,
        },
        SpecFieldType::Array(c) => spec_format_field_type(*c) + "[]"@,
        SpecFieldType::Object(n) => n,
    }
}

pub fn format_field_type(field_type: &FieldType, out: &mut String)
    ensures
        final(out)@ == old(out)@ + spec_format_field_type(field_type@),
    decreases field_type,
{
    match field_type {
        FieldType::Base(base_type) => match base_type {
            BaseType::Byte => out.append("byte"),
            BaseType::Char => out.append("char"),
            BaseType::Double => out.append("double"),
            BaseType::Float => out.append("float"),
            BaseType::Int => out.append("int"),
            BaseType::Long => out.append("long"),
            BaseType::Short => out.append("short"),
            BaseType::Boolean => out.append("boolean"),
        },
        FieldType::Array(array_type) => {
            format_field_type(&array_type.component_type, out);
            out.append("[]");
            assert(out@ =~= old(out)@ + spec_format_field_type(field_type@));
        },
        FieldType::Object(object_type) => {
            out.append(object_type.class_name.as_str());
        },
    }
}

/// The types of parameters one after the other.
pub open spec fn spec_format_params(ps: Seq<SpecFieldType>) -> Seq<char>
    decreases ps.len(),
{
    if ps.len() == 0 {
        Seq::empty()
    } else {
        spec_format_params(ps.drop_last()) + spec_format_field_type(ps.last())
    }
}

pub fn format_method_parameters(desc: &MethodDescriptor, out: &mut String)
    ensures
        final(out)@ == old(out)@ + seq!['('] + spec_format_params(desc@.params) + seq![')'],
{
    let ghost ps = desc@.params;
    push_char(out, '(');
    let ghost head = out@;
    let mut i: usize = 0;
    while i < desc.params.len()
        invariant
            ps == desc@.params,
            ps.len() == desc.params@.len(),
            i <= ps.len(),
            out@ == head + spec_format_params(ps.take(i as int)),
        decreases ps.len() - i,
    {
        match &desc.params[i] {
            ParameterDescriptor::Field(field_type) => format_field_type(field_type, out),
        }
        assert(ps.take(i + 1).drop_last() =~= ps.take(i as int));
        assert(ps[i as int] == desc.params@[i as int]@);
        i += 1;
    }
    assert(ps.take(ps.len() as int) =~= ps);
    push_char(out, ')');
    assert(out@ =~= old(out)@ + seq!['('] + spec_format_params(desc@.params) + seq![')']);
}

/// A return type followed by a space.
pub open spec fn spec_format_return(t: SpecReturnType) -> Seq<char> {
    match t {
        SpecReturnType::Field(t) => spec_format_field_type(t) + seq![' '],
        SpecReturnType::Void => "void "@,
    }
}

/// A method's declaration: its modifiers, its return type and name (a
/// constructor by the class name), its parameters and a `;`.
pub open spec fn spec_format_method(this_class_name: Seq<char>, method: Method, pool: Seq<SpecConstant>) -> Seq<char> {
    spec_modifiers(method.access_flags.bits) + spec_method_name_part(this_class_name, method, pool)
        + seq!['('] + spec_format_params(method.descriptor@.params) + seq![')'] + seq![';']
}

/// The `public` and `static` modifiers that the flags hold.
pub open spec fn spec_modifiers(bits: u16) -> Seq<char> {
    (if bits & ACC_PUBLIC == ACC_PUBLIC { "public "@ } else { Seq::empty() })
        + (if bits & ACC_STATIC == ACC_STATIC { "static "@ } else { Seq::empty() })
}

/// A constructor's class name, or another method's return type and name.
pub open spec fn spec_method_name_part(this_class_name: Seq<char>, method: Method, pool: Seq<SpecConstant>) -> Seq<char> {
    let name = spec_get_utf8(pool, method.name_index)->0;
    if name == "<init>"@ {
        this_class_name
    } else {
        spec_format_return(method.descriptor@.ret) + name
    }
}

pub fn format_method(this_class_name: &str, method: &Method, consts: &ConstantPool, out: &mut String)
    requires
        spec_get_utf8(consts@, method.name_index) is Some,
    ensures
        final(out)@ == old(out)@ + spec_format_method(this_class_name@, *method, consts@),
{
    let access_flags = method.access_flags;
    let ghost bits = access_flags.bits;
    if access_flags.contains(ACC_PUBLIC) {
        out.append("public ");
    }
    if access_flags.contains(ACC_STATIC) {
        out.append("static ");
    }
    assert(out@ =~= old(out)@ + spec_modifiers(bits));
    let ghost after_modifiers = out@;
    let method_name = consts.get_utf8(method.name_index).unwrap();
    if str_eq(method_name, "<init>") {
        out.append(this_class_name);
    } else {
        match &method.descriptor.ret {
            ReturnTypeDescriptor::Field(field_type) => {
                format_field_type(field_type, out);
                push_char(out, ' ');
            },
            ReturnTypeDescriptor::Void => {
                out.append("void ");
            },
        }
        out.append(method_name);
    }
    assert(out@ =~= after_modifiers + spec_method_name_part(this_class_name@, *method, consts@));
    let ghost after_name = out@;
    format_method_parameters(&method.descriptor, out);
    push_char(out, ';');
    assert(out@ =~= old(out)@ + spec_format_method(this_class_name@, *method, consts@));
}

/// The number of decimal digits of `n`.
fn decimal_len(n: u64) -> (r: usize)
    ensures
        r == decimal(n as nat).len(),
        1 <= r <= 20,
    decreases n,
{
    if n < 10 {
        1
    } else {
        proof {
            assert(n / 10 < 0x1999_9999_9999_999a);
        }
        let k = decimal_len(n / 10);
        if k >= 20 {
            assert(false) by {
                lemma_decimal_len_bound((n / 10) as nat);
            }
        }
        k + 1
    }
}

/// Numbers below `10^k` have at most `k` digits; `u64` values have at most
/// 20, and a tenth of one at most 19.
proof fn lemma_decimal_len_bound(n: nat)
    requires
        n <= 0x1999_9999_9999_9999,
    ensures
        decimal(n).len() <= 19,
    decreases n,
{
    reveal_with_fuel(pow10, 20);
    assert(pow10(19) == 10000000000000000000nat);
    lemma_decimal_len_le(n, 19);
}

proof fn lemma_decimal_len_le(n: nat, k: nat)
    requires
        k >= 1,
        n < pow10(k),
    ensures
        decimal(n).len() <= k,
    decreases k,
{
    if n >= 10 {
        reveal_with_fuel(pow10, 2);
        assert(k > 1);
        assert(pow10(k) == 10 * pow10((k - 1) as nat));
        assert(n / 10 < pow10((k - 1) as nat));
        lemma_decimal_len_le(n / 10, (k - 1) as nat);
    }
}

/// Ten to the power `k`.
pub open spec fn pow10(k: nat) -> nat
    decreases k,
{
    if k == 0 { 1 } else { 10 * pow10((k - 1) as nat) }
}

/// The JVM's mnemonic of each instruction that the formatter spells out.
pub open spec fn jvm_mnemonic(i: Instr) -> Option<Seq<char>> {
    match i {
        Instr::ALoad0 => Some("aload_0"@),
        Instr::ALoad1 => Some("aload_1"@),
        Instr::AStore1 => Some("astore_1"@),
        Instr::IConst0 => Some("iconst_0"@),
        Instr::Return => Some("return"@),
        Instr::IfEq(_) => Some("ifeq"@),
        Instr::GetStatic(_) => Some("getstatic"@),
        Instr::LdC(_) => Some("ldc"@),
        Instr::InvokeSpecial(_) => Some("invokespecial"@),
        Instr::InvokeStatic(_) => Some("invokestatic"@),
        Instr::InvokeVirtual(_) => Some("invokevirtual"@),
        _ => None,
    }
}

/// An instruction that the formatter spells out is printed with its JVM
/// mnemonic, alone or followed by a space and its operands.
pub proof fn law_instructions_print_their_mnemonics(ipos: u32, instr: Instr, pool: Seq<SpecConstant>, float_texts: Seq<String>)
    ensures
        jvm_mnemonic(instr) matches Some(m) ==> {
            let text = spec_format_instr(ipos, instr, pool, float_texts);
            &&& m.len() <= text.len()
            &&& text.subrange(0, m.len() as int) == m
            &&& (text.len() == m.len() || text[m.len() as int] == ' ')
        },
{
    reveal_strlit("aload_0");
    reveal_strlit("aload_1");
    reveal_strlit("astore_1");
    reveal_strlit("iconst_0");
    reveal_strlit("return");
    reveal_strlit("ifeq");
    reveal_strlit("getstatic");
    reveal_strlit("ldc");
    reveal_strlit("invokespecial");
    reveal_strlit("invokestatic");
    reveal_strlit("invokevirtual");
    reveal_strlit("ifeq          ");
    reveal_strlit("getstatic     #");
    reveal_strlit("ldc           #");
    reveal_strlit("invokespecial #");
    reveal_strlit("invokestatic  #");
    reveal_strlit("invokevirtual #");
    if let Some(m) = jvm_mnemonic(instr) {
        let text = spec_format_instr(ipos, instr, pool, float_texts);
        match instr {
            Instr::IfEq(off) => {
                let head = "ifeq          "@;
                assert(text == head + signed_decimal(ipos as int + off as int));
                assert(text.subrange(0, m.len() as int) =~= head.subrange(0, m.len() as int));
                assert(text[m.len() as int] == head[m.len() as int]);
            },
            Instr::GetStatic(n) => {
                let head = "getstatic     #"@;
                assert(text == head + spec_constant_operand(pool, n, float_texts));
                assert(text.subrange(0, m.len() as int) =~= head.subrange(0, m.len() as int));
                assert(text[m.len() as int] == head[m.len() as int]);
            },
            Instr::LdC(n) => {
                let head = "ldc           #"@;
                assert(text == head + spec_constant_operand(pool, n as u16, float_texts));
                assert(text.subrange(0, m.len() as int) =~= head.subrange(0, m.len() as int));
                assert(text[m.len() as int] == head[m.len() as int]);
            },
            Instr::InvokeSpecial(n) => {
                let head = "invokespecial #"@;
                assert(text == head + spec_constant_operand(pool, n, float_texts));
                assert(text.subrange(0, m.len() as int) =~= head.subrange(0, m.len() as int));
                assert(text[m.len() as int] == head[m.len() as int]);
            },
            Instr::InvokeStatic(n) => {
                let head = "invokestatic  #"@;
                assert(text == head + spec_constant_operand(pool, n, float_texts));
                assert(text.subrange(0, m.len() as int) =~= head.subrange(0, m.len() as int));
                assert(text[m.len() as int] == head[m.len() as int]);
            },
            Instr::InvokeVirtual(n) => {
                let head = "invokevirtual #"@;
                assert(text == head + spec_constant_operand(pool, n, float_texts));
                assert(text.subrange(0, m.len() as int) =~= head.subrange(0, m.len() as int));
                assert(text[m.len() as int] == head[m.len() as int]);
            },
            _ => {
                assert(text.subrange(0, m.len() as int) =~= m);
            },
        }
    }
}

} // verus!
