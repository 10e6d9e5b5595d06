use rustretto::classfile::constant_pool::{
    ClassConstant, Constant, ConstantIndex, DoubleConstant, FieldRefConstant, FloatConstant,
    IntegerConstant, LongConstant, MethodHandleConstant, NameAndTypeConstant, Utf8Constant,
};
use rustretto::classfile::instructions::Instr;

#[test]
fn instruction_debug_text_matches_derived_debug() {
    let instrs = vec![
        Instr::AaLoad,
        Instr::ALoad(7),
        Instr::BiPush(-5),
        Instr::SiPush(300),
        Instr::Goto(-12),
        Instr::GotoW(-70000),
        Instr::IInc(3, -1),
        Instr::InvokeDynamic(12, 0),
        Instr::InvokeInterface(9, 2, 0),
        Instr::MultiNewArray(4, 2),
        Instr::WideIInc(400, -300),
        Instr::LookupSwitch(20, vec![(1, 8), (-3, 16)]),
        Instr::LookupSwitch(-4, vec![]),
        Instr::TableSwitch(24, 0, 2, vec![8, 12, -16]),
        Instr::TableSwitch(4, 1, 0, vec![]),
        Instr::LdC2W(65535),
        Instr::IfNull(0),
        Instr::Return,
    ];
    for instr in instrs {
        assert_eq!(instr.debug_text(), format!("{:?}", instr));
    }
}

#[test]
fn instruction_debug_text_exact_values() {
    assert_eq!(Instr::Dup.debug_text(), "Dup");
    assert_eq!(Instr::IInc(3, -1).debug_text(), "IInc(3, -1)");
    assert_eq!(
        Instr::TableSwitch(24, 0, 2, vec![8, 12, -16]).debug_text(),
        "TableSwitch(24, 0, 2, [8, 12, -16])"
    );
    assert_eq!(Instr::LookupSwitch(20, vec![(1, 8), (-3, 16)]).debug_text(), "LookupSwitch(20, [(1, 8), (-3, 16)])");
}

#[test]
fn constant_debug_text_matches_derived_debug() {
    let constants = vec![
        Constant::Class(ClassConstant { name_index: ConstantIndex(5) }),
        Constant::FieldRef(FieldRefConstant { class_index: ConstantIndex(1), name_and_type_index: ConstantIndex(2) }),
        Constant::Integer(IntegerConstant { value: -42 }),
        Constant::Long(LongConstant { value: i64::MIN }),
        Constant::NameAndType(NameAndTypeConstant { name_index: ConstantIndex(3), descriptor_index: ConstantIndex(4) }),
        Constant::MethodHandle(MethodHandleConstant { reference_kind: 6, reference_index: ConstantIndex(9) }),
        Constant::Unusable,
    ];
    for c in constants {
        assert_eq!(c.debug_text(""), format!("{:?}", c));
    }
}

#[test]
fn constant_debug_text_exact_values() {
    assert_eq!(
        Constant::Class(ClassConstant { name_index: ConstantIndex(5) }).debug_text(""),
        "Class(ClassConstant { name_index: ConstantIndex(5) })"
    );
    assert_eq!(
        Constant::Integer(IntegerConstant { value: -42 }).debug_text(""),
        "Integer(IntegerConstant { value: -42 })"
    );
}

#[test]
fn utf8_constant_shows_its_quoted_string() {
    let c = Constant::Utf8(Utf8Constant { string: String::from("a\"b\\c\n") });
    assert_eq!(c.debug_text(""), format!("Utf8({:?})", "a\"b\\c\n"));
    assert_eq!(c.debug_text(""), "Utf8(\"a\\\"b\\\\c\\n\")");
}

#[test]
fn floating_point_constants_show_the_given_value_text() {
    let f = 1.5f32;
    let c = Constant::Float(FloatConstant { bits: f.to_bits() });
    assert_eq!(c.debug_text(&format!("{:?}", f)), "Float(FloatConstant { value: 1.5 })");
    let d = -0.25f64;
    let c = Constant::Double(DoubleConstant { bits: d.to_bits() });
    assert_eq!(c.debug_text(&format!("{:?}", d)), "Double(DoubleConstant { value: -0.25 })");
}
