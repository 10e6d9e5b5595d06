use rustretto::backend::common::{Dest, DestAssign, TmpVarIdGen};
use rustretto::backend::codegen::gen_vtable_const;
use rustretto::backend::decls::DeclDatabase;
use rustretto::backend::common::GenFunctionType;
use rustretto::backend::expr::{
    gen_expr_array_length, gen_expr_array_load, gen_expr_array_new, gen_expr_array_store, gen_expr_binary, gen_expr_compare_addr, gen_expr_compare_fp, gen_expr_compare_int, gen_expr_compare_long,
    gen_expr_convert, gen_expr_invoke, gen_expr_monitor,
};
use rustretto::backend::vtable::VTableMap;
use rustretto::classfile::class_file::ClassFile;
use rustretto::classfile::constant_pool::ConstantIndex;
use rustretto::classfile::descriptors::{
    BaseType, FieldType, MethodDescriptor, ParameterDescriptor, ReturnTypeDescriptor,
};
use rustretto::compiler::mangle::mangle_method_name;
use rustretto::frontend::translate::{
    AComparator, BinaryExpr, BinaryOperation, Const, ConvertExpr, ConvertOperation, IComparator, InvokeExpr,
    InvokeTarget, MonitorStateTransition, NaNCmpMode, Op, VarId,
};
use rustretto::frontend::types::Type;

fn int_var(n: u64) -> Op {
    Op::Var(VarId(Type::Int, n))
}

fn int_int_to_int() -> MethodDescriptor {
    MethodDescriptor {
        params: vec![
            ParameterDescriptor::Field(FieldType::Base(BaseType::Int)),
            ParameterDescriptor::Field(FieldType::Base(BaseType::Int)),
        ],
        ret: ReturnTypeDescriptor::Field(FieldType::Base(BaseType::Int)),
    }
}

fn void_method() -> MethodDescriptor {
    MethodDescriptor { params: vec![], ret: ReturnTypeDescriptor::Void }
}

/// A class `name` (extending `java/lang/Object`) whose pool holds a method
/// reference to `owner.method` with `descriptor`, at the index returned.
fn class_with_method_ref(name: &str, owner: &str, method: &str, descriptor: &str, methods: &[(&str, &str)]) -> (ClassFile, u16) {
    let mut pool: Vec<u8> = Vec::new();
    let mut count: u16 = 0;
    let mut utf8 = |pool: &mut Vec<u8>, count: &mut u16, s: &str| -> u16 {
        pool.push(1);
        pool.extend_from_slice(&(s.len() as u16).to_be_bytes());
        pool.extend_from_slice(s.as_bytes());
        *count += 1;
        *count
    };
    let this_name = utf8(&mut pool, &mut count, name);
    pool.push(7);
    pool.extend_from_slice(&this_name.to_be_bytes());
    count += 1;
    let this_class = count;
    let object_name = utf8(&mut pool, &mut count, "java/lang/Object");
    pool.push(7);
    pool.extend_from_slice(&object_name.to_be_bytes());
    count += 1;
    let object_class = count;
    let owner_name = utf8(&mut pool, &mut count, owner);
    pool.push(7);
    pool.extend_from_slice(&owner_name.to_be_bytes());
    count += 1;
    let owner_class = count;
    let method_name = utf8(&mut pool, &mut count, method);
    let method_descriptor = utf8(&mut pool, &mut count, descriptor);
    pool.push(12);
    pool.extend_from_slice(&method_name.to_be_bytes());
    pool.extend_from_slice(&method_descriptor.to_be_bytes());
    count += 1;
    let name_and_type = count;
    pool.push(10);
    pool.extend_from_slice(&owner_class.to_be_bytes());
    pool.extend_from_slice(&name_and_type.to_be_bytes());
    count += 1;
    let method_ref = count;
    let ms: Vec<(u16, u16)> = methods
        .iter()
        .map(|(n, d)| (utf8(&mut pool, &mut count, n), utf8(&mut pool, &mut count, d)))
        .collect();
    let mut b = vec![0xca, 0xfe, 0xba, 0xbe, 0x00, 0x00, 0x00, 0x34];
    b.extend_from_slice(&(count + 1).to_be_bytes());
    b.extend_from_slice(&pool);
    b.extend_from_slice(&0x0001u16.to_be_bytes());
    b.extend_from_slice(&this_class.to_be_bytes());
    let super_class = if name == "java/lang/Object" { 0 } else { object_class };
    b.extend_from_slice(&super_class.to_be_bytes());
    b.extend_from_slice(&0u16.to_be_bytes());
    b.extend_from_slice(&0u16.to_be_bytes());
    b.extend_from_slice(&(ms.len() as u16).to_be_bytes());
    for (n, d) in &ms {
        b.extend_from_slice(&0x0001u16.to_be_bytes());
        b.extend_from_slice(&n.to_be_bytes());
        b.extend_from_slice(&d.to_be_bytes());
        b.extend_from_slice(&0u16.to_be_bytes());
    }
    b.extend_from_slice(&0u16.to_be_bytes());
    (ClassFile::parse(&b).expect("class file"), method_ref)
}

fn object_class() -> ClassFile {
    class_with_method_ref("java/lang/Object", "java/lang/Object", "hashCode", "()I", &[("hashCode", "()I")]).0
}

#[test]
fn compare_fp_selects_minus_one_zero_or_one() {
    let mut out = String::from("; start\n");
    let mut tmp = TmpVarIdGen::new();
    let a = Op::Var(VarId(Type::Float, 1));
    let b = Op::Var(VarId(Type::Float, 2));
    gen_expr_compare_fp(&mut out, &mut tmp, &a, &b, &NaNCmpMode::Greater, Dest::Assign(DestAssign::Var(VarId(Type::Int, 5))));
    assert_eq!(
        out,
        "; start\n\
         \x20 %t0 = fcmp ogt float %v1, %v2\n\
         \x20 %t1 = fcmp oeq float %v1, %v2\n\
         \x20 %t2 = fcmp olt float %v1, %v2\n\
         \x20 %t3 = select i1 %t2, i32 -1, i32 1\n\
         \x20 %t4 = select i1 %t1, i32 0, i32 %t3\n\
         \x20 %v5 = select i1 %t0, i32 1, i32 %t4\n"
    );
    assert_eq!(tmp.gen(), 5);
}

#[test]
fn compare_fp_nan_less_on_doubles() {
    let mut out = String::new();
    let mut tmp = TmpVarIdGen::new();
    tmp.gen();
    let a = Op::Var(VarId(Type::Double, 3));
    let b = Op::Var(VarId(Type::Double, 4));
    gen_expr_compare_fp(&mut out, &mut tmp, &a, &b, &NaNCmpMode::Less, Dest::Assign(DestAssign::Tmp(9)));
    assert_eq!(
        out,
        "  %t1 = fcmp ogt double %v3, %v4\n\
         \x20 %t2 = fcmp oeq double %v3, %v4\n\
         \x20 %t3 = fcmp olt double %v3, %v4\n\
         \x20 %t4 = select i1 %t3, i32 -1, i32 -1\n\
         \x20 %t5 = select i1 %t2, i32 0, i32 %t4\n\
         \x20 %t9 = select i1 %t1, i32 1, i32 %t5\n"
    );
}

#[test]
fn compare_fp_ignored_writes_nothing() {
    let mut out = String::new();
    let mut tmp = TmpVarIdGen::new();
    let a = Op::Var(VarId(Type::Float, 1));
    gen_expr_compare_fp(&mut out, &mut tmp, &a, &a, &NaNCmpMode::Greater, Dest::Ignore);
    assert_eq!(out, "");
    assert_eq!(tmp.gen(), 0);
}

#[test]
fn decl_database_adds_a_method_once() {
    let mut decls = DeclDatabase::new(VTableMap::new(vec![]));
    let d = int_int_to_int();
    let first = decls.add_static_method("Other", "add", &d);
    let second = decls.add_static_method("Other", "add", &d);
    let mangled = mangle_method_name("Other", "add", &d.ret, &d.params);
    assert_eq!(first.to_string(), format!("@{}", mangled));
    assert_eq!(second.to_string(), first.to_string());
    assert_eq!(decls.entries(), vec![format!("declare i32 @{}(i32, i32)\n", mangled)]);
}

#[test]
fn decl_database_instance_method_takes_receiver() {
    let mut decls = DeclDatabase::new(VTableMap::new(vec![]));
    let d = void_method();
    decls.add_instance_method("Other", "run", &d);
    decls.add_static_method("Other", "run", &d);
    let mangled = mangle_method_name("Other", "run", &d.ret, &d.params);
    assert_eq!(
        decls.entries(),
        vec![format!("declare void @{}(%ref)\n", mangled), format!("declare void @{}()\n", mangled)]
    );
}

#[test]
fn invoke_static_of_other_class_declares_it() {
    let (class, index) = class_with_method_ref("Main", "Other", "add", "(II)I", &[]);
    let vtables = VTableMap::new(vec![]);
    let mut out = String::new();
    let mut decls = DeclDatabase::new(VTableMap::new(vec![]));
    let mut tmp = TmpVarIdGen::new();
    let expr = InvokeExpr {
        target: InvokeTarget::Static,
        index: ConstantIndex(index),
        args: vec![int_var(1), Op::Const(Const::Int(7))],
    };
    let r = gen_expr_invoke(
        &mut out,
        &mut decls,
        "Main",
        &vtables,
        &mut tmp,
        &expr,
        &class.constant_pool,
        Dest::Assign(DestAssign::Var(VarId(Type::Int, 3))),
    );
    assert!(r.is_ok());
    let d = int_int_to_int();
    let mangled = mangle_method_name("Other", "add", &d.ret, &d.params);
    assert_eq!(out, format!("  %v3 = call i32 @{}(i32 %v1, i32 7)\n", mangled));
    assert_eq!(decls.entries(), vec![format!("declare i32 @{}(i32, i32)\n", mangled)]);
    assert_eq!(tmp.gen(), 0);
}

#[test]
fn invoke_special_of_own_class_declares_nothing() {
    let (class, index) = class_with_method_ref("Main", "Main", "run", "()V", &[]);
    let vtables = VTableMap::new(vec![]);
    let mut out = String::new();
    let mut decls = DeclDatabase::new(VTableMap::new(vec![]));
    let mut tmp = TmpVarIdGen::new();
    let expr = InvokeExpr {
        target: InvokeTarget::Special(Op::Var(VarId(Type::Reference, 0))),
        index: ConstantIndex(index),
        args: vec![],
    };
    let r = gen_expr_invoke(&mut out, &mut decls, "Main", &vtables, &mut tmp, &expr, &class.constant_pool, Dest::Ignore);
    assert!(r.is_ok());
    let d = void_method();
    let mangled = mangle_method_name("Main", "run", &d.ret, &d.params);
    assert_eq!(out, format!("  call void @{}(%ref %v0)\n", mangled));
    assert!(decls.entries().is_empty());
}

#[test]
fn invoke_virtual_looks_up_the_slot() {
    let (class, index) = class_with_method_ref("Main", "Main", "run", "()V", &[("run", "()V")]);
    let (class_again, _) = class_with_method_ref("Main", "Main", "run", "()V", &[("run", "()V")]);
    let vtables = VTableMap::new(vec![
        ("java/lang/Object".to_string(), object_class()),
        ("Main".to_string(), class_again),
    ]);
    let slot = vtables.get("Main").expect("vtable").get("run", &void_method()).expect("slot").method_index_lower;
    let mut out = String::new();
    let mut decls = DeclDatabase::new(VTableMap::new(vec![]));
    let mut tmp = TmpVarIdGen::new();
    let expr = InvokeExpr {
        target: InvokeTarget::Virtual(Op::Var(VarId(Type::Reference, 2))),
        index: ConstantIndex(index),
        args: vec![],
    };
    let r = gen_expr_invoke(&mut out, &mut decls, "Main", &vtables, &mut tmp, &expr, &class.constant_pool, Dest::Ignore);
    assert!(r.is_ok());
    assert_eq!(
        out,
        format!(
            "  %t0 = call i8* @_Jrt_object_vtable_lookup(%ref %v2, i64 {})\n\
             \x20 %t1 = bitcast i8* %t0 to void (%ref)*\n\
             \x20 call void %t1(%ref %v2)\n",
            slot
        )
    );
    assert!(decls.entries().is_empty());
}

#[test]
fn invoke_virtual_on_unknown_class_fails_before_writing() {
    let (class, index) = class_with_method_ref("Main", "Gone", "run", "()V", &[]);
    let vtables = VTableMap::new(vec![]);
    let mut out = String::new();
    let mut decls = DeclDatabase::new(VTableMap::new(vec![]));
    let mut tmp = TmpVarIdGen::new();
    let expr = InvokeExpr {
        target: InvokeTarget::Virtual(Op::Var(VarId(Type::Reference, 2))),
        index: ConstantIndex(index),
        args: vec![],
    };
    let r = gen_expr_invoke(&mut out, &mut decls, "Main", &vtables, &mut tmp, &expr, &class.constant_pool, Dest::Ignore);
    assert!(r.is_err());
    assert_eq!(out, "");
}

fn main_and_object() -> Vec<(String, ClassFile)> {
    vec![
        ("java/lang/Object".to_string(), object_class()),
        ("Main".to_string(), class_with_method_ref("Main", "Main", "run", "()V", &[("run", "()V")]).0),
    ]
}

#[test]
fn vtable_const_lists_slots_and_declares_inherited_functions() {
    let vtables = VTableMap::new(main_and_object());
    let mut decls = DeclDatabase::new(VTableMap::new(main_and_object()));
    let (class, _) = class_with_method_ref("Main", "Main", "run", "()V", &[("run", "()V")]);
    let mut out = String::new();
    gen_vtable_const(&mut out, &mut decls, &vtables, &class).expect("table");
    let table = vtables.get("Main").expect("vtable");
    let mut expected = format!(
        "@vtable.Main = constant %vtable.Main {{\n  i32 {}, ; <number of methods>\n",
        table.method_count()
    );
    let mut declared = vec![];
    for i in 0..table.method_count() {
        let (key, target) = table.method(i);
        let symbol = mangle_method_name(&target.class_name, &key.method_name, &key.method_descriptor.ret, &key.method_descriptor.params);
        expected.push_str(&format!("  {} * @{},\n", GenFunctionType(&key.method_descriptor).to_string(), symbol));
        if target.class_name != "Main" {
            declared.push(format!("declare {} @{}(%ref)\n", if key.method_name == "hashCode" { "i32" } else { "void" }, symbol));
        }
    }
    expected.push_str("  i32 0 ; <number of interfaces>\n}\n");
    assert_eq!(out, expected);
    assert!(out.contains("@_ZN4Main3run"));
    let entries = decls.entries();
    assert!(entries[0].starts_with("%vtable.Main = type {\n  i32, ; <number of methods>\n"));
    assert!(entries[0].ends_with("  i32 ; <number of interfaces>\n}\n"));
    assert_eq!(entries[1..].to_vec(), declared);
}

#[test]
fn vtable_const_of_unknown_class_fails_before_writing() {
    let vtables = VTableMap::new(vec![]);
    let mut decls = DeclDatabase::new(VTableMap::new(vec![]));
    let (class, _) = class_with_method_ref("Main", "Main", "run", "()V", &[("run", "()V")]);
    let mut out = String::new();
    assert!(gen_vtable_const(&mut out, &mut decls, &vtables, &class).is_err());
    assert_eq!(out, "");
    assert!(decls.entries().is_empty());
}

#[test]
fn vtable_type_and_table_are_declared_once() {
    let mut decls = DeclDatabase::new(VTableMap::new(main_and_object()));
    let first = decls.add_vtable_const("Main").expect("table");
    let second = decls.add_vtable_const("Main").expect("table");
    assert_eq!(first.to_string(), "@vtable.Main");
    assert_eq!(second.to_string(), "@vtable.Main");
    let entries = decls.entries();
    assert_eq!(entries.len(), 2);
    assert!(entries[0].starts_with("%vtable.Main = type {"));
    assert_eq!(entries[1], "@vtable.Main = external constant %vtable.Main\n");
}

#[test]
fn compare_int_widens_the_flag() {
    let mut out = String::new();
    let mut tmp = TmpVarIdGen::new();
    gen_expr_compare_int(&mut out, &mut tmp, &IComparator::Lt, &int_var(1), &Op::Const(Const::Int(5)), Dest::Assign(DestAssign::Var(VarId(Type::Int, 4))));
    assert_eq!(out, "  %t0 = icmp slt i32 %v1, 5\n  %v4 = zext i1 %t0 to i32\n");
    let mut ignored = String::new();
    gen_expr_compare_int(&mut ignored, &mut tmp, &IComparator::Ge, &int_var(1), &int_var(2), Dest::Ignore);
    assert_eq!(ignored, "");
    assert_eq!(tmp.gen(), 1);
}

#[test]
fn compare_addr_compares_object_pointers() {
    let mut out = String::new();
    let mut tmp = TmpVarIdGen::new();
    let a = Op::Var(VarId(Type::Reference, 1));
    let b = Op::Var(VarId(Type::Reference, 2));
    gen_expr_compare_addr(&mut out, &mut tmp, &AComparator::Ne, &a, &b, Dest::Assign(DestAssign::Var(VarId(Type::Int, 3))));
    assert_eq!(
        out,
        "  %t0 = extractvalue %ref %v1, 0\n  %t1 = extractvalue %ref %v2, 0\n  %t2 = icmp ne i8* %t0, %t1\n  %v3 = zext i1 %t2 to i32\n"
    );
}

#[test]
fn compare_long_subtracts_the_flags() {
    let mut out = String::new();
    let mut tmp = TmpVarIdGen::new();
    let a = Op::Var(VarId(Type::Long, 1));
    let b = Op::Const(Const::Long(7));
    gen_expr_compare_long(&mut out, &mut tmp, &a, &b, Dest::Assign(DestAssign::Var(VarId(Type::Int, 9))));
    assert_eq!(
        out,
        "  %t0 = icmp slt i64 %v1, 7\n  %t1 = zext i1 %t0 to i32\n  %t2 = icmp sgt i64 %v1, 7\n  %t3 = zext i1 %t2 to i32\n  %v9 = sub i32 %t3, %t1\n"
    );
    let mut ignored = String::new();
    gen_expr_compare_long(&mut ignored, &mut tmp, &a, &b, Dest::Ignore);
    assert_eq!(
        ignored,
        "  %t4 = icmp slt i64 %v1, 7\n  %t5 = zext i1 %t4 to i32\n  %t6 = icmp sgt i64 %v1, 7\n  %t7 = zext i1 %t6 to i32\n"
    );
}

#[test]
fn binary_operations_and_masked_shifts() {
    let mut out = String::new();
    let mut tmp = TmpVarIdGen::new();
    let add = BinaryExpr { operation: BinaryOperation::Add, result_type: Type::Int, operand_left: int_var(1), operand_right: Op::Const(Const::Int(2)) };
    gen_expr_binary(&mut out, &mut tmp, &add, Dest::Assign(DestAssign::Var(VarId(Type::Int, 3))));
    assert_eq!(out, "  %v3 = add i32 %v1, 2\n");
    let mut shifted = String::new();
    let shl = BinaryExpr { operation: BinaryOperation::ShiftRightArithmetic, result_type: Type::Long, operand_left: Op::Var(VarId(Type::Long, 4)), operand_right: int_var(5) };
    gen_expr_binary(&mut shifted, &mut tmp, &shl, Dest::Assign(DestAssign::Var(VarId(Type::Long, 6))));
    assert_eq!(shifted, "  %t0 = and i32 %v5, 31\n  %v6 = ashr i64 %v4, %t0\n");
    let mut ignored = String::new();
    gen_expr_binary(&mut ignored, &mut tmp, &shl, Dest::Ignore);
    assert_eq!(ignored, "");
    assert_eq!(tmp.gen(), 1);
}

#[test]
fn narrowings_truncate_and_extend() {
    let mut out = String::new();
    let mut tmp = TmpVarIdGen::new();
    let to_byte = ConvertExpr { operation: ConvertOperation::IntToByte, operand: int_var(1) };
    gen_expr_convert(&mut out, &mut tmp, &to_byte, Dest::Assign(DestAssign::Var(VarId(Type::Int, 2))));
    assert_eq!(out, "  %t0 = trunc i32 %v1 to i8\n  %v2 = sext i8 %t0 to i32\n");
    let mut chars = String::new();
    let to_char = ConvertExpr { operation: ConvertOperation::IntToChar, operand: int_var(1) };
    gen_expr_convert(&mut chars, &mut tmp, &to_char, Dest::Assign(DestAssign::Tmp(7)));
    assert_eq!(chars, "  %t1 = trunc i32 %v1 to i8\n  %t7 = zext i8 %t1 to i32\n");
    let mut shorts = String::new();
    let to_short = ConvertExpr { operation: ConvertOperation::IntToShort, operand: int_var(1) };
    gen_expr_convert(&mut shorts, &mut tmp, &to_short, Dest::Assign(DestAssign::Tmp(8)));
    assert_eq!(shorts, "  %t2 = trunc i32 %v1 to i16\n  %t8 = sext i16 %t2 to i32\n");
}

#[test]
fn monitors_are_entered_and_left() {
    let mut out = String::new();
    let obj = Op::Var(VarId(Type::Reference, 1));
    gen_expr_monitor(&mut out, &obj, &MonitorStateTransition::Enter);
    gen_expr_monitor(&mut out, &obj, &MonitorStateTransition::Exit);
    assert_eq!(
        out,
        "  call void @_Jrt_object_monitorenter(%ref %v1)\n  call void @_Jrt_object_monitorexit(%ref %v1)\n"
    );
}

#[test]
fn array_length_and_loads() {
    let arr = Op::Var(VarId(Type::Reference, 1));
    let mut out = String::new();
    gen_expr_array_length(&mut out, &arr, Dest::Assign(DestAssign::Var(VarId(Type::Int, 2))));
    assert_eq!(out, "  %v2 = call i32 @_Jrt_array_length(%ref %v1)\n");
    let mut ints = String::new();
    let mut tmp = TmpVarIdGen::new();
    gen_expr_array_load(&mut ints, &mut tmp, &Type::Int, &arr, &int_var(2), Dest::Assign(DestAssign::Var(VarId(Type::Int, 3))));
    assert_eq!(
        ints,
        "  %t1 = call i8* @_Jrt_array_element_ptr(%ref %v1)\n  %t2 = bitcast i8* %t1 to i32*\n  %t0 = getelementptr i32, i32* %t2, i32 %v2\n  %v3 = load i32, i32* %t0\n"
    );
    let mut bytes = String::new();
    let mut tmp = TmpVarIdGen::new();
    gen_expr_array_load(&mut bytes, &mut tmp, &Type::Byte, &arr, &int_var(2), Dest::Assign(DestAssign::Var(VarId(Type::Int, 3))));
    assert_eq!(
        bytes,
        "  %t1 = call i8* @_Jrt_array_element_ptr(%ref %v1)\n  %t2 = bitcast i8* %t1 to i8*\n  %t0 = getelementptr i8, i8* %t2, i32 %v2\n  %t3 = load i8, i8* %t0\n   %v3 = sext i8 %t3 to i32\n"
    );
    let mut chars = String::new();
    gen_expr_array_load(&mut chars, &mut tmp, &Type::Char, &arr, &int_var(2), Dest::Assign(DestAssign::Var(VarId(Type::Int, 3))));
    assert!(chars.ends_with("  %t7 = load i8, i8* %t4\n   %v3 = zext i8 %t7 to i32\n"));
}

#[test]
fn array_stores_narrow_small_values() {
    let arr = Op::Var(VarId(Type::Reference, 1));
    let mut out = String::new();
    let mut tmp = TmpVarIdGen::new();
    gen_expr_array_store(&mut out, &mut tmp, &Type::Char, &arr, &int_var(2), &int_var(4));
    assert_eq!(
        out,
        "  %t1 = call i8* @_Jrt_array_element_ptr(%ref %v1)\n  %t2 = bitcast i8* %t1 to i8*\n  %t0 = getelementptr i8, i8* %t2, i32 %v2\n   %t3 = trunc i32 %v4 to i8\n  store i8 %t3, i8* %t0\n"
    );
    let mut longs = String::new();
    let mut tmp = TmpVarIdGen::new();
    gen_expr_array_store(&mut longs, &mut tmp, &Type::Long, &arr, &int_var(2), &Op::Var(VarId(Type::Long, 5)));
    assert_eq!(
        longs,
        "  %t1 = call i8* @_Jrt_array_element_ptr(%ref %v1)\n  %t2 = bitcast i8* %t1 to i64*\n  %t0 = getelementptr i64, i64* %t2, i32 %v2\n  store i64 %v5, i64* %t0\n"
    );
    assert_eq!(tmp.gen(), 3);
}

#[test]
fn new_arrays_are_sized_by_component() {
    let mut out = String::new();
    gen_expr_array_new(&mut out, &Type::Short, &int_var(1), Dest::Assign(DestAssign::Var(VarId(Type::Reference, 2))));
    assert_eq!(
        out,
        "  %v2 = call %ref @_Jrt_array_new(i32 %v1, i64 ptrtoint (i16* getelementptr (i16, i16* null, i64 1) to i64))\n"
    );
    let mut ignored = String::new();
    gen_expr_array_new(&mut ignored, &Type::Int, &int_var(1), Dest::Ignore);
    assert_eq!(ignored, "");
}
