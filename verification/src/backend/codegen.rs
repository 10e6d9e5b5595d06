//! LLVM IR text for the parts of a class: its method table.
use vstd::prelude::*;
use crate::backend::common::{GenFunctionType, spec_function_type};
use crate::backend::decls::{
    DeclDatabase, DeclIdentifier, SpecDeclKey, decl_added, decl_keys, decls_after, lemma_decls_after_none,
    lemma_decls_after_push, lemma_type_added, lemma_const_added, spec_decl_add, vtable_name, id_result, spec_decl_identifier,
};
use crate::backend::vtable::{SpecVTable, VTableMap, table_wf, vtable_outcome};
use crate::classfile::class_file::{ClassFile, class_name_resolves, spec_class_name, spec_is_interface};
use crate::compiler::classes::ClassLookupError;
use crate::compiler::mangle::{mangle_method_name, mangle_vtable_name, spec_mangle_method_name, param_views};
use crate::lookup::{first_index, lemma_first_index};
use crate::text::{decimal, push_decimal, str_eq};

verus! {

/// The line of the table for slot `i`: the function of the class that
/// implements the slot's method, whose symbol carries the overload hash
/// `hash`.
pub open spec fn vtable_slot_line(t: SpecVTable, i: int, hash: u64) -> Seq<char> {
    let p = t.methods[i] as int;
    let key = t.keys[p];
    "  "@ + spec_function_type(key.1) + " * @"@ + spec_mangle_method_name(
        t.targets[p].class_name,
        key.0,
        key.1.ret,
        key.1.params,
        hash,
    ) + ",\n"@
}

/// The lines of the table for the first `n` slots.
pub open spec fn vtable_slot_lines(t: SpecVTable, n: nat, hashes: Seq<u64>) -> Seq<char>
    decreases n,
{
    if n == 0 {
        Seq::empty()
    } else {
        vtable_slot_lines(t, (n - 1) as nat, hashes) + vtable_slot_line(t, n - 1, hashes[n - 1])
    }
}

/// The lines of the table for interface `j`: its table, and the slot where
/// it starts.
pub open spec fn vtable_interface_entry(t: SpecVTable, j: int) -> Seq<char> {
    let name = t.interface_names[j];
    "  i8* bitcast ("@ + spec_decl_identifier((false, vtable_name(name))) + "* "@
        + spec_decl_identifier((true, vtable_name(name))) + " to i8*),\n  i32 "@
        + decimal(t.interface_offsets[j] as nat)
        + (if j < t.interface_names.len() - 1 { ","@ } else { Seq::<char>::empty() }) + " ; #"@ + decimal(j as nat)
        + " interface "@ + name + "\n"@
}

/// The lines of the table for the first `n` interfaces.
pub open spec fn vtable_interface_entries(t: SpecVTable, n: nat) -> Seq<char>
    decreases n,
{
    if n == 0 {
        Seq::empty()
    } else {
        vtable_interface_entries(t, (n - 1) as nat) + vtable_interface_entry(t, n - 1)
    }
}

/// The method table of a class: the slot count unless the class is an
/// interface, each slot's function, the interface count, and each
/// interface's table and first slot.
pub open spec fn vtable_const_text(class_name: Seq<char>, is_interface: bool, t: SpecVTable, hashes: Seq<u64>) -> Seq<
    char,
> {
    vtable_head(class_name, is_interface, t.methods.len()) + vtable_slot_lines(t, t.methods.len(), hashes)
        + vtable_interface_count_line(t.interface_names.len()) + vtable_interface_entries(t, t.interface_names.len())
        + "}\n"@
}

/// The declarations the first `n` slots ask for: each function that
/// another class implements.
pub open spec fn vtable_slot_keys(class_name: Seq<char>, t: SpecVTable, n: nat) -> Seq<SpecDeclKey>
    decreases n,
{
    if n == 0 {
        Seq::empty()
    } else {
        let p = t.methods[n - 1] as int;
        let target = t.targets[p].class_name;
        vtable_slot_keys(class_name, t, (n - 1) as nat) + if target != class_name {
            seq![SpecDeclKey::Method(target, t.keys[p].0, t.keys[p].1, false)]
        } else {
            Seq::empty()
        }
    }
}

/// The declarations the first `n` interfaces ask for: each table's type
/// (asked for twice) and the table.
pub open spec fn vtable_interface_keys(t: SpecVTable, n: nat) -> Seq<SpecDeclKey>
    decreases n,
{
    if n == 0 {
        Seq::empty()
    } else {
        let name = t.interface_names[n - 1];
        vtable_interface_keys(t, (n - 1) as nat) + seq![
            SpecDeclKey::VTableType(name),
            SpecDeclKey::VTableType(name),
            SpecDeclKey::VTableConst(name, (false, vtable_name(name))),
        ]
    }
}

/// The declarations that writing a class's method table asks for, in order.
pub open spec fn vtable_const_keys(class_name: Seq<char>, t: SpecVTable) -> Seq<SpecDeclKey> {
    seq![SpecDeclKey::VTableType(class_name)] + vtable_slot_keys(class_name, t, t.methods.len())
        + vtable_interface_keys(t, t.interface_names.len())
}

/// Writes the method table of a class, declaring what it refers to: the
/// table's type, each function that another class implements, and the
/// tables of the interfaces. A table that cannot be built stops the
/// writing with its error.
#[verifier::spinoff_prover]
#[verifier::rlimit(100)]
pub fn gen_vtable_const(
    out: &mut String,
    decls: &mut DeclDatabase,
    vtables: &VTableMap,
    class_file: &ClassFile,
) -> (r: Result<(), ClassLookupError>)
    requires
        old(decls).wf(),
        vtables@ == old(decls).spec_vtables(),
        class_name_resolves(class_file@),
        vtable_outcome(vtables@, spec_class_name(class_file@)) is Some,
        vtable_outcome(vtables@, spec_class_name(class_file@)) matches Some(Ok(t)) ==> forall|j: int|
            0 <= j < t.interface_names.len() ==> vtable_outcome(vtables@, #[trigger] t.interface_names[j]) is Some,
    ensures
        final(decls).wf(),
        final(decls).spec_vtables() == old(decls).spec_vtables(),
        ({
            let cn = spec_class_name(class_file@);
            match vtable_outcome(vtables@, cn) {
                Some(Ok(t)) => {
                    &&& r is Ok ==> exists|hashes: Seq<u64>| {
                        &&& hashes.len() == t.methods.len()
                        &&& final(out)@ == old(out)@ + #[trigger] vtable_const_text(
                            cn,
                            spec_is_interface(class_file@),
                            t,
                            hashes,
                        )
                        &&& decls_after(vtables@, old(decls)@, vtable_const_keys(cn, t), final(decls)@)
                    }
                    &&& (forall|j: int| 0 <= j < t.interface_names.len() ==> #[trigger] vtable_outcome(
                        vtables@,
                        t.interface_names[j],
                    ) matches Some(Ok(_))) ==> r is Ok
                    &&& r matches Err(e) ==> exists|j: int| 0 <= j < t.interface_names.len()
                        && #[trigger] vtable_outcome(vtables@, t.interface_names[j]) == Some(
                        Err::<SpecVTable, ClassLookupError>(e),
                    )
                },
                Some(Err(e)) => r == Err::<(), ClassLookupError>(e) && final(out)@ == old(out)@ && final(decls)@
                    == old(decls)@,
                None => false,
            }
        }),
{
    let ghost cs = vtables@;
    let class_name = class_file.get_name();
    let vtable = match vtables.get(class_name) {
        Ok(v) => v,
        Err(e) => return Err(e),
    };
    let ghost t = vtable@;
    let ghost v0 = decls@;
    let ghost start = out@;
    proof {
        decls.lemma_named();
    }
    let vtable_type = match decls.add_vtable_type(class_name) {
        Ok(v) => v,
        Err(e) => {
            proof {
                lemma_first_index(decl_keys(v0), SpecDeclKey::VTableType(class_name@));
            }
            assert(false);
            return Err(e);
        },
    };
    proof {
        lemma_type_added(cs, v0, class_name@, decls@, Ok(vtable_type@));
        lemma_decls_after_none(cs, v0);
        lemma_decls_after_push(cs, v0, Seq::empty(), v0, SpecDeclKey::VTableType(class_name@), decls@);
        assert(seq![SpecDeclKey::VTableType(class_name@)] =~= Seq::<SpecDeclKey>::empty().push(SpecDeclKey::VTableType(class_name@)));
    }
    push_vtable_head(out, class_name, &vtable_type, class_file.is_interface(), vtable.method_count());
    let ghost head = out@;
    let ghost ks0 = seq![SpecDeclKey::VTableType(class_name@)];
    let hashes = gen_slots(out, decls, &vtable, class_name, Ghost(v0), Ghost(ks0));
    let icount = vtable.interface_count();
    push_interface_count(out, icount);
    let ghost head2 = out@;
    let ghost ks1 = ks0 + vtable_slot_keys(class_name@, t, t.methods.len());
    match gen_interface_entries(out, decls, &vtable, Ghost(v0), Ghost(ks1)) {
        Ok(()) => {},
        Err(e) => return Err(e),
    }
    out.append("}\n");
    proof {
        assert(ks1 + vtable_interface_keys(t, icount as nat) =~= vtable_const_keys(class_name@, t));
        assert(out@ =~= start + vtable_const_text(class_name@, spec_is_interface(class_file@), t, hashes@));
    }
    Ok(())
}

/// Writes the entry of interface `j` of a table, declaring the interface's
/// table and its type.
#[verifier::spinoff_prover]
#[verifier::rlimit(80)]
fn gen_interface_entry(
    out: &mut String,
    decls: &mut DeclDatabase,
    vtable: &crate::backend::vtable::VTable,
    j: usize,
) -> (r: Result<(), ClassLookupError>)
    requires
        old(decls).wf(),
        table_wf(vtable@),
        j < vtable@.interface_names.len(),
        vtable_outcome(old(decls).spec_vtables(), vtable@.interface_names[j as int]) is Some,
    ensures
        final(decls).wf(),
        final(decls).spec_vtables() == old(decls).spec_vtables(),
        ({
            let cs = old(decls).spec_vtables();
            let name = vtable@.interface_names[j as int];
            &&& r is Ok ==> final(out)@ == old(out)@ + vtable_interface_entry(vtable@, j as int)
                && exists|m1: Seq<(SpecDeclKey, (bool, Seq<char>, Seq<char>))>, m2: Seq<(SpecDeclKey, (bool, Seq<char>, Seq<char>))>| {
                &&& #[trigger] decl_added(cs, old(decls)@, SpecDeclKey::VTableType(name), m1)
                &&& #[trigger] decl_added(cs, m1, SpecDeclKey::VTableType(name), m2)
                &&& decl_added(cs, m2, SpecDeclKey::VTableConst(name, (false, vtable_name(name))), final(decls)@)
            }
            &&& vtable_outcome(cs, name) matches Some(Ok(_)) ==> r is Ok
            &&& r matches Err(e) ==> vtable_outcome(cs, name) == Some(Err::<SpecVTable, ClassLookupError>(e))
        }),
{
    let ghost cs = decls.spec_vtables();
    let (name, offset) = vtable.interface(j);
    let ghost before = decls@;
    proof {
        decls.lemma_named();
        lemma_first_index(decl_keys(before), SpecDeclKey::VTableType(name@));
    }
    let interface_vtable_type = match decls.add_vtable_type(name) {
        Ok(v) => v,
        Err(e) => return Err(e),
    };
    let ghost mid = decls@;
    proof {
        lemma_type_added(cs, before, name@, mid, Ok(interface_vtable_type@));
        decls.lemma_named();
        lemma_first_index(decl_keys(mid), SpecDeclKey::VTableType(name@));
        assert(decl_added(cs, before, SpecDeclKey::VTableType(name@), mid));
    }
    let r2 = decls.add_vtable_const(name);
    proof {
        let (m2, vt) = choose|m2: Seq<(SpecDeclKey, (bool, Seq<char>, Seq<char>))>, vt: Result<(bool, Seq<char>), ClassLookupError>| {
            &&& #[trigger] spec_decl_add(cs, mid, SpecDeclKey::VTableType(name@), m2, vt)
            &&& match vt {
                Ok(v) => spec_decl_add(cs, m2, SpecDeclKey::VTableConst(name@, v), decls@, id_result(r2)),
                Err(e2) => decls@ == m2 && id_result(r2) == Err::<(bool, Seq<char>), ClassLookupError>(e2),
            }
        };
        let p = first_index(decl_keys(mid), SpecDeclKey::VTableType(name@));
        assert(decl_keys(mid)[p] == mid[p].0);
        assert(vt == Ok::<(bool, Seq<char>), ClassLookupError>((false, vtable_name(name@))));
        assert(m2 == mid);
        lemma_const_added(cs, m2, name@, (false, vtable_name(name@)), decls@, id_result(r2));
        assert(decl_added(cs, mid, SpecDeclKey::VTableType(name@), m2));
        assert(decl_added(cs, m2, SpecDeclKey::VTableConst(name@, (false, vtable_name(name@))), decls@));
    }
    let interface_vtable_const = match r2 {
        Ok(v) => v,
        Err(e) => {
            assert(false);
            return Err(e);
        },
    };
    let ghost start = out@;
    out.append("  i8* bitcast (");
    out.append(interface_vtable_type.to_string().as_str());
    out.append("* ");
    out.append(interface_vtable_const.to_string().as_str());
    out.append(" to i8*),\n  i32 ");
    push_decimal(out, offset as u64);
    if j < vtable.interface_count() - 1 {
        out.append(",");
    }
    out.append(" ; #");
    push_decimal(out, j as u64);
    out.append(" interface ");
    out.append(name);
    out.append("\n");
    assert(out@ =~= start + vtable_interface_entry(vtable@, j as int));
    Ok(())
}

/// The first lines of a class's method table.
pub open spec fn vtable_head(class_name: Seq<char>, is_interface: bool, count: nat) -> Seq<char> {
    "@"@ + vtable_name(class_name) + " = constant "@ + spec_decl_identifier((false, vtable_name(class_name))) + " {\n"@
        + if is_interface {
        Seq::<char>::empty()
    } else {
        "  i32 "@ + decimal(count) + ", ; <number of methods>\n"@
    }
}

/// The line of a method table with its interface count.
pub open spec fn vtable_interface_count_line(n: nat) -> Seq<char> {
    "  i32 "@ + decimal(n) + (if n > 0 { ","@ } else { Seq::<char>::empty() }) + " ; <number of interfaces>\n"@
}

/// Writes the first lines of a class's method table.
fn push_vtable_head(out: &mut String, class_name: &str, vtable_type: &DeclIdentifier, is_interface: bool, count: usize)
    requires
        vtable_type@ == (false, vtable_name(class_name@)),
    ensures
        final(out)@ == old(out)@ + vtable_head(class_name@, is_interface, count as nat),
{
    let own_vtable_name = mangle_vtable_name(class_name);
    out.append("@");
    out.append(own_vtable_name.as_str());
    out.append(" = constant ");
    out.append(vtable_type.to_string().as_str());
    out.append(" {\n");
    if !is_interface {
        out.append("  i32 ");
        push_decimal(out, count as u64);
        out.append(", ; <number of methods>\n");
    }
    proof {
        reveal_strlit("vtable.");
    }
    assert(out@ =~= old(out)@ + vtable_head(class_name@, is_interface, count as nat));
}

/// Writes the line of a method table with its interface count.
fn push_interface_count(out: &mut String, n: usize)
    ensures
        final(out)@ == old(out)@ + vtable_interface_count_line(n as nat),
{
    out.append("  i32 ");
    push_decimal(out, n as u64);
    if n > 0 {
        out.append(",");
    }
    out.append(" ; <number of interfaces>\n");
    assert(out@ =~= old(out)@ + vtable_interface_count_line(n as nat));
}

/// Writes the lines of all slots of a table (see `gen_slot`): the overload
/// hashes of the functions' symbols.
fn gen_slots(
    out: &mut String,
    decls: &mut DeclDatabase,
    vtable: &crate::backend::vtable::VTable,
    class_name: &str,
    Ghost(v0): Ghost<Seq<(SpecDeclKey, (bool, Seq<char>, Seq<char>))>>,
    Ghost(ks0): Ghost<Seq<SpecDeclKey>>,
) -> (hashes: Ghost<Seq<u64>>)
    requires
        old(decls).wf(),
        table_wf(vtable@),
        decls_after(old(decls).spec_vtables(), v0, ks0, old(decls)@),
    ensures
        final(decls).wf(),
        final(decls).spec_vtables() == old(decls).spec_vtables(),
        hashes@.len() == vtable@.methods.len(),
        final(out)@ == old(out)@ + vtable_slot_lines(vtable@, vtable@.methods.len(), hashes@),
        decls_after(
            old(decls).spec_vtables(),
            v0,
            ks0 + vtable_slot_keys(class_name@, vtable@, vtable@.methods.len()),
            final(decls)@,
        ),
{
    let ghost cs = decls.spec_vtables();
    let ghost t = vtable@;
    let ghost head = out@;
    let ghost mut hashes: Seq<u64> = Seq::empty();
    let count = vtable.method_count();
    let mut i: usize = 0;
    while i < count
        invariant
            table_wf(t),
            t == vtable@,
            count == t.methods.len(),
            i <= count,
            hashes.len() == i,
            decls.wf(),
            decls.spec_vtables() == cs,
            out@ == head + vtable_slot_lines(t, i as nat, hashes),
            decls_after(cs, v0, ks0 + vtable_slot_keys(class_name@, t, i as nat), decls@),
        decreases count - i,
    {
        let ghost before = decls@;
        let ghost ks = ks0 + vtable_slot_keys(class_name@, t, i as nat);
        let hash = gen_slot(out, decls, vtable, i, class_name);
        proof {
            let p = t.methods[i as int] as int;
            let target = t.targets[p].class_name;
            if target != class_name@ {
                let k = SpecDeclKey::Method(target, t.keys[p].0, t.keys[p].1, false);
                lemma_decls_after_push(cs, v0, ks, before, k, decls@);
                assert(ks0 + vtable_slot_keys(class_name@, t, (i + 1) as nat) =~= ks.push(k));
            } else {
                assert(ks0 + vtable_slot_keys(class_name@, t, (i + 1) as nat) =~= ks);
            }
            let old_hashes = hashes;
            hashes = hashes.push(hash@);
            lemma_slot_lines_prefix(t, i as nat, old_hashes, hashes);
            assert(out@ =~= head + vtable_slot_lines(t, (i + 1) as nat, hashes));
        }
        i += 1;
    }
    Ghost(hashes)
}

/// Writes the entries of all interfaces of a table (see
/// `gen_interface_entry`), stopping at the first whose table cannot be
/// built.
fn gen_interface_entries(
    out: &mut String,
    decls: &mut DeclDatabase,
    vtable: &crate::backend::vtable::VTable,
    Ghost(v0): Ghost<Seq<(SpecDeclKey, (bool, Seq<char>, Seq<char>))>>,
    Ghost(ks1): Ghost<Seq<SpecDeclKey>>,
) -> (r: Result<(), ClassLookupError>)
    requires
        old(decls).wf(),
        table_wf(vtable@),
        decls_after(old(decls).spec_vtables(), v0, ks1, old(decls)@),
        forall|j: int| 0 <= j < vtable@.interface_names.len() ==> vtable_outcome(
            old(decls).spec_vtables(),
            #[trigger] vtable@.interface_names[j],
        ) is Some,
    ensures
        final(decls).wf(),
        final(decls).spec_vtables() == old(decls).spec_vtables(),
        ({
            let cs = old(decls).spec_vtables();
            let t = vtable@;
            &&& r is Ok ==> final(out)@ == old(out)@ + vtable_interface_entries(t, t.interface_names.len())
                && decls_after(cs, v0, ks1 + vtable_interface_keys(t, t.interface_names.len()), final(decls)@)
            &&& (forall|j: int| 0 <= j < t.interface_names.len() ==> #[trigger] vtable_outcome(cs, t.interface_names[j]) matches Some(Ok(_))) ==> r is Ok
            &&& r matches Err(e) ==> exists|j: int| 0 <= j < t.interface_names.len()
                && #[trigger] vtable_outcome(cs, t.interface_names[j]) == Some(Err::<SpecVTable, ClassLookupError>(e))
        }),
{
    let ghost cs = decls.spec_vtables();
    let ghost t = vtable@;
    let ghost head2 = out@;
    let icount = vtable.interface_count();
    let mut j: usize = 0;
    while j < icount
        invariant
            table_wf(t),
            t == vtable@,
            icount == t.interface_names.len(),
            j <= icount,
            decls.wf(),
            decls.spec_vtables() == cs,
            cs == old(decls).spec_vtables(),
            out@ == head2 + vtable_interface_entries(t, j as nat),
            decls_after(cs, v0, ks1 + vtable_interface_keys(t, j as nat), decls@),
            forall|jj: int| 0 <= jj < t.interface_names.len() ==> vtable_outcome(cs, #[trigger] t.interface_names[jj]) is Some,
        decreases icount - j,
    {
        let ghost before = decls@;
        let ghost ks = ks1 + vtable_interface_keys(t, j as nat);
        match gen_interface_entry(out, decls, vtable, j) {
            Ok(()) => {},
            Err(e) => {
                assert(vtable_outcome(cs, t.interface_names[j as int]) == Some(Err::<SpecVTable, ClassLookupError>(e)));
                return Err(e);
            },
        }
        proof {
            let name = t.interface_names[j as int];
            let (m1, m2) = choose|m1: Seq<(SpecDeclKey, (bool, Seq<char>, Seq<char>))>, m2: Seq<(SpecDeclKey, (bool, Seq<char>, Seq<char>))>| {
                &&& #[trigger] decl_added(cs, before, SpecDeclKey::VTableType(name), m1)
                &&& #[trigger] decl_added(cs, m1, SpecDeclKey::VTableType(name), m2)
                &&& decl_added(cs, m2, SpecDeclKey::VTableConst(name, (false, vtable_name(name))), decls@)
            };
            lemma_decls_after_push(cs, v0, ks, before, SpecDeclKey::VTableType(name), m1);
            lemma_decls_after_push(cs, v0, ks.push(SpecDeclKey::VTableType(name)), m1, SpecDeclKey::VTableType(name), m2);
            lemma_decls_after_push(
                cs,
                v0,
                ks.push(SpecDeclKey::VTableType(name)).push(SpecDeclKey::VTableType(name)),
                m2,
                SpecDeclKey::VTableConst(name, (false, vtable_name(name))),
                decls@,
            );
            assert(ks1 + vtable_interface_keys(t, (j + 1) as nat) =~= ks.push(SpecDeclKey::VTableType(name)).push(
                SpecDeclKey::VTableType(name),
            ).push(SpecDeclKey::VTableConst(name, (false, vtable_name(name)))));
        }
        assert(out@ =~= head2 + vtable_interface_entries(t, (j + 1) as nat));
        j += 1;
    }
    Ok(())
}

/// Writes the line of slot `i` of a table, declaring the function first
/// when a class other than `class_name` implements it: the overload hash of
/// the function's symbol.
fn gen_slot(
    out: &mut String,
    decls: &mut DeclDatabase,
    vtable: &crate::backend::vtable::VTable,
    i: usize,
    class_name: &str,
) -> (hash: Ghost<u64>)
    requires
        old(decls).wf(),
        table_wf(vtable@),
        i < vtable@.methods.len(),
    ensures
        final(decls).wf(),
        final(decls).spec_vtables() == old(decls).spec_vtables(),
        final(out)@ == old(out)@ + vtable_slot_line(vtable@, i as int, hash@),
        ({
            let t = vtable@;
            let p = t.methods[i as int] as int;
            let target = t.targets[p].class_name;
            if target != class_name@ {
                decl_added(
                    old(decls).spec_vtables(),
                    old(decls)@,
                    SpecDeclKey::Method(target, t.keys[p].0, t.keys[p].1, false),
                    final(decls)@,
                )
            } else {
                final(decls)@ == old(decls)@
            }
        }),
{
    let (key, target) = vtable.method(i);
    if !str_eq(target.class_name.as_str(), class_name) {
        let id = decls.add_instance_method(target.class_name.as_str(), key.method_name.as_str(), &key.method_descriptor);
    }
    let mangled = mangle_method_name(
        target.class_name.as_str(),
        key.method_name.as_str(),
        &key.method_descriptor.ret,
        key.method_descriptor.params.as_slice(),
    );
    let ghost hash = choose|hash: u64| mangled@ == #[trigger] spec_mangle_method_name(
        target.class_name@,
        key.method_name@,
        key.method_descriptor.ret@,
        param_views(key.method_descriptor.params@),
        hash,
    );
    assert(param_views(key.method_descriptor.params@) == key.method_descriptor@.params);
    let ghost start = out@;
    out.append("  ");
    out.append(GenFunctionType(&key.method_descriptor).to_string().as_str());
    out.append(" * @");
    out.append(mangled.as_str());
    out.append(",\n");
    assert(out@ =~= start + vtable_slot_line(vtable@, i as int, hash));
    Ghost(hash)
}

/// The slot lines depend only on the hashes of the slots they cover.
proof fn lemma_slot_lines_prefix(t: SpecVTable, n: nat, a: Seq<u64>, b: Seq<u64>)
    requires
        a.len() >= n,
        b.len() >= n,
        forall|k: int| 0 <= k < n ==> #[trigger] a[k] == b[k],
    ensures
        vtable_slot_lines(t, n, a) == vtable_slot_lines(t, n, b),
    decreases n,
{
    if n > 0 {
        lemma_slot_lines_prefix(t, (n - 1) as nat, a, b);
        assert(a[n - 1] == b[n - 1]);
    }
}

} // verus!
