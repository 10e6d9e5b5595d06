//! Virtual method tables. The table of a class lists the slots of its instance
//! methods: those of its superclass first, then the tables of the interfaces it
//! implements, then its own methods that no earlier slot holds. Each method
//! signature points to the class whose implementation is called through it.
use crate::classfile::class_file::{
    ClassFile, SpecClassFile, spec_class_name, class_name_resolves, spec_is_interface,
    spec_is_static, super_name, super_resolves,
};
use crate::classfile::constant_pool::{spec_get_class, spec_get_utf8};
use crate::classfile::descriptors::{MethodDescriptor, SpecMethodDescriptor};
use crate::compiler::classes::{
    ClassLookupError, find_class, loaded_classes, loaded_names, names_array,
};
use crate::lookup::{first_index, lemma_first_index, lemma_first_index_at};
use crate::text::str_eq;
use vstd::prelude::*;
use vstd::string::StrSliceExecFns;

verus! {

/// A method signature: name and descriptor.
#[derive(Debug)]
pub struct MethodDispatchKey {
    pub method_name: String,
    pub method_descriptor: MethodDescriptor,
}

/// Where calls through a signature go: the implementing class, and the first and
/// the last slot that the signature holds in the table.
#[derive(Debug)]
pub struct MethodDispatchTarget {
    pub class_name: String,
    pub method_index_upper: usize,
    pub method_index_lower: usize,
}

/// The mathematical value of a dispatch target.
pub struct SpecDispatchTarget {
    pub class_name: Seq<char>,
    pub method_index_upper: usize,
    pub method_index_lower: usize,
}

impl View for MethodDispatchKey {
    type V = (Seq<char>, SpecMethodDescriptor);

    open spec fn view(&self) -> (Seq<char>, SpecMethodDescriptor) {
        (self.method_name@, self.method_descriptor@)
    }
}

impl View for MethodDispatchTarget {
    type V = SpecDispatchTarget;

    open spec fn view(&self) -> SpecDispatchTarget {
        SpecDispatchTarget {
            class_name: self.class_name@,
            method_index_upper: self.method_index_upper,
            method_index_lower: self.method_index_lower,
        }
    }
}

/// The mathematical value of a table: the signatures, in the order they were
/// first met, with their targets; the slots, each the position of a signature;
/// and the implemented interfaces with the slot where each one's table starts.
pub struct SpecVTable {
    pub keys: Seq<(Seq<char>, SpecMethodDescriptor)>,
    pub targets: Seq<SpecDispatchTarget>,
    pub methods: Seq<usize>,
    pub interface_names: Seq<Seq<char>>,
    pub interface_offsets: Seq<usize>,
}

/// The table with no slots.
pub open spec fn empty_table() -> SpecVTable {
    SpecVTable {
        keys: seq![],
        targets: seq![],
        methods: seq![],
        interface_names: seq![],
        interface_offsets: seq![],
    }
}

/// The parts of a table agree: one target per signature, one offset per
/// interface, every slot names a signature, and no signature or interface is
/// listed twice.
pub open spec fn table_wf(t: SpecVTable) -> bool {
    &&& t.targets.len() == t.keys.len()
    &&& t.interface_offsets.len() == t.interface_names.len()
    &&& forall|i: int| 0 <= i < t.methods.len() ==> #[trigger] t.methods[i] < t.keys.len()
    &&& forall|i: int, j: int|
        0 <= i < j < t.keys.len() ==> #[trigger] t.keys[i] != #[trigger] t.keys[j]
    &&& forall|i: int, j: int|
        0 <= i < j < t.interface_names.len() ==> #[trigger] t.interface_names[i]
            != #[trigger] t.interface_names[j]
}

/// Where a signature goes when a class with the given name declares it: a new
/// signature takes a new slot; a known one takes a new slot too when its last slot
/// lies before `offset` (in a table that this one extends), and a class that is
/// no interface takes over its implementation.
pub open spec fn add_method(
    t: SpecVTable,
    key: (Seq<char>, SpecMethodDescriptor),
    class_name: Seq<char>,
    in_interface: bool,
    offset: usize,
) -> SpecVTable {
    let idx = t.methods.len() as usize;
    let p = first_index(t.keys, key);
    if p < 0 {
        SpecVTable {
            keys: t.keys.push(key),
            targets: t.targets.push(
                SpecDispatchTarget {
                    class_name,
                    method_index_upper: idx,
                    method_index_lower: idx,
                },
            ),
            methods: t.methods.push(t.keys.len() as usize),
            interface_names: t.interface_names,
            interface_offsets: t.interface_offsets,
        }
    } else {
        let old_target = t.targets[p];
        let new_slot = old_target.method_index_upper < offset;
        SpecVTable {
            keys: t.keys,
            targets: t.targets.update(
                p,
                SpecDispatchTarget {
                    class_name: if in_interface {
                        old_target.class_name
                    } else {
                        class_name
                    },
                    method_index_upper: if new_slot {
                        idx
                    } else {
                        old_target.method_index_upper
                    },
                    method_index_lower: old_target.method_index_lower,
                },
            ),
            methods: if new_slot {
                t.methods.push(p as usize)
            } else {
                t.methods
            },
            interface_names: t.interface_names,
            interface_offsets: t.interface_offsets,
        }
    }
}

/// Records that the table of interface `name` starts at `offset`.
pub open spec fn insert_interface(t: SpecVTable, name: Seq<char>, offset: usize) -> SpecVTable {
    let q = first_index(t.interface_names, name);
    SpecVTable {
        keys: t.keys,
        targets: t.targets,
        methods: t.methods,
        interface_names: if q >= 0 {
            t.interface_names
        } else {
            t.interface_names.push(name)
        },
        interface_offsets: if q >= 0 {
            t.interface_offsets.update(q, offset)
        } else {
            t.interface_offsets.push(offset)
        },
    }
}

/// The name of a method of a class, through its constant pool.
pub open spec fn method_name(c: SpecClassFile, k: int) -> Seq<char> {
    spec_get_utf8(c.constant_pool, c.methods[k].name_index)->0
}

/// The `j`-th interface of a class names a class entry that names a string.
pub open spec fn interface_resolves(c: SpecClassFile, j: int) -> bool {
    &&& spec_get_class(c.constant_pool, c.interfaces[j]) is Some
    &&& spec_get_utf8(
        c.constant_pool,
        spec_get_class(c.constant_pool, c.interfaces[j])->0.name_index,
    ) is Some
}

/// The name of the `j`-th interface of a class.
pub open spec fn interface_name(c: SpecClassFile, j: int) -> Seq<char> {
    spec_get_utf8(c.constant_pool, spec_get_class(c.constant_pool, c.interfaces[j])->0.name_index)->0
}

/// Adds the instance methods of `c` from the `k`-th on, skipping static methods
/// and instance initializers; `None` when a name that is needed cannot be read.
pub open spec fn methods_from(c: SpecClassFile, t: SpecVTable, offset: usize, k: nat) -> Option<
    SpecVTable,
>
    decreases c.methods.len() - k,
{
    if k >= c.methods.len() {
        Some(t)
    } else {
        let m = c.methods[k as int];
        if spec_is_static(m) {
            methods_from(c, t, offset, k + 1)
        } else if spec_get_utf8(c.constant_pool, m.name_index) is None {
            None
        } else if method_name(c, k as int) == "<init>"@ {
            methods_from(c, t, offset, k + 1)
        } else if !class_name_resolves(c) {
            None
        } else {
            let key = (method_name(c, k as int), m.descriptor);
            methods_from(
                c,
                add_method(t, key, spec_class_name(c), spec_is_interface(c), offset),
                offset,
                k + 1,
            )
        }
    }
}

/// Builds the table of the class loaded as `name` into `t`, where the slots of
/// the table being extended start at `offset`: the superclass's table first
/// (unless the class is an interface), then the table of each interface that no
/// superclass already implements, then the class's own methods.
/// `fuel` bounds how deep superclasses and interfaces are followed; `None` when
/// it runs out or a name that is needed cannot be read.
pub open spec fn class_table(
    cs: Seq<(Seq<char>, SpecClassFile)>,
    name: Seq<char>,
    t: SpecVTable,
    offset: usize,
    fuel: nat,
) -> Option<Result<SpecVTable, ClassLookupError>>
    decreases fuel, 1nat, 0nat,
{
    let ci = first_index(loaded_names(cs), name);
    if names_array(name) {
        Some(Err(ClassLookupError::ArrayClass))
    } else if ci < 0 {
        Some(Err(ClassLookupError::ClassNotFound))
    } else if fuel == 0 {
        None
    } else {
        let c = cs[ci].1;
        let after_super = if !spec_is_interface(c) && c.super_class is Some {
            if !super_resolves(c) {
                None
            } else {
                class_table(cs, super_name(c), t, offset, (fuel - 1) as nat)
            }
        } else {
            Some(Ok(t))
        };
        match after_super {
            Some(Ok(t1)) => finish_class(c, interfaces_from(cs, ci, t1, offset, fuel, 0), offset),
            other => other,
        }
    }
}

/// After the interfaces, the class's own methods.
pub open spec fn finish_class(
    c: SpecClassFile,
    after_interfaces: Option<Result<SpecVTable, ClassLookupError>>,
    offset: usize,
) -> Option<Result<SpecVTable, ClassLookupError>> {
    match after_interfaces {
        Some(Ok(t2)) => match methods_from(c, t2, offset, 0) {
            Some(t3) => Some(Ok(t3)),
            None => None,
        },
        other => other,
    }
}

/// Adds the tables of the interfaces of the class `cs[ci]` from the `j`-th on: an
/// interface whose table already starts at or after `offset` is skipped, any
/// other gets its table appended and its new start recorded.
pub open spec fn interfaces_from(
    cs: Seq<(Seq<char>, SpecClassFile)>,
    ci: int,
    t: SpecVTable,
    offset: usize,
    fuel: nat,
    j: nat,
) -> Option<Result<SpecVTable, ClassLookupError>>
    decreases fuel, 0nat, (if 0 <= ci < cs.len() {
        cs[ci].1.interfaces.len()
    } else {
        0
    }) - j,
{
    if !(0 <= ci < cs.len()) || fuel == 0 {
        None
    } else {
        let c = cs[ci].1;
        if j >= c.interfaces.len() {
            Some(Ok(t))
        } else if !interface_resolves(c, j as int) {
            None
        } else {
            let iname = interface_name(c, j as int);
            let q = first_index(t.interface_names, iname);
            if q >= 0 && t.interface_offsets[q] >= offset {
                interfaces_from(cs, ci, t, offset, fuel, j + 1)
            } else {
                let ioff = t.methods.len() as usize;
                match class_table(cs, iname, t, ioff, (fuel - 1) as nat) {
                    Some(Ok(t2)) => interfaces_from(
                        cs,
                        ci,
                        insert_interface(t2, iname, ioff),
                        offset,
                        fuel,
                        j + 1,
                    ),
                    other => other,
                }
            }
        }
    }
}

/// The table of the class loaded as `name`, followed as deep as there are classes.
pub open spec fn vtable_outcome(cs: Seq<(Seq<char>, SpecClassFile)>, name: Seq<char>) -> Option<
    Result<SpecVTable, ClassLookupError>,
> {
    class_table(cs, name, empty_table(), 0, cs.len())
}

/// `b` extends `a`: the signatures and slots of `a` begin those of `b`, and each
/// signature of `a` keeps its first slot.
pub open spec fn extends(a: SpecVTable, b: SpecVTable) -> bool {
    &&& a.keys.len() <= b.keys.len()
    &&& a.methods.len() <= b.methods.len()
    &&& forall|i: int| 0 <= i < a.keys.len() ==> #[trigger] b.keys[i] == a.keys[i]
    &&& forall|i: int| 0 <= i < a.methods.len() ==> #[trigger] b.methods[i] == a.methods[i]
    &&& forall|i: int|
        0 <= i < a.keys.len() ==> (#[trigger] b.targets[i]).method_index_lower
            == a.targets[i].method_index_lower
}

proof fn lemma_add_method_extends(
    t: SpecVTable,
    key: (Seq<char>, SpecMethodDescriptor),
    class_name: Seq<char>,
    in_interface: bool,
    offset: usize,
)
    requires
        table_wf(t),
    ensures
        table_wf(add_method(t, key, class_name, in_interface, offset)),
        extends(t, add_method(t, key, class_name, in_interface, offset)),
{
    lemma_first_index(t.keys, key);
    let r = add_method(t, key, class_name, in_interface, offset);
    if first_index(t.keys, key) < 0 {
        assert forall|i: int, j: int| 0 <= i < j < r.keys.len() implies #[trigger] r.keys[i]
            != #[trigger] r.keys[j] by {
            if j < t.keys.len() {
                assert(t.keys[i] != t.keys[j]);
            } else {
                assert(t.keys[i] != key);
            }
        }
        assert forall|i: int| 0 <= i < r.methods.len() implies #[trigger] r.methods[i]
            < r.keys.len() by {
            if i < t.methods.len() {
                assert(t.methods[i] < t.keys.len());
            }
        }
    } else {
        assert forall|i: int| 0 <= i < r.methods.len() implies #[trigger] r.methods[i]
            < r.keys.len() by {
            if i < t.methods.len() {
                assert(t.methods[i] < t.keys.len());
            }
        }
    }
}

proof fn lemma_insert_interface_extends(t: SpecVTable, name: Seq<char>, offset: usize)
    requires
        table_wf(t),
    ensures
        table_wf(insert_interface(t, name, offset)),
        extends(t, insert_interface(t, name, offset)),
{
    lemma_first_index(t.interface_names, name);
    let r = insert_interface(t, name, offset);
    assert forall|i: int, j: int| 0 <= i < j < r.interface_names.len() implies #[trigger] r.interface_names[i]
        != #[trigger] r.interface_names[j] by {
        if j < t.interface_names.len() {
            assert(t.interface_names[i] != t.interface_names[j]);
        } else {
            assert(t.interface_names[i] != name);
        }
    }
}

proof fn lemma_methods_from_extends(c: SpecClassFile, t: SpecVTable, offset: usize, k: nat)
    requires
        table_wf(t),
    ensures
        methods_from(c, t, offset, k) matches Some(r) ==> table_wf(r) && extends(t, r),
    decreases c.methods.len() - k,
{
    if k < c.methods.len() {
        let m = c.methods[k as int];
        if spec_is_static(m) || spec_get_utf8(c.constant_pool, m.name_index) is None
            || method_name(c, k as int) == "<init>"@ || !class_name_resolves(c) {
            lemma_methods_from_extends(c, t, offset, k + 1);
        } else {
            let key = (method_name(c, k as int), m.descriptor);
            let t1 = add_method(t, key, spec_class_name(c), spec_is_interface(c), offset);
            lemma_add_method_extends(t, key, spec_class_name(c), spec_is_interface(c), offset);
            lemma_methods_from_extends(c, t1, offset, k + 1);
        }
    }
}

proof fn lemma_class_table_extends(
    cs: Seq<(Seq<char>, SpecClassFile)>,
    name: Seq<char>,
    t: SpecVTable,
    offset: usize,
    fuel: nat,
)
    requires
        table_wf(t),
    ensures
        class_table(cs, name, t, offset, fuel) matches Some(Ok(r)) ==> table_wf(r) && extends(t, r),
    decreases fuel, 1nat, 0nat,
{
    let ci = first_index(loaded_names(cs), name);
    if !names_array(name) && ci >= 0 && fuel > 0 {
        let c = cs[ci].1;
        let mut t1 = t;
        if !spec_is_interface(c) && c.super_class is Some && super_resolves(c) {
            lemma_class_table_extends(cs, super_name(c), t, offset, (fuel - 1) as nat);
            if let Some(Ok(r)) = class_table(cs, super_name(c), t, offset, (fuel - 1) as nat) {
                t1 = r;
            }
        }
        if table_wf(t1) {
            lemma_interfaces_from_extends(cs, ci, t1, offset, fuel, 0);
            if let Some(Ok(t2)) = interfaces_from(cs, ci, t1, offset, fuel, 0) {
                lemma_methods_from_extends(c, t2, offset, 0);
            }
        }
    }
}

proof fn lemma_interfaces_from_extends(
    cs: Seq<(Seq<char>, SpecClassFile)>,
    ci: int,
    t: SpecVTable,
    offset: usize,
    fuel: nat,
    j: nat,
)
    requires
        table_wf(t),
    ensures
        interfaces_from(cs, ci, t, offset, fuel, j) matches Some(Ok(r)) ==> table_wf(r) && extends(
            t,
            r,
        ),
    decreases fuel, 0nat, (if 0 <= ci < cs.len() {
        cs[ci].1.interfaces.len()
    } else {
        0
    }) - j,
{
    if 0 <= ci < cs.len() && fuel > 0 {
        let c = cs[ci].1;
        if j < c.interfaces.len() && interface_resolves(c, j as int) {
            let iname = interface_name(c, j as int);
            let q = first_index(t.interface_names, iname);
            if q >= 0 && t.interface_offsets[q] >= offset {
                lemma_interfaces_from_extends(cs, ci, t, offset, fuel, j + 1);
            } else {
                let ioff = t.methods.len() as usize;
                lemma_class_table_extends(cs, iname, t, ioff, (fuel - 1) as nat);
                if let Some(Ok(t2)) = class_table(cs, iname, t, ioff, (fuel - 1) as nat) {
                    lemma_insert_interface_extends(t2, iname, ioff);
                    lemma_interfaces_from_extends(
                        cs,
                        ci,
                        insert_interface(t2, iname, ioff),
                        offset,
                        fuel,
                        j + 1,
                    );
                }
            }
        }
    }
}

/// More fuel does not change an outcome that the fuel was enough for.
proof fn lemma_class_table_fuel(
    cs: Seq<(Seq<char>, SpecClassFile)>,
    name: Seq<char>,
    t: SpecVTable,
    offset: usize,
    fuel: nat,
)
    requires
        class_table(cs, name, t, offset, fuel) is Some,
    ensures
        class_table(cs, name, t, offset, fuel + 1) == class_table(cs, name, t, offset, fuel),
    decreases fuel, 1nat, 0nat,
{
    let ci = first_index(loaded_names(cs), name);
    if !names_array(name) && ci >= 0 && fuel > 0 {
        let c = cs[ci].1;
        if !spec_is_interface(c) && c.super_class is Some && super_resolves(c) {
            lemma_class_table_fuel(cs, super_name(c), t, offset, (fuel - 1) as nat);
            if let Some(Ok(t1)) = class_table(cs, super_name(c), t, offset, (fuel - 1) as nat) {
                lemma_interfaces_from_fuel(cs, ci, t1, offset, fuel, 0);
            }
        } else if !(!spec_is_interface(c) && c.super_class is Some) {
            lemma_interfaces_from_fuel(cs, ci, t, offset, fuel, 0);
        }
    }
}

proof fn lemma_interfaces_from_fuel(
    cs: Seq<(Seq<char>, SpecClassFile)>,
    ci: int,
    t: SpecVTable,
    offset: usize,
    fuel: nat,
    j: nat,
)
    ensures
        interfaces_from(cs, ci, t, offset, fuel, j) is Some ==> interfaces_from(
            cs,
            ci,
            t,
            offset,
            fuel + 1,
            j,
        ) == interfaces_from(cs, ci, t, offset, fuel, j),
    decreases fuel, 0nat, (if 0 <= ci < cs.len() {
        cs[ci].1.interfaces.len()
    } else {
        0
    }) - j,
{
    if 0 <= ci < cs.len() && fuel > 0 {
        let c = cs[ci].1;
        if j < c.interfaces.len() && interface_resolves(c, j as int) {
            let iname = interface_name(c, j as int);
            let q = first_index(t.interface_names, iname);
            if q >= 0 && t.interface_offsets[q] >= offset {
                lemma_interfaces_from_fuel(cs, ci, t, offset, fuel, j + 1);
            } else {
                let ioff = t.methods.len() as usize;
                if class_table(cs, iname, t, ioff, (fuel - 1) as nat) is Some {
                    lemma_class_table_fuel(cs, iname, t, ioff, (fuel - 1) as nat);
                    if let Some(Ok(t2)) = class_table(cs, iname, t, ioff, (fuel - 1) as nat) {
                        lemma_interfaces_from_fuel(
                            cs,
                            ci,
                            insert_interface(t2, iname, ioff),
                            offset,
                            fuel,
                            j + 1,
                        );
                    }
                }
            }
        }
    }
}

/// The table of a class that is no interface begins with the table of its
/// superclass: the superclass's signatures and slots come first, in the same
/// order, and each of its signatures keeps its first slot, whether the class
/// overrides it or not.
pub proof fn law_superclass_table_is_prefix(cs: Seq<(Seq<char>, SpecClassFile)>, name: Seq<char>)
    requires
        vtable_outcome(cs, name) matches Some(Ok(_)),
        first_index(loaded_names(cs), name) >= 0,
        !spec_is_interface(cs[first_index(loaded_names(cs), name)].1),
        cs[first_index(loaded_names(cs), name)].1.super_class is Some,
    ensures
        ({
            let c = cs[first_index(loaded_names(cs), name)].1;
            &&& vtable_outcome(cs, super_name(c)) matches Some(Ok(ts))
            &&& vtable_outcome(cs, name) matches Some(Ok(tc))
            &&& table_wf(ts)
            &&& extends(ts, tc)
        }),
{
    let ci = first_index(loaded_names(cs), name);
    let c = cs[ci].1;
    let fuel = cs.len();
    assert(table_wf(empty_table()));
    assert(super_resolves(c));
    let inner = class_table(cs, super_name(c), empty_table(), 0, (fuel - 1) as nat);
    assert(inner matches Some(Ok(_)));
    lemma_class_table_fuel(cs, super_name(c), empty_table(), 0, (fuel - 1) as nat);
    assert(vtable_outcome(cs, super_name(c)) == inner);
    let ts = inner->0->Ok_0;
    lemma_class_table_extends(cs, super_name(c), empty_table(), 0, (fuel - 1) as nat);
    lemma_interfaces_from_extends(cs, ci, ts, 0, fuel, 0);
    if let Some(Ok(t2)) = interfaces_from(cs, ci, ts, 0, fuel, 0) {
        lemma_methods_from_extends(c, t2, 0, 0);
    }
}

/// Whether the table dispatches the signature `key` to the class `class_name`.
pub open spec fn dispatches_to(t: SpecVTable, key: (Seq<char>, SpecMethodDescriptor), class_name: Seq<char>) -> bool {
    let p = first_index(t.keys, key);
    p >= 0 && t.targets[p].class_name == class_name
}

/// Whether the `k`-th method of `c` is one that its table dispatches: not
/// static, named, no instance initializer.
pub open spec fn dispatched_method(c: SpecClassFile, k: int) -> bool {
    &&& 0 <= k < c.methods.len()
    &&& !spec_is_static(c.methods[k])
    &&& spec_get_utf8(c.constant_pool, c.methods[k].name_index) is Some
    &&& method_name(c, k) != "<init>"@
}

/// A signature found in a sequence is found at the same place after a push.
proof fn lemma_first_index_push<T>(s: Seq<T>, x: T, y: T)
    ensures
        first_index(s, y) >= 0 ==> first_index(s.push(x), y) == first_index(s, y),
        first_index(s, y) < 0 && x == y ==> first_index(s.push(x), y) == s.len(),
{
    assert(s.push(x).drop_last() =~= s);
}

/// Adding a signature keeps a target for each signature.
proof fn lemma_add_method_lens(t: SpecVTable, key: (Seq<char>, SpecMethodDescriptor), class_name: Seq<char>, offset: usize)
    requires
        t.targets.len() == t.keys.len(),
    ensures
        add_method(t, key, class_name, false, offset).targets.len() == add_method(t, key, class_name, false, offset).keys.len(),
{
    let p = first_index(t.keys, key);
    lemma_first_index(t.keys, key);
    if p >= 0 {
        let n = add_method(t, key, class_name, false, offset);
        assert(n.keys == t.keys);
        assert(n.targets.len() == t.targets.len());
    }
}

/// Adding a signature for the class `class_name`, outside an interface,
/// dispatches it to that class and keeps every other dispatch to it.
proof fn lemma_add_method_dispatch(
    t: SpecVTable,
    key: (Seq<char>, SpecMethodDescriptor),
    key2: (Seq<char>, SpecMethodDescriptor),
    class_name: Seq<char>,
    offset: usize,
)
    requires
        t.targets.len() == t.keys.len(),
        dispatches_to(t, key2, class_name) || key2 == key,
    ensures
        dispatches_to(add_method(t, key, class_name, false, offset), key2, class_name),
{
    lemma_first_index(t.keys, key);
    lemma_first_index(t.keys, key2);
    lemma_first_index_push(t.keys, key, key2);
    let p = first_index(t.keys, key);
    let n = add_method(t, key, class_name, false, offset);
    if p < 0 {
        if key2 == key {
            assert(n.targets[t.keys.len() as int].class_name == class_name);
        } else {
            assert(n.targets[first_index(t.keys, key2)] == t.targets[first_index(t.keys, key2)]);
        }
    } else {
        let q = first_index(t.keys, key2);
        if key2 != key {
            assert(q != p);
        }
    }
}

/// The methods of `c` from the `k`-th on keep dispatching to `c` every
/// signature that dispatched to it.
proof fn lemma_methods_from_keep(
    c: SpecClassFile,
    t: SpecVTable,
    offset: usize,
    k: nat,
    key2: (Seq<char>, SpecMethodDescriptor),
)
    requires
        t.targets.len() == t.keys.len(),
        !spec_is_interface(c),
        class_name_resolves(c),
        dispatches_to(t, key2, spec_class_name(c)),
    ensures
        methods_from(c, t, offset, k) matches Some(r) ==> dispatches_to(r, key2, spec_class_name(c)),
    decreases c.methods.len() - k,
{
    if k < c.methods.len() {
        let m = c.methods[k as int];
        if spec_is_static(m) || spec_get_utf8(c.constant_pool, m.name_index) is None
            || method_name(c, k as int) == "<init>"@ {
            lemma_methods_from_keep(c, t, offset, k + 1, key2);
        } else {
            let key = (method_name(c, k as int), m.descriptor);
            let t1 = add_method(t, key, spec_class_name(c), false, offset);
            lemma_add_method_dispatch(t, key, key2, spec_class_name(c), offset);
            lemma_add_method_lens(t, key, spec_class_name(c), offset);
            lemma_methods_from_keep(c, t1, offset, k + 1, key2);
        }
    }
}

/// Reading the methods of a class that has one to dispatch needs the
/// class's own name.
proof fn lemma_methods_from_resolves(c: SpecClassFile, t: SpecVTable, offset: usize, k: nat, j: int)
    requires
        k <= j,
        dispatched_method(c, j),
        methods_from(c, t, offset, k) is Some,
    ensures
        class_name_resolves(c),
    decreases c.methods.len() - k,
{
    if k < j {
        let m = c.methods[k as int];
        if spec_is_static(m) || spec_get_utf8(c.constant_pool, m.name_index) is None
            || method_name(c, k as int) == "<init>"@ {
            lemma_methods_from_resolves(c, t, offset, k + 1, j);
        } else if class_name_resolves(c) {
        } else {
        }
    }
}

/// Every method of `c` from the `k`-th on that the table dispatches ends up
/// dispatched to `c`.
proof fn lemma_methods_from_own(c: SpecClassFile, t: SpecVTable, offset: usize, k: nat, j: int)
    requires
        t.targets.len() == t.keys.len(),
        !spec_is_interface(c),
        class_name_resolves(c),
        k <= j,
        dispatched_method(c, j),
    ensures
        methods_from(c, t, offset, k) matches Some(r) ==> dispatches_to(
            r,
            (method_name(c, j), c.methods[j].descriptor),
            spec_class_name(c),
        ),
    decreases c.methods.len() - k,
{
    if k < c.methods.len() {
        let m = c.methods[k as int];
        if spec_is_static(m) || spec_get_utf8(c.constant_pool, m.name_index) is None
            || method_name(c, k as int) == "<init>"@ {
            lemma_methods_from_own(c, t, offset, k + 1, j);
        } else {
            let key = (method_name(c, k as int), m.descriptor);
            let t1 = add_method(t, key, spec_class_name(c), false, offset);
            lemma_first_index(t.keys, key);
            if k == j {
                lemma_add_method_dispatch(t, key, key, spec_class_name(c), offset);
                lemma_methods_from_keep(c, t1, offset, k + 1, key);
            } else {
                lemma_methods_from_own(c, t1, offset, k + 1, j);
            }
        }
    }
}

/// A class that is no interface implements its own methods: each of its
/// methods that is not static and no instance initializer is dispatched,
/// in its table, to the class itself, whether it overrides a superclass's
/// method or not.
pub proof fn law_own_methods_dispatch_to_class(cs: Seq<(Seq<char>, SpecClassFile)>, name: Seq<char>, j: int)
    requires
        vtable_outcome(cs, name) matches Some(Ok(_)),
        first_index(loaded_names(cs), name) >= 0,
        !spec_is_interface(cs[first_index(loaded_names(cs), name)].1),
        dispatched_method(cs[first_index(loaded_names(cs), name)].1, j),
    ensures
        ({
            let c = cs[first_index(loaded_names(cs), name)].1;
            vtable_outcome(cs, name) matches Some(Ok(tc)) && dispatches_to(
                tc,
                (method_name(c, j), c.methods[j].descriptor),
                spec_class_name(c),
            )
        }),
{
    let ci = first_index(loaded_names(cs), name);
    let c = cs[ci].1;
    let fuel = cs.len();
    assert(table_wf(empty_table()));
    let after_super = if !spec_is_interface(c) && c.super_class is Some {
        class_table(cs, super_name(c), empty_table(), 0, (fuel - 1) as nat)
    } else {
        Some(Ok(empty_table()))
    };
    if c.super_class is Some {
        lemma_class_table_extends(cs, super_name(c), empty_table(), 0, (fuel - 1) as nat);
    }
    let t1 = after_super->0->Ok_0;
    lemma_interfaces_from_extends(cs, ci, t1, 0, fuel, 0);
    let t2 = interfaces_from(cs, ci, t1, 0, fuel, 0)->0->Ok_0;
    lemma_methods_from_resolves(c, t2, 0, 0, j);
    lemma_methods_from_own(c, t2, 0, 0, j);
}

/// Whether no signature of the table is an instance initializer.
pub open spec fn no_initializer_keys(t: SpecVTable) -> bool {
    forall|i: int| 0 <= i < t.keys.len() ==> #[trigger] t.keys[i].0 != "<init>"@
}

proof fn lemma_methods_from_no_init(c: SpecClassFile, t: SpecVTable, offset: usize, k: nat)
    requires
        no_initializer_keys(t),
    ensures
        methods_from(c, t, offset, k) matches Some(r) ==> no_initializer_keys(r),
    decreases c.methods.len() - k,
{
    if k < c.methods.len() {
        let m = c.methods[k as int];
        if spec_is_static(m) || spec_get_utf8(c.constant_pool, m.name_index) is None
            || method_name(c, k as int) == "<init>"@ || !class_name_resolves(c) {
            lemma_methods_from_no_init(c, t, offset, k + 1);
        } else {
            let key = (method_name(c, k as int), m.descriptor);
            let t1 = add_method(t, key, spec_class_name(c), spec_is_interface(c), offset);
            assert(no_initializer_keys(t1)) by {
                if first_index(t.keys, key) < 0 {
                    assert forall|i: int| 0 <= i < t1.keys.len() implies #[trigger] t1.keys[i].0 != "<init>"@ by {
                        if i < t.keys.len() {
                            assert(t1.keys[i] == t.keys[i]);
                        }
                    }
                }
            }
            lemma_methods_from_no_init(c, t1, offset, k + 1);
        }
    }
}

proof fn lemma_class_table_no_init(
    cs: Seq<(Seq<char>, SpecClassFile)>,
    name: Seq<char>,
    t: SpecVTable,
    offset: usize,
    fuel: nat,
)
    requires
        no_initializer_keys(t),
    ensures
        class_table(cs, name, t, offset, fuel) matches Some(Ok(r)) ==> no_initializer_keys(r),
    decreases fuel, 1nat, 0nat,
{
    let ci = first_index(loaded_names(cs), name);
    if !names_array(name) && ci >= 0 && fuel > 0 {
        let c = cs[ci].1;
        let mut t1 = t;
        if !spec_is_interface(c) && c.super_class is Some && super_resolves(c) {
            lemma_class_table_no_init(cs, super_name(c), t, offset, (fuel - 1) as nat);
            if let Some(Ok(r)) = class_table(cs, super_name(c), t, offset, (fuel - 1) as nat) {
                t1 = r;
            }
        }
        if no_initializer_keys(t1) {
            lemma_interfaces_from_no_init(cs, ci, t1, offset, fuel, 0);
            if let Some(Ok(t2)) = interfaces_from(cs, ci, t1, offset, fuel, 0) {
                lemma_methods_from_no_init(c, t2, offset, 0);
            }
        }
    }
}

proof fn lemma_interfaces_from_no_init(
    cs: Seq<(Seq<char>, SpecClassFile)>,
    ci: int,
    t: SpecVTable,
    offset: usize,
    fuel: nat,
    j: nat,
)
    requires
        no_initializer_keys(t),
    ensures
        interfaces_from(cs, ci, t, offset, fuel, j) matches Some(Ok(r)) ==> no_initializer_keys(r),
    decreases fuel, 0nat, (if 0 <= ci < cs.len() {
        cs[ci].1.interfaces.len()
    } else {
        0
    }) - j,
{
    if 0 <= ci < cs.len() && fuel > 0 {
        let c = cs[ci].1;
        if j < c.interfaces.len() && interface_resolves(c, j as int) {
            let iname = interface_name(c, j as int);
            let q = first_index(t.interface_names, iname);
            if q >= 0 && t.interface_offsets[q] >= offset {
                lemma_interfaces_from_no_init(cs, ci, t, offset, fuel, j + 1);
            } else {
                let ioff = t.methods.len() as usize;
                lemma_class_table_no_init(cs, iname, t, ioff, (fuel - 1) as nat);
                if let Some(Ok(t2)) = class_table(cs, iname, t, ioff, (fuel - 1) as nat) {
                    lemma_interfaces_from_no_init(cs, ci, insert_interface(t2, iname, ioff), offset, fuel, j + 1);
                }
            }
        }
    }
}

/// No instance initializer is ever a signature of a table: `<init>`
/// methods are called directly and never dispatched.
pub proof fn law_no_initializer_is_dispatched(cs: Seq<(Seq<char>, SpecClassFile)>, name: Seq<char>)
    requires
        vtable_outcome(cs, name) matches Some(Ok(_)),
    ensures
        vtable_outcome(cs, name) matches Some(Ok(t)) && no_initializer_keys(t),
{
    lemma_class_table_no_init(cs, name, empty_table(), 0, cs.len());
}

/// A virtual method table.
#[derive(Debug)]
pub struct VTable {
    keys: Vec<MethodDispatchKey>,
    targets: Vec<MethodDispatchTarget>,
    methods: Vec<usize>,
    interface_names: Vec<String>,
    interface_offsets: Vec<usize>,
}

impl View for VTable {
    type V = SpecVTable;

    closed spec fn view(&self) -> SpecVTable {
        SpecVTable {
            keys: self.keys@.map_values(|k: MethodDispatchKey| k@),
            targets: self.targets@.map_values(|t: MethodDispatchTarget| t@),
            methods: self.methods@,
            interface_names: self.interface_names@.map_values(|n: String| n@),
            interface_offsets: self.interface_offsets@,
        }
    }
}

impl VTable {
    fn new() -> (t: VTable)
        ensures
            t@ == empty_table(),
    {
        let t = VTable {
            keys: Vec::new(),
            targets: Vec::new(),
            methods: Vec::new(),
            interface_names: Vec::new(),
            interface_offsets: Vec::new(),
        };
        assert(t@.keys =~= seq![]);
        assert(t@.targets =~= seq![]);
        assert(t@.interface_names =~= seq![]);
        t
    }

    /// The number of slots.
    pub fn method_count(&self) -> (r: usize)
        ensures
            r == self@.methods.len(),
    {
        self.methods.len()
    }

    /// The number of implemented interfaces.
    pub fn interface_count(&self) -> (r: usize)
        requires
            table_wf(self@),
        ensures
            r == self@.interface_names.len(),
    {
        self.interface_names.len()
    }

    /// The signature in slot `i` and its target.
    pub fn method(&self, i: usize) -> (r: (&MethodDispatchKey, &MethodDispatchTarget))
        requires
            table_wf(self@),
            i < self@.methods.len(),
        ensures
            r.0@ == self@.keys[self@.methods[i as int] as int],
            r.1@ == self@.targets[self@.methods[i as int] as int],
    {
        let p = self.methods[i];
        assert(p < self@.keys.len());
        (&self.keys[p], &self.targets[p])
    }

    /// The `i`-th implemented interface and the slot where its table starts.
    pub fn interface(&self, i: usize) -> (r: (&str, usize))
        requires
            table_wf(self@),
            i < self@.interface_names.len(),
        ensures
            r.0@ == self@.interface_names[i as int],
            r.1 == self@.interface_offsets[i as int],
    {
        (self.interface_names[i].as_str(), self.interface_offsets[i])
    }

    /// The position of a signature, if the table has it.
    fn find_key(&self, method_name: &str, method_descriptor: &MethodDescriptor) -> (r: Option<usize>)
        ensures
            r is None <==> first_index(self@.keys, (method_name@, method_descriptor@)) < 0,
            r matches Some(p) ==> p == first_index(self@.keys, (method_name@, method_descriptor@)),
    {
        let ghost key = (method_name@, method_descriptor@);
        let ghost ks = self@.keys;
        proof {
            lemma_first_index(ks, key);
        }
        let mut i: usize = 0;
        while i < self.keys.len()
            invariant
                i <= self.keys@.len(),
                ks == self@.keys,
                key == (method_name@, method_descriptor@),
                forall|j: int| 0 <= j < i ==> ks[j] != key,
            decreases self.keys@.len() - i,
        {
            let k = &self.keys[i];
            assert(ks[i as int] == k@);
            let same_name = str_eq(k.method_name.as_str(), method_name);
            let same_descriptor = k.method_descriptor.same_as(method_descriptor);
            if same_name && same_descriptor {
                assert(k@ == key);
                proof {
                    lemma_first_index_at(ks, key, i as int);
                }
                return Some(i);
            }
            i = i + 1;
        }
        None
    }

    /// The position of an interface, if the table implements it.
    fn find_interface(&self, name: &str) -> (r: Option<usize>)
        ensures
            r is None <==> first_index(self@.interface_names, name@) < 0,
            r matches Some(q) ==> q == first_index(self@.interface_names, name@),
    {
        let ghost ns = self@.interface_names;
        proof {
            lemma_first_index(ns, name@);
        }
        let mut i: usize = 0;
        while i < self.interface_names.len()
            invariant
                i <= self.interface_names@.len(),
                ns == self@.interface_names,
                forall|j: int| 0 <= j < i ==> ns[j] != name@,
            decreases self.interface_names@.len() - i,
        {
            assert(ns[i as int] == self.interface_names@[i as int]@);
            if str_eq(self.interface_names[i].as_str(), name) {
                proof {
                    lemma_first_index_at(ns, name@, i as int);
                }
                return Some(i);
            }
            i = i + 1;
        }
        None
    }

    /// The target of a signature, if the table has it.
    pub fn get(&self, method_name: &str, method_descriptor: &MethodDescriptor) -> (r: Option<
        &MethodDispatchTarget,
    >)
        requires
            table_wf(self@),
        ensures
            ({
                let p = first_index(self@.keys, (method_name@, method_descriptor@));
                &&& r is None <==> p < 0
                &&& r matches Some(x) ==> x@ == self@.targets[p]
            }),
    {
        match self.find_key(method_name, method_descriptor) {
            Some(p) => {
                proof {
                    lemma_first_index(self@.keys, (method_name@, method_descriptor@));
                }
                Some(&self.targets[p])
            },
            None => None,
        }
    }

    /// Adds a signature that the class `class_name` declares (see `add_method`).
    fn add_method(
        &mut self,
        method_name: &str,
        method_descriptor: &MethodDescriptor,
        class_name: &str,
        in_interface: bool,
        offset: usize,
    )
        requires
            table_wf(old(self)@),
        ensures
            table_wf(final(self)@),
            final(self)@ == add_method(
                old(self)@,
                (method_name@, method_descriptor@),
                class_name@,
                in_interface,
                offset,
            ),
    {
        let ghost t = self@;
        let ghost key = (method_name@, method_descriptor@);
        proof {
            lemma_first_index(t.keys, key);
        }
        let idx = self.methods.len();
        match self.find_key(method_name, method_descriptor) {
            None => {
                let n = self.keys.len();
                self.methods.push(n);
                self.keys.push(
                    MethodDispatchKey {
                        method_name: method_name.to_owned(),
                        method_descriptor: method_descriptor.duplicate(),
                    },
                );
                self.targets.push(
                    MethodDispatchTarget {
                        class_name: class_name.to_owned(),
                        method_index_upper: idx,
                        method_index_lower: idx,
                    },
                );
                let ghost want = add_method(t, key, class_name@, in_interface, offset);
                assert(self@.keys =~= want.keys);
                assert(self@.targets =~= want.targets);
                assert(self@.methods =~= want.methods);
                assert(self@.interface_names =~= want.interface_names);
                assert forall|i: int, j: int|
                    0 <= i < j < self@.keys.len() implies #[trigger] self@.keys[i]
                    != #[trigger] self@.keys[j] by {
                    if j < t.keys.len() {
                        assert(t.keys[i] != t.keys[j]);
                    } else {
                        assert(t.keys[i] != key);
                    }
                }
            },
            Some(p) => {
                let old_target = &self.targets[p];
                let new_slot = old_target.method_index_upper < offset;
                let target = MethodDispatchTarget {
                    class_name: if in_interface {
                        old_target.class_name.clone()
                    } else {
                        class_name.to_owned()
                    },
                    method_index_upper: if new_slot {
                        idx
                    } else {
                        old_target.method_index_upper
                    },
                    method_index_lower: old_target.method_index_lower,
                };
                self.targets.set(p, target);
                if new_slot {
                    self.methods.push(p);
                }
                let ghost want = add_method(t, key, class_name@, in_interface, offset);
                assert(self@.keys =~= want.keys);
                assert(self@.targets =~= want.targets);
                assert(self@.methods =~= want.methods);
                assert(self@.interface_names =~= want.interface_names);
            },
        }
    }

    /// Records where the table of an interface starts (see `insert_interface`).
    fn insert_interface(&mut self, name: &str, offset: usize)
        requires
            table_wf(old(self)@),
        ensures
            table_wf(final(self)@),
            final(self)@ == insert_interface(old(self)@, name@, offset),
    {
        let ghost t = self@;
        proof {
            lemma_first_index(t.interface_names, name@);
        }
        match self.find_interface(name) {
            Some(q) => {
                self.interface_offsets.set(q, offset);
            },
            None => {
                self.interface_names.push(name.to_owned());
                self.interface_offsets.push(offset);
                assert forall|i: int, j: int|
                    0 <= i < j < self@.interface_names.len() implies #[trigger] self@.interface_names[i]
                    != #[trigger] self@.interface_names[j] by {
                    if j < t.interface_names.len() {
                        assert(t.interface_names[i] != t.interface_names[j]);
                    } else {
                        assert(t.interface_names[i] != name@);
                    }
                }
            },
        }
        let ghost want = insert_interface(t, name@, offset);
        assert(self@.keys =~= want.keys);
        assert(self@.targets =~= want.targets);
        assert(self@.interface_names =~= want.interface_names);
        assert(self@.interface_offsets =~= want.interface_offsets);
    }
}

/// The loaded classes, each under the name it was loaded by, from which tables
/// are built.
pub struct VTableMap {
    pub classes: Vec<(String, ClassFile)>,
}

impl View for VTableMap {
    type V = Seq<(Seq<char>, SpecClassFile)>;

    open spec fn view(&self) -> Seq<(Seq<char>, SpecClassFile)> {
        loaded_classes(self.classes@)
    }
}

impl VTableMap {
    pub fn new(classes: Vec<(String, ClassFile)>) -> (m: VTableMap)
        ensures
            m.classes == classes,
    {
        VTableMap { classes }
    }

    /// Builds the table of the class loaded as `name` into `table` (see
    /// `class_table`).
    #[verifier::rlimit(40)]
    fn build_table(&self, name: &str, table: &mut VTable, method_offset: usize, fuel: usize) -> (r:
        Result<(), ClassLookupError>)
        requires
            table_wf(old(table)@),
            class_table(self@, name@, old(table)@, method_offset, fuel as nat) is Some,
        ensures
            table_wf(final(table)@),
            r is Ok ==> class_table(self@, name@, old(table)@, method_offset, fuel as nat) == Some(
                Ok::<SpecVTable, ClassLookupError>(final(table)@),
            ),
            r matches Err(e) ==> class_table(self@, name@, old(table)@, method_offset, fuel as nat)
                == Some(Err::<SpecVTable, ClassLookupError>(e)),
        decreases fuel,
    {
        let ghost cs = self@;
        let ghost t0 = table@;
        let ghost goal = class_table(cs, name@, t0, method_offset, fuel as nat);
        if !name.is_empty() && name.get_char(0) == '[' {
            return Err(ClassLookupError::ArrayClass);
        }
        let ci = match find_class(&self.classes, name) {
            Some(i) => i,
            None => {
                return Err(ClassLookupError::ClassNotFound);
            },
        };
        proof {
            lemma_first_index(loaded_names(cs), name@);
        }
        let classfile = &self.classes[ci].1;
        let ghost c = classfile@;
        assert(c == cs[ci as int].1);
        if !classfile.is_interface() {
            match classfile.get_super_class() {
                Some(super_class) => {
                    let super_name = classfile.constant_pool.get_utf8(super_class.name_index).unwrap();
                    match self.build_table(super_name, table, method_offset, fuel - 1) {
                        Ok(()) => {},
                        Err(e) => {
                            return Err(e);
                        },
                    }
                },
                None => {},
            }
        }
        assert(goal == finish_class(
            c,
            interfaces_from(cs, ci as int, table@, method_offset, fuel as nat, 0),
            method_offset,
        ));
        let mut j: usize = 0;
        while j < classfile.interfaces.len()
            invariant
                cs == self@,
                0 <= ci < cs.len(),
                fuel > 0,
                c == cs[ci as int].1,
                c == classfile@,
                j <= c.interfaces.len(),
                table_wf(table@),
                goal == class_table(self@, name@, old(table)@, method_offset, fuel as nat),
                goal is Some,
                goal == finish_class(
                    c,
                    interfaces_from(cs, ci as int, table@, method_offset, fuel as nat, j as nat),
                    method_offset,
                ),
            decreases c.interfaces.len() - j,
        {
            let ghost tj = table@;
            assert(c.interfaces[j as int] == classfile.interfaces@[j as int]);
            let iconst = classfile.constant_pool.get_class(classfile.interfaces[j]).unwrap();
            let iname = classfile.constant_pool.get_utf8(iconst.name_index).unwrap();
            assert(iname@ == interface_name(c, j as int));
            proof {
                lemma_first_index(tj.interface_names, iname@);
            }
            let skip = match table.find_interface(iname) {
                Some(q) => {
                    assert(table@.interface_offsets[q as int] == table.interface_offsets@[q as int]);
                    table.interface_offsets[q] >= method_offset
                },
                None => false,
            };
            let ghost q = first_index(tj.interface_names, iname@);
            assert(skip == (q >= 0 && tj.interface_offsets[q] >= method_offset));
            if !skip {
                let ioff = table.methods.len();
                match self.build_table(iname, table, ioff, fuel - 1) {
                    Ok(()) => {},
                    Err(e) => {
                        assert(interfaces_from(cs, ci as int, tj, method_offset, fuel as nat, j as nat)
                            == Some(Err::<SpecVTable, ClassLookupError>(e)));
                        return Err(e);
                    },
                }
                let ghost t2 = table@;
                table.insert_interface(iname, ioff);
                assert(interfaces_from(cs, ci as int, tj, method_offset, fuel as nat, j as nat)
                    == interfaces_from(
                    cs,
                    ci as int,
                    insert_interface(t2, iname@, ioff),
                    method_offset,
                    fuel as nat,
                    (j + 1) as nat,
                ));
            } else {
                assert(interfaces_from(cs, ci as int, tj, method_offset, fuel as nat, j as nat)
                    == interfaces_from(cs, ci as int, tj, method_offset, fuel as nat, (j + 1) as nat));
            }
            j = j + 1;
        }
        assert(goal == finish_class(c, Some(Ok::<SpecVTable, ClassLookupError>(table@)), method_offset));
        let mut k: usize = 0;
        while k < classfile.methods.len()
            invariant
                c == classfile@,
                k <= c.methods.len(),
                table_wf(table@),
                goal is Some,
                goal == (match methods_from(c, table@, method_offset, k as nat) {
                    Some(t3) => Some(Ok::<SpecVTable, ClassLookupError>(t3)),
                    None => None,
                }),
            decreases c.methods.len() - k,
        {
            let method = &classfile.methods[k];
            assert(c.methods[k as int] == method@);
            if !method.is_static() {
                let mname = classfile.constant_pool.get_utf8(method.name_index).unwrap();
                if !str_eq(mname, "<init>") {
                    let cname = classfile.get_name();
                    table.add_method(
                        mname,
                        &method.descriptor,
                        cname,
                        classfile.is_interface(),
                        method_offset,
                    );
                }
            }
            k = k + 1;
        }
        Ok(())
    }

    /// The table of the class loaded as `name`.
    pub fn get(&self, name: &str) -> (r: Result<VTable, ClassLookupError>)
        requires
            vtable_outcome(self@, name@) is Some,
        ensures
            r matches Ok(v) ==> vtable_outcome(self@, name@) == Some(
                Ok::<SpecVTable, ClassLookupError>(v@),
            ) && table_wf(v@),
            r matches Err(e) ==> vtable_outcome(self@, name@) == Some(
                Err::<SpecVTable, ClassLookupError>(e),
            ),
    {
        let mut table = VTable::new();
        proof {
            assert(table_wf(empty_table()));
        }
        match self.build_table(name, &mut table, 0, self.classes.len()) {
            Ok(()) => Ok(table),
            Err(e) => Err(e),
        }
    }
}

} // verus!
