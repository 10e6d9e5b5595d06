//! The declarations that a class's code refers to, each written once.
use vstd::prelude::*;
use crate::backend::common::{
    GenFunctionType, spec_function_type, spec_tlt_return_type, spec_tlt_type, tlt_return_type, tlt_type,
};
use crate::backend::vtable::{SpecVTable, VTableMap, table_wf, vtable_outcome};
use crate::classfile::class_file::{SpecClassFile, spec_is_interface};
use crate::classfile::descriptors::{MethodDescriptor, ParameterDescriptor, SpecMethodDescriptor};
use crate::compiler::classes::{ClassLookupError, find_class, loaded_names};
use crate::compiler::mangle::{mangle_method_name, mangle_vtable_name, spec_mangle, spec_mangle_method_name};
use crate::frontend::types::{Type, spec_type_of_field};
use crate::lookup::{first_index, lemma_first_index, lemma_first_index_at};
use crate::text::{decimal, push_decimal, str_eq};

verus! {

/// What a declaration is for: a method of a class, static or not; the
/// type of a class's method table; or the table itself, of that type.
#[derive(Debug)]
pub enum DeclKey {
    Method { class_name: String, method_name: String, method_descriptor: MethodDescriptor, is_static: bool },
    VTableType { class_name: String },
    VTableConst { class_name: String, vtable_type: DeclIdentifier },
}

/// The mathematical value of a key.
pub enum SpecDeclKey {
    Method(Seq<char>, Seq<char>, SpecMethodDescriptor, bool),
    VTableType(Seq<char>),
    VTableConst(Seq<char>, (bool, Seq<char>)),
}

impl View for DeclKey {
    type V = SpecDeclKey;

    open spec fn view(&self) -> SpecDeclKey {
        match self {
            DeclKey::Method { class_name, method_name, method_descriptor, is_static } => SpecDeclKey::Method(
                class_name@,
                method_name@,
                method_descriptor@,
                *is_static,
            ),
            DeclKey::VTableType { class_name } => SpecDeclKey::VTableType(class_name@),
            DeclKey::VTableConst { class_name, vtable_type } => SpecDeclKey::VTableConst(class_name@, vtable_type@),
        }
    }
}

/// A written declaration: whether its name is global, the name, and the text.
#[derive(Debug)]
pub struct DeclEntry {
    pub global: bool,
    pub identifier: String,
    pub declaration: String,
}

impl View for DeclEntry {
    type V = (bool, Seq<char>, Seq<char>);

    open spec fn view(&self) -> (bool, Seq<char>, Seq<char>) {
        (self.global, self.identifier@, self.declaration@)
    }
}

/// The name by which code refers to a declaration.
#[derive(Debug)]
pub struct DeclIdentifier {
    pub global: bool,
    pub identifier: String,
}

impl View for DeclIdentifier {
    type V = (bool, Seq<char>);

    open spec fn view(&self) -> (bool, Seq<char>) {
        (self.global, self.identifier@)
    }
}

/// A global name is written with `@`, a local one with `%`.
pub open spec fn spec_decl_identifier(id: (bool, Seq<char>)) -> Seq<char> {
    (if id.0 { "@"@ } else { "%"@ }) + id.1
}

/// Copies a string.
fn copy_string(s: &str) -> (r: String)
    ensures
        r@ == s@,
{
    let mut r = String::new();
    r.append(s);
    r
}

impl DeclIdentifier {
    pub fn to_string(&self) -> (r: String)
        ensures
            r@ == spec_decl_identifier(self@),
    {
        let mut r = if self.global {
            String::from_str("@")
        } else {
            String::from_str("%")
        };
        r.append(self.identifier.as_str());
        r
    }

    /// A copy of this identifier.
    pub fn duplicate(&self) -> (r: DeclIdentifier)
        ensures
            r@ == self@,
    {
        DeclIdentifier { global: self.global, identifier: copy_string(self.identifier.as_str()) }
    }
}

/// The texts one after the other, with `, ` between two.
pub open spec fn joined(texts: Seq<Seq<char>>) -> Seq<char>
    decreases texts.len(),
{
    if texts.len() == 0 {
        Seq::empty()
    } else if texts.len() == 1 {
        texts[0]
    } else {
        joined(texts.drop_last()) + ", "@ + texts.last()
    }
}

/// The arguments of a method as values: the receiver first, unless the
/// method is static, then the parameters.
pub open spec fn method_arg_types(d: SpecMethodDescriptor, is_static: bool) -> Seq<Type> {
    (if is_static { Seq::<Type>::empty() } else { seq![Type::Reference] })
        + d.params.map_values(|p| spec_type_of_field(p))
}

/// The declaration of the method named `id`.
pub open spec fn method_declaration(id: Seq<char>, d: SpecMethodDescriptor, is_static: bool) -> Seq<char> {
    "declare "@ + spec_tlt_return_type(d.ret) + " @"@ + id + "("@
        + joined(method_arg_types(d, is_static).map_values(|t: Type| spec_tlt_type(t))) + ")\n"@
}

/// The name of a class's method table and of its type.
pub open spec fn vtable_name(class_name: Seq<char>) -> Seq<char> {
    "vtable."@ + spec_mangle(class_name)
}

/// The line of the table type for slot `i`.
pub open spec fn vtable_method_line(t: SpecVTable, i: int) -> Seq<char> {
    let key = t.keys[t.methods[i] as int];
    "  "@ + spec_function_type(key.1) + " *, ; #"@ + decimal(i as nat) + " method "@ + key.0 + "\n"@
}

/// The lines of the table type for the first `n` slots.
pub open spec fn vtable_method_lines(t: SpecVTable, n: nat) -> Seq<char>
    decreases n,
{
    if n == 0 {
        Seq::empty()
    } else {
        vtable_method_lines(t, (n - 1) as nat) + vtable_method_line(t, n - 1)
    }
}

/// The lines of the table type for interface `i`.
pub open spec fn vtable_interface_line(t: SpecVTable, i: int) -> Seq<char> {
    "  i8*,\n  i32"@ + (if i < t.interface_names.len() - 1 { ","@ } else { Seq::<char>::empty() }) + " ; #"@ + decimal(i as nat)
        + " interface "@ + t.interface_names[i] + "\n"@
}

/// The lines of the table type for the first `n` interfaces.
pub open spec fn vtable_interface_lines(t: SpecVTable, n: nat) -> Seq<char>
    decreases n,
{
    if n == 0 {
        Seq::empty()
    } else {
        vtable_interface_lines(t, (n - 1) as nat) + vtable_interface_line(t, n - 1)
    }
}

/// The declaration of the type of a method table: the slot count unless
/// the class is an interface, a function pointer for each slot, the
/// interface count, and for each interface its table and the slot where it
/// starts.
pub open spec fn vtable_type_declaration(class_name: Seq<char>, is_interface: bool, t: SpecVTable) -> Seq<char> {
    "%"@ + vtable_name(class_name) + " = type {\n"@
        + (if is_interface { Seq::<char>::empty() } else { "  i32, ; <number of methods>\n"@ })
        + vtable_method_lines(t, t.methods.len())
        + "  i32"@ + (if t.interface_names.len() > 0 { ","@ } else { Seq::<char>::empty() }) + " ; <number of interfaces>\n"@
        + vtable_interface_lines(t, t.interface_names.len())
        + "}\n"@
}

/// Whether the class loaded as `name` declares an interface.
pub open spec fn class_is_interface(cs: Seq<(Seq<char>, SpecClassFile)>, name: Seq<char>) -> bool {
    spec_is_interface(cs[first_index(loaded_names(cs), name)].1)
}

/// The entry written for a key that is not there yet, or why it cannot be
/// written; for a method, the one whose symbol carries the overload hash
/// `hash`.
pub open spec fn new_entry(cs: Seq<(Seq<char>, SpecClassFile)>, k: SpecDeclKey, hash: u64) -> Result<
    (bool, Seq<char>, Seq<char>),
    ClassLookupError,
> {
    match k {
        SpecDeclKey::Method(c, m, d, st) => {
            let id = spec_mangle_method_name(c, m, d.ret, d.params, hash);
            Ok((true, id, method_declaration(id, d, st)))
        },
        SpecDeclKey::VTableType(c) => match vtable_outcome(cs, c) {
            Some(Ok(t)) => Ok((false, vtable_name(c), vtable_type_declaration(c, class_is_interface(cs, c), t))),
            Some(Err(e)) => Err(e),
            None => Err(ClassLookupError::ClassNotFound),
        },
        SpecDeclKey::VTableConst(c, vt) => Ok((
            true,
            vtable_name(c),
            "@"@ + vtable_name(c) + " = external constant "@ + spec_decl_identifier(vt) + "\n"@,
        )),
    }
}

/// The keys of the entries.
pub open spec fn decl_keys(v: Seq<(SpecDeclKey, (bool, Seq<char>, Seq<char>))>) -> Seq<SpecDeclKey> {
    v.map_values(|e: (SpecDeclKey, (bool, Seq<char>, Seq<char>))| e.0)
}

/// Adding key `k` to the entries `old_v` gives `new_v` and the result `r`:
/// the entry's name, unchanged entries when `k` is there already; otherwise
/// the new entry written last, or the entries unchanged and the error when
/// it cannot be written.
pub open spec fn spec_decl_add(
    cs: Seq<(Seq<char>, SpecClassFile)>,
    old_v: Seq<(SpecDeclKey, (bool, Seq<char>, Seq<char>))>,
    k: SpecDeclKey,
    new_v: Seq<(SpecDeclKey, (bool, Seq<char>, Seq<char>))>,
    r: Result<(bool, Seq<char>), ClassLookupError>,
) -> bool {
    let p = first_index(decl_keys(old_v), k);
    if p >= 0 {
        new_v == old_v && r == Ok::<(bool, Seq<char>), ClassLookupError>((old_v[p].1.0, old_v[p].1.1))
    } else {
        exists|hash: u64| match #[trigger] new_entry(cs, k, hash) {
            Ok(e) => new_v == old_v.push((k, e)) && r == Ok::<(bool, Seq<char>), ClassLookupError>((e.0, e.1)),
            Err(err) => new_v == old_v && r == Err::<(bool, Seq<char>), ClassLookupError>(err),
        }
    }
}

/// Tables and their types are named after their class.
pub open spec fn entries_named_by_key(v: Seq<(SpecDeclKey, (bool, Seq<char>, Seq<char>))>) -> bool {
    forall|i: int| 0 <= i < v.len() ==> match #[trigger] v[i].0 {
        SpecDeclKey::VTableType(c) => !v[i].1.0 && v[i].1.1 == vtable_name(c),
        SpecDeclKey::VTableConst(c, _) => v[i].1.0 && v[i].1.1 == vtable_name(c),
        SpecDeclKey::Method(_, _, _, _) => true,
    }
}

/// The states that adding the keys `ks` one after the other to `v` goes
/// through, ending in `w`.
pub open spec fn decls_path(
    cs: Seq<(Seq<char>, SpecClassFile)>,
    v: Seq<(SpecDeclKey, (bool, Seq<char>, Seq<char>))>,
    ks: Seq<SpecDeclKey>,
    w: Seq<(SpecDeclKey, (bool, Seq<char>, Seq<char>))>,
    states: Seq<Seq<(SpecDeclKey, (bool, Seq<char>, Seq<char>))>>,
) -> bool {
    &&& states.len() == ks.len() + 1
    &&& states[0] == v
    &&& states.last() == w
    &&& forall|i: int| 0 <= i < ks.len() ==> #[trigger] decl_added(cs, states[i], ks[i], states[i + 1])
}

/// Adding the keys `ks` one after the other to `v` gives `w`.
pub open spec fn decls_after(
    cs: Seq<(Seq<char>, SpecClassFile)>,
    v: Seq<(SpecDeclKey, (bool, Seq<char>, Seq<char>))>,
    ks: Seq<SpecDeclKey>,
    w: Seq<(SpecDeclKey, (bool, Seq<char>, Seq<char>))>,
) -> bool {
    exists|states: Seq<Seq<(SpecDeclKey, (bool, Seq<char>, Seq<char>))>>| #[trigger] decls_path(cs, v, ks, w, states)
}

/// Adding no keys changes nothing.
pub proof fn lemma_decls_after_none(
    cs: Seq<(Seq<char>, SpecClassFile)>,
    v: Seq<(SpecDeclKey, (bool, Seq<char>, Seq<char>))>,
)
    ensures
        decls_after(cs, v, Seq::empty(), v),
{
    assert(decls_path(cs, v, Seq::empty(), v, seq![v]));
}

/// Adding one more key extends a run of additions.
pub proof fn lemma_decls_after_push(
    cs: Seq<(Seq<char>, SpecClassFile)>,
    v: Seq<(SpecDeclKey, (bool, Seq<char>, Seq<char>))>,
    ks: Seq<SpecDeclKey>,
    w: Seq<(SpecDeclKey, (bool, Seq<char>, Seq<char>))>,
    k: SpecDeclKey,
    w2: Seq<(SpecDeclKey, (bool, Seq<char>, Seq<char>))>,
)
    requires
        decls_after(cs, v, ks, w),
        decl_added(cs, w, k, w2),
    ensures
        decls_after(cs, v, ks.push(k), w2),
{
    let states = choose|states: Seq<Seq<(SpecDeclKey, (bool, Seq<char>, Seq<char>))>>| #[trigger] decls_path(cs, v, ks, w, states);
    let s2 = states.push(w2);
    let k2 = ks.push(k);
    assert forall|i: int| 0 <= i < k2.len() implies #[trigger] decl_added(cs, s2[i], k2[i], s2[i + 1]) by {
        if i < ks.len() {
            assert(s2[i] == states[i] && s2[i + 1] == states[i + 1] && k2[i] == ks[i]);
        } else {
            assert(s2[i] == w && s2[i + 1] == w2 && k2[i] == k);
        }
    }
    assert(decls_path(cs, v, k2, w2, s2));
}

/// After adding a table type, it is there, under the table's name.
pub proof fn lemma_type_added(
    cs: Seq<(Seq<char>, SpecClassFile)>,
    v: Seq<(SpecDeclKey, (bool, Seq<char>, Seq<char>))>,
    c: Seq<char>,
    w: Seq<(SpecDeclKey, (bool, Seq<char>, Seq<char>))>,
    r: Result<(bool, Seq<char>), ClassLookupError>,
)
    requires
        entries_named_by_key(v),
        spec_decl_add(cs, v, SpecDeclKey::VTableType(c), w, r),
        r is Ok,
    ensures
        r == Ok::<(bool, Seq<char>), ClassLookupError>((false, vtable_name(c))),
        first_index(decl_keys(w), SpecDeclKey::VTableType(c)) >= 0,
{
    let k = SpecDeclKey::VTableType(c);
    lemma_first_index(decl_keys(v), k);
    lemma_first_index(decl_keys(w), k);
    let p = first_index(decl_keys(v), k);
    if p >= 0 {
        assert(decl_keys(v)[p] == v[p].0);
    } else {
        let hash = choose|hash: u64| match #[trigger] new_entry(cs, k, hash) {
            Ok(e) => w == v.push((k, e)) && r == Ok::<(bool, Seq<char>), ClassLookupError>((e.0, e.1)),
            Err(err) => w == v && r == Err::<(bool, Seq<char>), ClassLookupError>(err),
        };
        assert(decl_keys(w)[v.len() as int] == k);
    }
}

/// Adding a table gives its name, whether it was there or not.
pub proof fn lemma_const_added(
    cs: Seq<(Seq<char>, SpecClassFile)>,
    v: Seq<(SpecDeclKey, (bool, Seq<char>, Seq<char>))>,
    c: Seq<char>,
    vt: (bool, Seq<char>),
    w: Seq<(SpecDeclKey, (bool, Seq<char>, Seq<char>))>,
    r: Result<(bool, Seq<char>), ClassLookupError>,
)
    requires
        entries_named_by_key(v),
        spec_decl_add(cs, v, SpecDeclKey::VTableConst(c, vt), w, r),
    ensures
        r == Ok::<(bool, Seq<char>), ClassLookupError>((true, vtable_name(c))),
{
    let k = SpecDeclKey::VTableConst(c, vt);
    lemma_first_index(decl_keys(v), k);
    let p = first_index(decl_keys(v), k);
    if p >= 0 {
        assert(decl_keys(v)[p] == v[p].0);
    } else {
        let hash = choose|hash: u64| match #[trigger] new_entry(cs, k, hash) {
            Ok(e) => w == v.push((k, e)) && r == Ok::<(bool, Seq<char>), ClassLookupError>((e.0, e.1)),
            Err(err) => w == v && r == Err::<(bool, Seq<char>), ClassLookupError>(err),
        };
    }
}

/// The identifier in a result, by value.
pub open spec fn id_result(r: Result<DeclIdentifier, ClassLookupError>) -> Result<(bool, Seq<char>), ClassLookupError> {
    match r {
        Ok(id) => Ok(id@),
        Err(e) => Err(e),
    }
}

/// The declarations of a class's code, each key once, in the order they
/// were first asked for; method tables are looked up in `vtables`.
pub struct DeclDatabase {
    vtables: VTableMap,
    keys: Vec<DeclKey>,
    entries: Vec<DeclEntry>,
}

impl View for DeclDatabase {
    type V = Seq<(SpecDeclKey, (bool, Seq<char>, Seq<char>))>;

    closed spec fn view(&self) -> Seq<(SpecDeclKey, (bool, Seq<char>, Seq<char>))> {
        Seq::new(self.keys@.len(), |i: int| (self.keys@[i]@, self.entries@[i]@))
    }
}

/// Adding key `k` to the entries `old_v` gives `new_v`, whatever it returns.
pub open spec fn decl_added(
    cs: Seq<(Seq<char>, SpecClassFile)>,
    old_v: Seq<(SpecDeclKey, (bool, Seq<char>, Seq<char>))>,
    k: SpecDeclKey,
    new_v: Seq<(SpecDeclKey, (bool, Seq<char>, Seq<char>))>,
) -> bool {
    exists|r: Result<(bool, Seq<char>), ClassLookupError>| #[trigger] spec_decl_add(cs, old_v, k, new_v, r)
}

/// Whether two keys are the same.
fn same_key(a: &DeclKey, b: &DeclKey) -> (r: bool)
    ensures
        r == (a@ == b@),
{
    match (a, b) {
        (
            DeclKey::Method { class_name: c1, method_name: m1, method_descriptor: d1, is_static: s1 },
            DeclKey::Method { class_name: c2, method_name: m2, method_descriptor: d2, is_static: s2 },
        ) => str_eq(c1.as_str(), c2.as_str()) && str_eq(m1.as_str(), m2.as_str()) && d1.same_as(d2) && *s1 == *s2,
        (DeclKey::VTableType { class_name: c1 }, DeclKey::VTableType { class_name: c2 }) => str_eq(
            c1.as_str(),
            c2.as_str(),
        ),
        (
            DeclKey::VTableConst { class_name: c1, vtable_type: v1 },
            DeclKey::VTableConst { class_name: c2, vtable_type: v2 },
        ) => str_eq(c1.as_str(), c2.as_str()) && v1.global == v2.global && str_eq(
            v1.identifier.as_str(),
            v2.identifier.as_str(),
        ),
        _ => false,
    }
}

impl DeclDatabase {
    /// Keys and entries pair up, and no key is there twice.
    pub closed spec fn wf(&self) -> bool {
        &&& self.keys@.len() == self.entries@.len()
        &&& forall|i: int, j: int| 0 <= i < j < self.keys@.len() ==> #[trigger] self.keys@[i]@ != #[trigger] self.keys@[j]@
        &&& entries_named_by_key(self@)
    }

    /// Tables and their types are named after their class.
    pub proof fn lemma_named(&self)
        requires
            self.wf(),
        ensures
            entries_named_by_key(self@),
    {
    }

    /// The classes whose method tables the declarations describe.
    pub closed spec fn spec_vtables(&self) -> Seq<(Seq<char>, SpecClassFile)> {
        self.vtables@
    }

    pub fn new(vtables: VTableMap) -> (r: Self)
        ensures
            r.wf(),
            r@ == Seq::<(SpecDeclKey, (bool, Seq<char>, Seq<char>))>::empty(),
            r.spec_vtables() == vtables@,
    {
        let r = DeclDatabase { vtables, keys: Vec::new(), entries: Vec::new() };
        assert(r@ =~= Seq::<(SpecDeclKey, (bool, Seq<char>, Seq<char>))>::empty());
        r
    }

    /// The classes whose method tables the declarations describe.
    pub fn vtables(&self) -> (r: &VTableMap)
        ensures
            r@ == self.spec_vtables(),
    {
        &self.vtables
    }

    /// The texts of the declarations, in order.
    pub fn entries(&self) -> (r: Vec<String>)
        requires
            self.wf(),
        ensures
            r@.len() == self@.len(),
            forall|i: int| 0 <= i < r@.len() ==> #[trigger] r@[i]@ == self@[i].1.2,
    {
        let mut r: Vec<String> = Vec::new();
        let mut i: usize = 0;
        while i < self.entries.len()
            invariant
                self.wf(),
                i <= self.entries@.len(),
                r@.len() == i,
                forall|j: int| 0 <= j < i ==> #[trigger] r@[j]@ == self@[j].1.2,
            decreases self.entries@.len() - i,
        {
            r.push(copy_string(self.entries[i].declaration.as_str()));
            i += 1;
        }
        r
    }

    /// Where a key is, if it is there.
    fn find(&self, k: &DeclKey) -> (r: Option<usize>)
        requires
            self.wf(),
        ensures
            ({
                let p = first_index(decl_keys(self@), k@);
                &&& r is None <==> p < 0
                &&& r matches Some(i) ==> i == p && i < self@.len()
            }),
    {
        let ghost ks = decl_keys(self@);
        proof {
            lemma_first_index(ks, k@);
        }
        let mut i: usize = 0;
        while i < self.keys.len()
            invariant
                self.wf(),
                ks == decl_keys(self@),
                ks.len() == self.keys@.len(),
                i <= self.keys@.len(),
                forall|j: int| 0 <= j < i ==> #[trigger] ks[j] != k@,
            decreases self.keys@.len() - i,
        {
            assert(ks[i as int] == self.keys@[i as int]@);
            if same_key(&self.keys[i], k) {
                proof {
                    lemma_first_index_at(ks, k@, i as int);
                }
                return Some(i);
            }
            i += 1;
        }
        proof {
            if first_index(ks, k@) >= 0 {
                assert(ks[first_index(ks, k@)] == k@);
            }
        }
        None
    }

    /// The entry for a key that is not there yet: its name and its text.
    fn generate(&self, k: &DeclKey) -> (r: Result<(bool, String, String), ClassLookupError>)
        requires
            k@ matches SpecDeclKey::VTableType(c) ==> vtable_outcome(self.spec_vtables(), c) is Some,
        ensures
            exists|hash: u64| match #[trigger] new_entry(self.spec_vtables(), k@, hash) {
                Ok(e) => r matches Ok(x) && (x.0, x.1@, x.2@) == e,
                Err(err) => r == Err::<(bool, String, String), ClassLookupError>(err),
            },
    {
        match k {
            DeclKey::Method { class_name, method_name, method_descriptor, is_static } => {
                let mangled = mangle_method_name(
                    class_name.as_str(),
                    method_name.as_str(),
                    &method_descriptor.ret,
                    method_descriptor.params.as_slice(),
                );
                let ghost hash = choose|hash: u64| mangled@ == #[trigger] spec_mangle_method_name(
                    class_name@,
                    method_name@,
                    method_descriptor.ret@,
                    crate::compiler::mangle::param_views(method_descriptor.params@),
                    hash,
                );
                assert(crate::compiler::mangle::param_views(method_descriptor.params@) == method_descriptor@.params);
                let declaration = method_declaration_text(mangled.as_str(), method_descriptor, *is_static);
                assert(new_entry(self.spec_vtables(), k@, hash) matches Ok(e) && e == (true, mangled@, declaration@));
                Ok((true, mangled, declaration))
            },
            DeclKey::VTableType { class_name } => {
                let vtable = match self.vtables.get(class_name.as_str()) {
                    Ok(v) => v,
                    Err(e) => {
                        assert(new_entry(self.spec_vtables(), k@, 0) == Err::<(bool, Seq<char>, Seq<char>), ClassLookupError>(e));
                        return Err(e);
                    },
                };
                proof {
                    lemma_first_index(loaded_names(self.spec_vtables()), class_name@);
                }
                let ci = find_class(&self.vtables.classes, class_name.as_str());
                let ci = match ci {
                    Some(i) => i,
                    None => {
                        assert(false);
                        return Err(ClassLookupError::ClassNotFound);
                    },
                };
                let is_interface = self.vtables.classes[ci].1.is_interface();
                assert(self.vtables.classes@[ci as int].1@ == self.spec_vtables()[ci as int].1);
                let declaration = vtable_type_text(class_name.as_str(), is_interface, &vtable);
                let name = vtable_name_string(class_name.as_str());
                assert(new_entry(self.spec_vtables(), k@, 0) matches Ok(e) && e == (false, name@, declaration@));
                Ok((false, name, declaration))
            },
            DeclKey::VTableConst { class_name, vtable_type } => {
                let name = vtable_name_string(class_name.as_str());
                let mut declaration = String::from_str("@");
                declaration.append(name.as_str());
                declaration.append(" = external constant ");
                declaration.append(vtable_type.to_string().as_str());
                declaration.append("\n");
                assert(new_entry(self.spec_vtables(), k@, 0) matches Ok(e) && e == (true, name@, declaration@));
                Ok((true, name, declaration))
            },
        }
    }

    /// Adds the declaration for a key, unless it is there: the name of the
    /// declaration either way.
    fn add(&mut self, k: DeclKey) -> (r: Result<DeclIdentifier, ClassLookupError>)
        requires
            old(self).wf(),
            k@ matches SpecDeclKey::VTableType(c) ==> vtable_outcome(old(self).spec_vtables(), c) is Some,
        ensures
            final(self).wf(),
            final(self).spec_vtables() == old(self).spec_vtables(),
            spec_decl_add(old(self).spec_vtables(), old(self)@, k@, final(self)@, id_result(r)),
    {
        let ghost kv = k@;
        let ghost cs = self.spec_vtables();
        if let Some(i) = self.find(&k) {
            assert(self@[i as int] == (self.keys@[i as int]@, self.entries@[i as int]@));
            let entry = &self.entries[i];
            return Ok(DeclIdentifier { global: entry.global, identifier: copy_string(entry.identifier.as_str()) });
        }
        let (global, identifier, declaration) = match self.generate(&k) {
            Ok(x) => x,
            Err(e) => return Err(e),
        };
        let id = DeclIdentifier { global, identifier: copy_string(identifier.as_str()) };
        let ghost old_v = self@;
        self.keys.push(k);
        self.entries.push(DeclEntry { global, identifier, declaration });
        proof {
            lemma_first_index(decl_keys(old_v), kv);
            assert forall|i: int| 0 <= i < old_v.len() implies #[trigger] self.keys@[i]@ != kv by {
                assert(decl_keys(old_v)[i] == old_v[i].0);
            }
            assert(self@ =~= old_v.push((kv, (global, id.identifier@, self.entries@.last().declaration@))));
            assert forall|i: int| 0 <= i < self@.len() implies match #[trigger] self@[i].0 {
                SpecDeclKey::VTableType(c) => !self@[i].1.0 && self@[i].1.1 == vtable_name(c),
                SpecDeclKey::VTableConst(c, _) => self@[i].1.0 && self@[i].1.1 == vtable_name(c),
                SpecDeclKey::Method(_, _, _, _) => true,
            } by {
                if i < old_v.len() {
                    assert(self@[i] == old_v[i]);
                }
            }
        }
        Ok(id)
    }

    /// Adds the declaration of an instance method, unless it is there.
    pub fn add_instance_method(&mut self, class_name: &str, method_name: &str, method_descriptor: &MethodDescriptor)
        -> (r: DeclIdentifier)
        requires
            old(self).wf(),
        ensures
            final(self).wf(),
            final(self).spec_vtables() == old(self).spec_vtables(),
            spec_decl_add(
                old(self).spec_vtables(),
                old(self)@,
                SpecDeclKey::Method(class_name@, method_name@, method_descriptor@, false),
                final(self)@,
                Ok(r@),
            ),
    {
        let k = DeclKey::Method {
            class_name: copy_string(class_name),
            method_name: copy_string(method_name),
            method_descriptor: method_descriptor.duplicate(),
            is_static: false,
        };
        match self.add(k) {
            Ok(id) => id,
            Err(_) => {
                assert(false);
                DeclIdentifier { global: true, identifier: String::new() }
            },
        }
    }

    /// Adds the declaration of a static method, unless it is there.
    pub fn add_static_method(&mut self, class_name: &str, method_name: &str, method_descriptor: &MethodDescriptor)
        -> (r: DeclIdentifier)
        requires
            old(self).wf(),
        ensures
            final(self).wf(),
            final(self).spec_vtables() == old(self).spec_vtables(),
            spec_decl_add(
                old(self).spec_vtables(),
                old(self)@,
                SpecDeclKey::Method(class_name@, method_name@, method_descriptor@, true),
                final(self)@,
                Ok(r@),
            ),
    {
        let k = DeclKey::Method {
            class_name: copy_string(class_name),
            method_name: copy_string(method_name),
            method_descriptor: method_descriptor.duplicate(),
            is_static: true,
        };
        match self.add(k) {
            Ok(id) => id,
            Err(_) => {
                assert(false);
                DeclIdentifier { global: true, identifier: String::new() }
            },
        }
    }

    /// Adds the declaration of the type of a class's method table, unless it
    /// is there.
    pub fn add_vtable_type(&mut self, class_name: &str) -> (r: Result<DeclIdentifier, ClassLookupError>)
        requires
            old(self).wf(),
            vtable_outcome(old(self).spec_vtables(), class_name@) is Some,
        ensures
            final(self).wf(),
            final(self).spec_vtables() == old(self).spec_vtables(),
            spec_decl_add(
                old(self).spec_vtables(),
                old(self)@,
                SpecDeclKey::VTableType(class_name@),
                final(self)@,
                id_result(r),
            ),
    {
        self.add(DeclKey::VTableType { class_name: copy_string(class_name) })
    }

    /// Adds the declaration of a class's method table, after that of its
    /// type, unless they are there.
    pub fn add_vtable_const(&mut self, class_name: &str) -> (r: Result<DeclIdentifier, ClassLookupError>)
        requires
            old(self).wf(),
            vtable_outcome(old(self).spec_vtables(), class_name@) is Some,
        ensures
            final(self).wf(),
            final(self).spec_vtables() == old(self).spec_vtables(),
            exists|mid: Seq<(SpecDeclKey, (bool, Seq<char>, Seq<char>))>, vt: Result<(bool, Seq<char>), ClassLookupError>| {
                &&& #[trigger] spec_decl_add(
                    old(self).spec_vtables(),
                    old(self)@,
                    SpecDeclKey::VTableType(class_name@),
                    mid,
                    vt,
                )
                &&& match vt {
                    Ok(v) => spec_decl_add(
                        old(self).spec_vtables(),
                        mid,
                        SpecDeclKey::VTableConst(class_name@, v),
                        final(self)@,
                        id_result(r),
                    ),
                    Err(e) => final(self)@ == mid && id_result(r) == Err::<(bool, Seq<char>), ClassLookupError>(e),
                }
            },
    {
        let vtable_type = match self.add_vtable_type(class_name) {
            Ok(v) => v,
            Err(e) => return Err(e),
        };
        self.add(DeclKey::VTableConst { class_name: copy_string(class_name), vtable_type })
    }
}

/// The name of a class's method table, as a string.
fn vtable_name_string(class_name: &str) -> (r: String)
    ensures
        r@ == vtable_name(class_name@),
{
    let r = mangle_vtable_name(class_name);
    proof {
        reveal_strlit("vtable.");
        assert(r@ =~= vtable_name(class_name@));
    }
    r
}

/// Writes the declaration of the type of a method table.
fn vtable_type_text(class_name: &str, is_interface: bool, vtable: &crate::backend::vtable::VTable) -> (r: String)
    requires
        table_wf(vtable@),
    ensures
        r@ == vtable_type_declaration(class_name@, is_interface, vtable@),
{
    let t = vtable;
    let mut out = String::from_str("%");
    out.append(vtable_name_string(class_name).as_str());
    out.append(" = type {\n");
    if !is_interface {
        out.append("  i32, ; <number of methods>\n");
    }
    let ghost head = out@;
    let count = t.method_count();
    let mut i: usize = 0;
    while i < count
        invariant
            table_wf(t@),
            count == t@.methods.len(),
            i <= count,
            out@ == head + vtable_method_lines(t@, i as nat),
        decreases count - i,
    {
        let (key, _) = t.method(i);
        out.append("  ");
        out.append(GenFunctionType(&key.method_descriptor).to_string().as_str());
        out.append(" *, ; #");
        push_decimal(&mut out, i as u64);
        out.append(" method ");
        out.append(key.method_name.as_str());
        out.append("\n");
        assert(out@ =~= head + vtable_method_lines(t@, (i + 1) as nat));
        i += 1;
    }
    let icount = t.interface_count();
    out.append("  i32");
    if icount > 0 {
        out.append(",");
    }
    out.append(" ; <number of interfaces>\n");
    let ghost head2 = out@;
    let mut j: usize = 0;
    while j < icount
        invariant
            table_wf(t@),
            icount == t@.interface_names.len(),
            j <= icount,
            out@ == head2 + vtable_interface_lines(t@, j as nat),
        decreases icount - j,
    {
        let (name, _) = t.interface(j);
        out.append("  i8*,\n  i32");
        if j < icount - 1 {
            out.append(",");
        }
        out.append(" ; #");
        push_decimal(&mut out, j as u64);
        out.append(" interface ");
        out.append(name);
        out.append("\n");
        assert(out@ =~= head2 + vtable_interface_lines(t@, (j + 1) as nat));
        j += 1;
    }
    out.append("}\n");
    assert(out@ =~= vtable_type_declaration(class_name@, is_interface, t@));
    out
}

/// Writes the declaration of the method named `id`.
fn method_declaration_text(id: &str, d: &MethodDescriptor, is_static: bool) -> (r: String)
    ensures
        r@ == method_declaration(id@, d@, is_static),
{
    let mut args: Vec<Type> = Vec::new();
    if !is_static {
        args.push(Type::Reference);
    }
    let ghost head = args@;
    let mut i: usize = 0;
    while i < d.params.len()
        invariant
            i <= d.params@.len(),
            args@ == head + d@.params.take(i as int).map_values(|p| spec_type_of_field(p)),
        decreases d.params@.len() - i,
    {
        let ParameterDescriptor::Field(field_type) = &d.params[i];
        args.push(Type::from_field_type(field_type));
        proof {
            assert(d@.params[i as int] == field_type@);
        }
        i += 1;
        assert(args@ =~= head + d@.params.take(i as int).map_values(|p| spec_type_of_field(p)));
    }
    assert(d@.params.take(d@.params.len() as int) =~= d@.params);
    assert(args@ =~= method_arg_types(d@, is_static));
    let mut out = String::from_str("declare ");
    out.append(tlt_return_type(&d.ret));
    out.append(" @");
    out.append(id);
    out.append("(");
    push_joined_types(&mut out, &args);
    out.append(")\n");
    assert(out@ =~= method_declaration(id@, d@, is_static));
    out
}

/// Appends the LLVM types of `ts`, with `, ` between two.
pub(crate) fn push_joined_types(out: &mut String, ts: &Vec<Type>)
    ensures
        final(out)@ == old(out)@ + joined(ts@.map_values(|t: Type| spec_tlt_type(t))),
{
    let ghost texts = ts@.map_values(|t: Type| spec_tlt_type(t));
    let mut i: usize = 0;
    while i < ts.len()
        invariant
            i <= ts@.len(),
            texts == ts@.map_values(|t: Type| spec_tlt_type(t)),
            out@ == old(out)@ + joined(texts.take(i as int)),
        decreases ts@.len() - i,
    {
        if i > 0 {
            out.append(", ");
        }
        out.append(tlt_type(&ts[i]));
        proof {
            let t2 = texts.take(i + 1);
            assert(t2.drop_last() =~= texts.take(i as int));
            assert(t2.last() == texts[i as int]);
            if i == 0 {
                assert(joined(texts.take(0)) =~= Seq::<char>::empty());
            }
        }
        i += 1;
    }
    assert(texts.take(ts@.len() as int) =~= texts);
}

/// Adding a key that is there gives back its entry and changes nothing;
/// once a key was added, adding it again finds the entry just written.
pub proof fn law_added_key_is_found(
    cs: Seq<(Seq<char>, SpecClassFile)>,
    v: Seq<(SpecDeclKey, (bool, Seq<char>, Seq<char>))>,
    k: SpecDeclKey,
    e: (bool, Seq<char>, Seq<char>),
)
    requires
        first_index(decl_keys(v), k) < 0,
    ensures
        first_index(decl_keys(v.push((k, e))), k) == v.len(),
        spec_decl_add(cs, v.push((k, e)), k, v.push((k, e)), Ok((e.0, e.1))),
{
    let w = v.push((k, e));
    lemma_first_index(decl_keys(v), k);
    assert forall|j: int| 0 <= j < v.len() implies decl_keys(w)[j] != k by {
        assert(decl_keys(w)[j] == decl_keys(v)[j]);
    }
    lemma_first_index_at(decl_keys(w), k, v.len() as int);
}

} // verus!
