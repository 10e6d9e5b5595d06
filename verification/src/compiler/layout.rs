//! Object field layouts: the instance fields of a class in the order they are
//! stored, those of its superclass first.
use crate::classfile::class_file::{
    ClassFile, SpecClassFile, spec_field_is_static, super_name, super_resolves,
};
use crate::classfile::constant_pool::spec_get_utf8;
use crate::classfile::descriptors::{FieldType, SpecFieldType, spec_parse_field_type};
use crate::compiler::classes::{
    ClassLookupError, find_class, loaded_classes, loaded_names, names_array,
};
use crate::lookup::{first_index, lemma_first_index, lemma_first_index_at};
use crate::text::str_eq;
use vstd::prelude::*;
use vstd::string::StrSliceExecFns;
use vstd::utf8::encode_utf8;

verus! {

/// A field, by name and type.
#[derive(Debug)]
pub struct FieldAccessKey {
    pub field_name: String,
    pub field_type: FieldType,
}

impl View for FieldAccessKey {
    type V = (Seq<char>, SpecFieldType);

    open spec fn view(&self) -> (Seq<char>, SpecFieldType) {
        (self.field_name@, self.field_type@)
    }
}

/// No field is listed twice.
pub open spec fn fields_distinct(keys: Seq<(Seq<char>, SpecFieldType)>) -> bool {
    forall|i: int, j: int| 0 <= i < j < keys.len() ==> #[trigger] keys[i] != #[trigger] keys[j]
}

/// The type of the `k`-th field of a class, read from its descriptor, if that
/// names a string that starts with a field type.
pub open spec fn field_type_at(c: SpecClassFile, k: int) -> Option<SpecFieldType> {
    match spec_get_utf8(c.constant_pool, c.fields[k].descriptor_index) {
        Some(d) => match spec_parse_field_type(encode_utf8(d), 0) {
            Ok((t, _)) => Some(t),
            Err(_) => None,
        },
        None => None,
    }
}

/// A field goes last, unless the layout already has it.
pub open spec fn add_field(
    keys: Seq<(Seq<char>, SpecFieldType)>,
    key: (Seq<char>, SpecFieldType),
) -> Seq<(Seq<char>, SpecFieldType)> {
    if first_index(keys, key) >= 0 {
        keys
    } else {
        keys.push(key)
    }
}

/// Adds the instance fields of `c` from the `k`-th on; `None` when the name or the
/// type of one cannot be read.
pub open spec fn fields_from(c: SpecClassFile, keys: Seq<(Seq<char>, SpecFieldType)>, k: nat) -> Option<
    Seq<(Seq<char>, SpecFieldType)>,
>
    decreases c.fields.len() - k,
{
    if k >= c.fields.len() {
        Some(keys)
    } else if spec_field_is_static(c.fields[k as int]) {
        fields_from(c, keys, k + 1)
    } else if spec_get_utf8(c.constant_pool, c.fields[k as int].name_index) is None
        || field_type_at(c, k as int) is None {
        None
    } else {
        let key = (
            spec_get_utf8(c.constant_pool, c.fields[k as int].name_index)->0,
            field_type_at(c, k as int)->0,
        );
        fields_from(c, add_field(keys, key), k + 1)
    }
}

/// Lays out the fields of the class loaded as `name` after `keys`: its
/// superclass's fields first, then its own instance fields. `fuel` bounds how deep
/// superclasses are followed; `None` when it runs out or a name or type that is
/// needed cannot be read.
pub open spec fn field_table(
    cs: Seq<(Seq<char>, SpecClassFile)>,
    name: Seq<char>,
    keys: Seq<(Seq<char>, SpecFieldType)>,
    fuel: nat,
) -> Option<Result<Seq<(Seq<char>, SpecFieldType)>, ClassLookupError>>
    decreases fuel,
{
    let ci = first_index(loaded_names(cs), name);
    if names_array(name) {
        Some(Err(ClassLookupError::ArrayClass))
    } else if ci < 0 {
        Some(Err(ClassLookupError::ClassNotFound))
    } else if fuel == 0 {
        None
    } else {
        let c = cs[ci].1;
        let after_super = if c.super_class is Some {
            if !super_resolves(c) {
                None
            } else {
                field_table(cs, super_name(c), keys, (fuel - 1) as nat)
            }
        } else {
            Some(Ok(keys))
        };
        match after_super {
            Some(Ok(k1)) => match fields_from(c, k1, 0) {
                Some(k2) => Some(Ok(k2)),
                None => None,
            },
            other => other,
        }
    }
}

/// The field layout of the class loaded as `name`, followed as deep as there are
/// classes.
pub open spec fn layout_outcome(cs: Seq<(Seq<char>, SpecClassFile)>, name: Seq<char>) -> Option<
    Result<Seq<(Seq<char>, SpecFieldType)>, ClassLookupError>,
> {
    field_table(cs, name, seq![], cs.len())
}

/// `b` begins with `a`.
pub open spec fn is_prefix_of<T>(a: Seq<T>, b: Seq<T>) -> bool {
    a.len() <= b.len() && b.subrange(0, a.len() as int) == a
}

proof fn lemma_fields_from_extends(c: SpecClassFile, keys: Seq<(Seq<char>, SpecFieldType)>, k: nat)
    requires
        fields_distinct(keys),
    ensures
        fields_from(c, keys, k) matches Some(r) ==> fields_distinct(r) && is_prefix_of(keys, r),
    decreases c.fields.len() - k,
{
    assert(keys.subrange(0, keys.len() as int) =~= keys);
    if k < c.fields.len() {
        if spec_field_is_static(c.fields[k as int]) || spec_get_utf8(
            c.constant_pool,
            c.fields[k as int].name_index,
        ) is None || field_type_at(c, k as int) is None {
            lemma_fields_from_extends(c, keys, k + 1);
        } else {
            let key = (
                spec_get_utf8(c.constant_pool, c.fields[k as int].name_index)->0,
                field_type_at(c, k as int)->0,
            );
            let k1 = add_field(keys, key);
            lemma_first_index(keys, key);
            assert forall|i: int, j: int| 0 <= i < j < k1.len() implies #[trigger] k1[i]
                != #[trigger] k1[j] by {
                if j >= keys.len() {
                    assert(keys[i] != key);
                }
            }
            assert(k1.subrange(0, keys.len() as int) =~= keys);
            lemma_fields_from_extends(c, k1, k + 1);
            if let Some(r) = fields_from(c, k1, k + 1) {
                assert(r.subrange(0, keys.len() as int) =~= r.subrange(0, k1.len() as int).subrange(
                    0,
                    keys.len() as int,
                ));
            }
        }
    }
}

proof fn lemma_field_table_extends(
    cs: Seq<(Seq<char>, SpecClassFile)>,
    name: Seq<char>,
    keys: Seq<(Seq<char>, SpecFieldType)>,
    fuel: nat,
)
    requires
        fields_distinct(keys),
    ensures
        field_table(cs, name, keys, fuel) matches Some(Ok(r)) ==> fields_distinct(r)
            && is_prefix_of(keys, r),
    decreases fuel,
{
    let ci = first_index(loaded_names(cs), name);
    if !names_array(name) && ci >= 0 && fuel > 0 {
        let c = cs[ci].1;
        if c.super_class is Some && super_resolves(c) {
            lemma_field_table_extends(cs, super_name(c), keys, (fuel - 1) as nat);
            if let Some(Ok(k1)) = field_table(cs, super_name(c), keys, (fuel - 1) as nat) {
                lemma_fields_from_extends(c, k1, 0);
                if let Some(r) = fields_from(c, k1, 0) {
                    assert(r.subrange(0, keys.len() as int) =~= r.subrange(0, k1.len() as int).subrange(
                        0,
                        keys.len() as int,
                    ));
                }
            }
        } else if c.super_class is None {
            lemma_fields_from_extends(c, keys, 0);
        }
    }
}

/// More fuel does not change an outcome that the fuel was enough for.
proof fn lemma_field_table_fuel(
    cs: Seq<(Seq<char>, SpecClassFile)>,
    name: Seq<char>,
    keys: Seq<(Seq<char>, SpecFieldType)>,
    fuel: nat,
)
    requires
        field_table(cs, name, keys, fuel) is Some,
    ensures
        field_table(cs, name, keys, fuel + 1) == field_table(cs, name, keys, fuel),
    decreases fuel,
{
    let ci = first_index(loaded_names(cs), name);
    if !names_array(name) && ci >= 0 && fuel > 0 {
        let c = cs[ci].1;
        if c.super_class is Some && super_resolves(c) {
            lemma_field_table_fuel(cs, super_name(c), keys, (fuel - 1) as nat);
        }
    }
}

/// The layout of a class begins with the layout of its superclass: an object of
/// the class holds the superclass's fields at the same positions, and no field is
/// listed twice.
pub proof fn law_superclass_fields_first(cs: Seq<(Seq<char>, SpecClassFile)>, name: Seq<char>)
    requires
        layout_outcome(cs, name) matches Some(Ok(_)),
        first_index(loaded_names(cs), name) >= 0,
        cs[first_index(loaded_names(cs), name)].1.super_class is Some,
    ensures
        ({
            let c = cs[first_index(loaded_names(cs), name)].1;
            &&& layout_outcome(cs, super_name(c)) matches Some(Ok(ls))
            &&& layout_outcome(cs, name) matches Some(Ok(l))
            &&& fields_distinct(l)
            &&& is_prefix_of(ls, l)
        }),
{
    let ci = first_index(loaded_names(cs), name);
    let c = cs[ci].1;
    let fuel = cs.len();
    let empty = Seq::<(Seq<char>, SpecFieldType)>::empty();
    assert(super_resolves(c));
    let inner = field_table(cs, super_name(c), empty, (fuel - 1) as nat);
    assert(inner matches Some(Ok(_)));
    lemma_field_table_fuel(cs, super_name(c), empty, (fuel - 1) as nat);
    lemma_field_table_extends(cs, super_name(c), empty, (fuel - 1) as nat);
    lemma_field_table_extends(cs, name, empty, fuel);
    let ls = inner->0->Ok_0;
    lemma_fields_from_extends(c, ls, 0);
}

/// The fields of an object of a class, in the order they are stored.
#[derive(Debug)]
pub struct FieldLayout {
    table: Vec<FieldAccessKey>,
}

impl View for FieldLayout {
    type V = Seq<(Seq<char>, SpecFieldType)>;

    closed spec fn view(&self) -> Seq<(Seq<char>, SpecFieldType)> {
        self.table@.map_values(|k: FieldAccessKey| k@)
    }
}

impl FieldLayout {
    /// The number of fields.
    pub fn len(&self) -> (r: usize)
        ensures
            r == self@.len(),
    {
        self.table.len()
    }

    /// The `i`-th field.
    pub fn key(&self, i: usize) -> (r: &FieldAccessKey)
        requires
            i < self@.len(),
        ensures
            r@ == self@[i as int],
    {
        &self.table[i]
    }

    /// The position of a field, if the layout has it.
    pub fn get(&self, field_name: &str, field_type: &FieldType) -> (r: Option<usize>)
        ensures
            r is None <==> first_index(self@, (field_name@, field_type@)) < 0,
            r matches Some(p) ==> p == first_index(self@, (field_name@, field_type@)),
    {
        find_field(&self.table, field_name, field_type)
    }
}

fn find_field(table: &Vec<FieldAccessKey>, field_name: &str, field_type: &FieldType) -> (r: Option<
    usize,
>)
    ensures
        r is None <==> first_index(
            table@.map_values(|k: FieldAccessKey| k@),
            (field_name@, field_type@),
        ) < 0,
        r matches Some(p) ==> p == first_index(
            table@.map_values(|k: FieldAccessKey| k@),
            (field_name@, field_type@),
        ),
{
    let ghost ks = table@.map_values(|k: FieldAccessKey| k@);
    let ghost key = (field_name@, field_type@);
    proof {
        lemma_first_index(ks, key);
    }
    let mut i: usize = 0;
    while i < table.len()
        invariant
            i <= table@.len(),
            ks == table@.map_values(|k: FieldAccessKey| k@),
            key == (field_name@, field_type@),
            forall|j: int| 0 <= j < i ==> ks[j] != key,
        decreases table@.len() - i,
    {
        let k = &table[i];
        assert(ks[i as int] == k@);
        let same_name = str_eq(k.field_name.as_str(), field_name);
        let same_type = k.field_type.same_as(field_type);
        if same_name && same_type {
            assert(k@ == key);
            proof {
                lemma_first_index_at(ks, key, i as int);
            }
            return Some(i);
        }
        i = i + 1;
    }
    None
}

/// The loaded classes, each under the name it was loaded by, from which field
/// layouts are built.
pub struct FieldLayoutMap {
    pub classes: Vec<(String, ClassFile)>,
}

impl View for FieldLayoutMap {
    type V = Seq<(Seq<char>, SpecClassFile)>;

    open spec fn view(&self) -> Seq<(Seq<char>, SpecClassFile)> {
        loaded_classes(self.classes@)
    }
}

impl FieldLayoutMap {
    pub fn new(classes: Vec<(String, ClassFile)>) -> (m: FieldLayoutMap)
        ensures
            m.classes == classes,
    {
        FieldLayoutMap { classes }
    }

    /// Lays out the fields of the class loaded as `name` after those in `table`
    /// (see `field_table`).
    fn build_table(&self, name: &str, table: &mut Vec<FieldAccessKey>, fuel: usize) -> (r: Result<
        (),
        ClassLookupError,
    >)
        requires
            field_table(self@, name@, old(table)@.map_values(|k: FieldAccessKey| k@), fuel as nat)
                is Some,
        ensures
            r is Ok ==> field_table(
                self@,
                name@,
                old(table)@.map_values(|k: FieldAccessKey| k@),
                fuel as nat,
            ) == Some(
                Ok::<Seq<(Seq<char>, SpecFieldType)>, ClassLookupError>(
                    final(table)@.map_values(|k: FieldAccessKey| k@),
                ),
            ),
            r matches Err(e) ==> field_table(
                self@,
                name@,
                old(table)@.map_values(|k: FieldAccessKey| k@),
                fuel as nat,
            ) == Some(Err::<Seq<(Seq<char>, SpecFieldType)>, ClassLookupError>(e)),
        decreases fuel,
    {
        let ghost cs = self@;
        let ghost goal = field_table(
            cs,
            name@,
            table@.map_values(|k: FieldAccessKey| k@),
            fuel as nat,
        );
        if !name.is_empty() && name.get_char(0) == '[' {
            return Err(ClassLookupError::ArrayClass);
        }
        let ci = match find_class(&self.classes, name) {
            Some(i) => i,
            None => {
                return Err(ClassLookupError::ClassNotFound);
            },
        };
        proof {
            lemma_first_index(loaded_names(cs), name@);
        }
        let classfile = &self.classes[ci].1;
        let ghost c = classfile@;
        assert(c == cs[ci as int].1);
        match classfile.get_super_class() {
            Some(super_class) => {
                let super_name = classfile.constant_pool.get_utf8(super_class.name_index).unwrap();
                match self.build_table(super_name, table, fuel - 1) {
                    Ok(()) => {},
                    Err(e) => {
                        return Err(e);
                    },
                }
            },
            None => {},
        }
        let mut k: usize = 0;
        while k < classfile.fields.len()
            invariant
                c == classfile@,
                k <= c.fields.len(),
                goal == field_table(
                    self@,
                    name@,
                    old(table)@.map_values(|k: FieldAccessKey| k@),
                    fuel as nat,
                ),
                goal is Some,
                goal == (match fields_from(c, table@.map_values(|k: FieldAccessKey| k@), k as nat) {
                    Some(k2) => Some(Ok::<Seq<(Seq<char>, SpecFieldType)>, ClassLookupError>(k2)),
                    None => None,
                }),
            decreases c.fields.len() - k,
        {
            let field = &classfile.fields[k];
            assert(c.fields[k as int] == field@);
            if !field.is_static() {
                let ghost before = table@.map_values(|k: FieldAccessKey| k@);
                let field_name = classfile.constant_pool.get_utf8(field.name_index).unwrap();
                let descriptor = classfile.constant_pool.get_utf8(field.descriptor_index).unwrap();
                let field_type = FieldType::try_from_str(descriptor).unwrap();
                assert(field_type@ == field_type_at(c, k as int)->0);
                if find_field(table, field_name, &field_type).is_none() {
                    table.push(FieldAccessKey { field_name: field_name.to_owned(), field_type });
                    assert(table@.map_values(|k: FieldAccessKey| k@) =~= add_field(
                        before,
                        (field_name@, field_type_at(c, k as int)->0),
                    ));
                }
            }
            k = k + 1;
        }
        Ok(())
    }

    /// The field layout of the class loaded as `name`.
    pub fn get(&self, name: &str) -> (r: Result<FieldLayout, ClassLookupError>)
        requires
            layout_outcome(self@, name@) is Some,
        ensures
            r matches Ok(l) ==> layout_outcome(self@, name@) == Some(
                Ok::<Seq<(Seq<char>, SpecFieldType)>, ClassLookupError>(l@),
            ),
            r matches Err(e) ==> layout_outcome(self@, name@) == Some(
                Err::<Seq<(Seq<char>, SpecFieldType)>, ClassLookupError>(e),
            ),
    {
        let mut table: Vec<FieldAccessKey> = Vec::new();
        assert(table@.map_values(|k: FieldAccessKey| k@) =~= Seq::<
            (Seq<char>, SpecFieldType),
        >::empty());
        match self.build_table(name, &mut table, self.classes.len()) {
            Ok(()) => Ok(FieldLayout { table }),
            Err(e) => Err(e),
        }
    }
}

} // verus!
