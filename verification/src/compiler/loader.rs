//! What loading a class by name takes. A name that starts with `[` names an
//! array class, built from its component type; any other name is that of a
//! class file, read from the class path. Reading files is left to the caller:
//! these functions say which file a name needs and assemble array classes.
use crate::classfile::class_file::ClassFile;
use crate::classfile::descriptors::{FieldType, SpecFieldType, spec_parse_field_type, BaseType};
use crate::classfile::error::ClassFileError;
use crate::compiler::classes::names_array;
use crate::text::push_char;
use vstd::prelude::*;
use vstd::string::StrSliceExecFns;
use vstd::utf8::encode_utf8;

verus! {

/// A loaded class.
#[derive(Debug)]
pub enum Class {
    File(ClassFile),
    Array(ArrayClass),
}

/// An array class, by its component: a primitive type, or another class.
#[derive(Debug)]
pub enum ArrayClass {
    Primitive(BaseType),
    Complex(Box<Class>),
}

/// Where the class of a name comes from.
#[derive(Debug)]
pub enum ClassSource {
    /// The class file of that name.
    File,
    /// An array class with the given component type.
    Array(FieldType),
}

/// The class name that the innermost component of a type names, if it is a
/// class and not a primitive type.
pub open spec fn innermost_class(t: SpecFieldType) -> Option<Seq<char>>
    decreases t,
{
    match t {
        SpecFieldType::Base(_) => None,
        SpecFieldType::Object(n) => Some(n),
        SpecFieldType::Array(c) => innermost_class(*c),
    }
}

/// The name with every `.` replaced by `/`.
pub open spec fn dots_to_slashes(s: Seq<char>) -> Seq<char> {
    s.map_values(|c: char| if c == '.' { '/' } else { c })
}

/// `a` is the array class with component type `component`, whose innermost
/// class component is the class file `file`.
pub open spec fn array_class_of(a: ArrayClass, component: SpecFieldType, file: Option<ClassFile>) -> bool
    decreases component,
{
    match component {
        SpecFieldType::Base(b) => a == ArrayClass::Primitive(b),
        SpecFieldType::Object(_) => a matches ArrayClass::Complex(c) && *c matches Class::File(f) && file
            == Some(f),
        SpecFieldType::Array(inner) => a matches ArrayClass::Complex(c) && *c matches Class::Array(ia)
            && array_class_of(ia, *inner, file),
    }
}

/// Where the class named `name` comes from: for a name that starts with `[`,
/// the component type that the rest of the name describes.
pub fn class_source(name: &str) -> (r: Result<ClassSource, ClassFileError>)
    ensures
        !names_array(name@) ==> r matches Ok(ClassSource::File),
        names_array(name@) ==> match spec_parse_field_type(encode_utf8(name@.subrange(1, name@.len() as int)), 0) {
            Ok((t, _)) => r matches Ok(ClassSource::Array(f)) && f@ == t,
            Err(e) => r matches Err(x) && x == e,
        },
{
    if !name.is_empty() && name.get_char(0) == '[' {
        let rest = name.substring_char(1, name.unicode_len());
        match FieldType::try_from_str(rest) {
            Ok(t) => Ok(ClassSource::Array(t)),
            Err(e) => Err(e),
        }
    } else {
        Ok(ClassSource::File)
    }
}

/// The name of the class file that an array class with this component type
/// needs: that of its innermost class component, with `/` between the
/// package names; none for arrays of primitives.
pub fn component_file_name(component: &FieldType) -> (r: Option<String>)
    ensures
        r is Some <==> innermost_class(component@) is Some,
        r matches Some(s) ==> s@ == dots_to_slashes(innermost_class(component@)->0),
    decreases component,
{
    match component {
        FieldType::Base(_) => None,
        FieldType::Array(a) => component_file_name(&a.component_type),
        FieldType::Object(o) => {
            let name = o.class_name.as_str();
            let ghost want = dots_to_slashes(name@);
            let n = name.unicode_len();
            let mut out = String::new();
            let mut i: usize = 0;
            while i < n
                invariant
                    n == name@.len(),
                    i <= n,
                    want == dots_to_slashes(name@),
                    out@ == want.take(i as int),
                decreases n - i,
            {
                let c = name.get_char(i);
                push_char(&mut out, if c == '.' { '/' } else { c });
                assert(want.take(i + 1) =~= want.take(i as int).push(want[i as int]));
                i = i + 1;
            }
            assert(want.take(n as int) =~= want);
            Some(out)
        },
    }
}

/// The array class with this component type, given the class file read for
/// its innermost class component (none when that component is primitive).
pub fn array_class(component: &FieldType, file: Option<ClassFile>) -> (r: ArrayClass)
    requires
        file is Some <==> innermost_class(component@) is Some,
    ensures
        array_class_of(r, component@, file),
    decreases component,
{
    match component {
        FieldType::Base(b) => ArrayClass::Primitive(*b),
        FieldType::Array(a) => ArrayClass::Complex(Box::new(Class::Array(array_class(&a.component_type, file)))),
        FieldType::Object(_) => ArrayClass::Complex(Box::new(Class::File(file.unwrap()))),
    }
}

} // verus!
