//! The types of values in the intermediate form.
use vstd::prelude::*;
use crate::classfile::descriptors::{BaseType, FieldType, SpecFieldType};
use crate::classfile::instructions::ArrayType;

verus! {

/// The type of a value: the primitive types and references.
#[derive(Clone, Copy, Debug, PartialEq, Eq, Structural, PartialOrd, Ord)]
pub enum Type {
    Boolean,
    Char,
    Byte,
    Short,
    Int,
    Long,
    Float,
    Double,
    Reference,
}

/// The type of a value of the given field type.
pub open spec fn spec_type_of_field(t: SpecFieldType) -> Type {
    match t {
        SpecFieldType::Base(b) => match b {
            BaseType::Byte => Type::Byte,
            BaseType::Char => Type::Char,
            BaseType::Short => Type::Short,
            BaseType::Boolean => Type::Boolean,
            BaseType::Int => Type::Int,
            BaseType::Float => Type::Float,
            BaseType::Long => Type::Long,
            BaseType::Double => Type::Double,
        },
        SpecFieldType::Object(_) => Type::Reference,
        SpecFieldType::Array(_) => Type::Reference,
    }
}

/// The type of the elements of a primitive array.
pub open spec fn spec_type_of_array(a: ArrayType) -> Type {
    match a {
        ArrayType::Boolean => Type::Boolean,
        ArrayType::Char => Type::Char,
        ArrayType::Float => Type::Float,
        ArrayType::Double => Type::Double,
        ArrayType::Byte => Type::Byte,
        ArrayType::Short => Type::Short,
        ArrayType::Int => Type::Int,
        ArrayType::Long => Type::Long,
    }
}

impl Type {
    pub fn from_array_type(atype: &ArrayType) -> (r: Type)
        ensures
            r == spec_type_of_array(*atype),
    {
        match atype {
            ArrayType::Boolean => Type::Boolean,
            ArrayType::Char => Type::Char,
            ArrayType::Float => Type::Float,
            ArrayType::Double => Type::Double,
            ArrayType::Byte => Type::Byte,
            ArrayType::Short => Type::Short,
            ArrayType::Int => Type::Int,
            ArrayType::Long => Type::Long,
        }
    }

    pub fn from_field_type(field_type: &FieldType) -> (r: Self)
        ensures
            r == spec_type_of_field(field_type@),
    {
        match field_type {
            FieldType::Base(base_type) => match base_type {
                BaseType::Byte => Type::Byte,
                BaseType::Char => Type::Char,
                BaseType::Short => Type::Short,
                BaseType::Boolean => Type::Boolean,
                BaseType::Int => Type::Int,
                BaseType::Float => Type::Float,
                BaseType::Long => Type::Long,
                BaseType::Double => Type::Double,
            },
            FieldType::Object(_) => Type::Reference,
            FieldType::Array(_) => Type::Reference,
        }
    }

    /// Whether values of the two types can meet in one variable: only when
    /// the types are the same.
    pub fn can_unify_naive(&self, other: &Self) -> (r: bool)
        ensures
            r == (*self == *other),
    {
        *self == *other
    }
}

/// Values of different primitive field types get different types, never
/// the reference type; objects and arrays are references.
pub proof fn law_field_types_keep_their_kind(a: BaseType, b: BaseType, n: Seq<char>, c: SpecFieldType)
    ensures
        a != b ==> spec_type_of_field(SpecFieldType::Base(a)) != spec_type_of_field(SpecFieldType::Base(b)),
        spec_type_of_field(SpecFieldType::Base(a)) != Type::Reference,
        spec_type_of_field(SpecFieldType::Object(n)) == Type::Reference,
        spec_type_of_field(SpecFieldType::Array(Box::new(c))) == Type::Reference,
{
}

/// Arrays of different element types have elements of different types,
/// none of them a reference.
pub proof fn law_array_element_types_differ(a: ArrayType, b: ArrayType)
    ensures
        a != b ==> spec_type_of_array(a) != spec_type_of_array(b),
        spec_type_of_array(a) != Type::Reference,
{
}

} // verus!
