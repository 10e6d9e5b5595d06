//! The verification types of values held on the operand stack and in local
//! variable slots.
use vstd::prelude::*;
use crate::classfile::constant_pool::Utf8Constant;
use crate::classfile::descriptors::{BaseType, FieldType, SpecFieldType, spec_field_type_chars};

verus! {

/// The type of a value on the operand stack or in a local slot.
#[derive(Clone, Debug, PartialEq, Eq, PartialOrd, Ord)]
pub enum Type {
    Top,
    Integer,
    Float,
    Long,
    Double,
    Null,
    Object(Utf8Constant),
    Uninitialized,
    UninitializedThis,
}

/// The mathematical value of a `Type`: class names are character sequences.
pub enum SpecType {
    Top,
    Integer,
    Float,
    Long,
    Double,
    Null,
    Object(Seq<char>),
    Uninitialized,
    UninitializedThis,
}

impl View for Type {
    type V = SpecType;

    open spec fn view(&self) -> SpecType {
        match self {
            Type::Top => SpecType::Top,
            Type::Integer => SpecType::Integer,
            Type::Float => SpecType::Float,
            Type::Long => SpecType::Long,
            Type::Double => SpecType::Double,
            Type::Null => SpecType::Null,
            Type::Object(c) => SpecType::Object(c.string@),
            Type::Uninitialized => SpecType::Uninitialized,
            Type::UninitializedThis => SpecType::UninitializedThis,
        }
    }
}

/// The stack type of a value of the given field type: the small integral
/// types widen to `Integer`, arrays are objects named by their descriptor.
pub open spec fn spec_type_of_field(t: SpecFieldType) -> SpecType {
    match t {
        SpecFieldType::Base(b) => match b {
            BaseType::Float => SpecType::Float,
            BaseType::Long => SpecType::Long,
            BaseType::Double => SpecType::Double,
            _ => SpecType::Integer,
        },
        SpecFieldType::Object(n) => SpecType::Object(n),
        SpecFieldType::Array(c) => SpecType::Object(seq!['['] + spec_field_type_chars(*c)),
    }
}

/// Whether a value of this type takes two local slots.
pub open spec fn is_wide(t: SpecType) -> bool {
    t is Long || t is Double
}

impl Type {
    /// The type of `int` values.
    pub fn integer() -> (r: Self)
        ensures
            r@ == SpecType::Integer,
    {
        Type::Integer
    }

    /// The type of `java.lang.String` objects.
    pub fn string() -> (r: Self)
        ensures
            r@ == SpecType::Object("java.lang.String"@),
    {
        Type::Object(Utf8Constant { string: String::from_str("java.lang.String") })
    }

    pub fn from_field_type(field_type: FieldType) -> (r: Self)
        ensures
            r@ == spec_type_of_field(field_type@),
    {
        match field_type {
            FieldType::Base(base_type) => match base_type {
                BaseType::Byte => Type::Integer,
                BaseType::Char => Type::Integer,
                BaseType::Short => Type::Integer,
                BaseType::Boolean => Type::Integer,
                BaseType::Int => Type::Integer,
                BaseType::Float => Type::Float,
                BaseType::Long => Type::Long,
                BaseType::Double => Type::Double,
            },
            FieldType::Object(object_type) => {
                Type::Object(Utf8Constant { string: object_type.class_name })
            },
            FieldType::Array(array_type) => {
                proof {
                    reveal_strlit("[");
                }
                let mut class_name = String::from_str("[");
                let component = array_type.component_type.to_string();
                class_name.append(component.as_str());
                assert(class_name@ =~= seq!['['] + spec_field_type_chars(array_type.component_type@));
                Type::Object(Utf8Constant { string: class_name })
            },
        }
    }

    /// Whether a value of this type takes two local slots.
    pub fn is_wide(&self) -> (r: bool)
        ensures
            r == is_wide(self@),
    {
        match self {
            Type::Long | Type::Double => true,
            _ => false,
        }
    }

    /// A copy of this type.
    pub fn duplicate(&self) -> (r: Type)
        ensures
            r@ == self@,
    {
        match self {
            Type::Top => Type::Top,
            Type::Integer => Type::Integer,
            Type::Float => Type::Float,
            Type::Long => Type::Long,
            Type::Double => Type::Double,
            Type::Null => Type::Null,
            Type::Object(c) => Type::Object(c.duplicate()),
            Type::Uninitialized => Type::Uninitialized,
            Type::UninitializedThis => Type::UninitializedThis,
        }
    }
}

} // verus!
