//! Field and method descriptors (JVM specification, section 4.3).
use vstd::prelude::*;
use vstd::utf8::*;
use vstd::string::StringSliceAdditionalSpecFns;
use crate::classfile::error::ClassFileError;
use crate::classfile::buffer::agrees_view;
use crate::text::{push_char, str_eq, string_from_utf8};

verus! {

/// A primitive type.
#[derive(Clone, Copy, Debug, PartialEq, Eq, Structural, Hash)]
pub enum BaseType {
    Byte,
    Char,
    Double,
    Float,
    Int,
    Long,
    Short,
    Boolean,
}

/// A class type, by its name with `.` as package separator.
#[derive(Debug, PartialEq, Eq, Hash)]
pub struct ObjectType {
    pub class_name: String,
}

/// An array type, by the type of its components.
#[derive(Debug, PartialEq, Eq, Hash)]
pub struct ArrayType {
    pub component_type: Box<FieldType>,
}

/// The type of a field, a parameter or a return value.
#[derive(Debug, PartialEq, Eq, Hash)]
pub enum FieldType {
    Base(BaseType),
    Object(ObjectType),
    Array(ArrayType),
}

/// A method parameter.
#[derive(Debug, PartialEq, Eq, Hash)]
pub enum ParameterDescriptor {
    Field(FieldType),
}

/// A method's return type.
#[derive(Debug, PartialEq, Eq, Hash)]
pub enum ReturnTypeDescriptor {
    Field(FieldType),
    Void,
}

/// A method's parameters and return type.
#[derive(Debug, PartialEq, Eq, Hash)]
pub struct MethodDescriptor {
    pub params: Vec<ParameterDescriptor>,
    pub ret: ReturnTypeDescriptor,
}

/// The mathematical value of a field type: class names are character sequences.
pub enum SpecFieldType {
    Base(BaseType),
    Object(Seq<char>),
    Array(Box<SpecFieldType>),
}

/// The mathematical value of a return type.
pub enum SpecReturnType {
    Field(SpecFieldType),
    Void,
}

/// The mathematical value of a method descriptor.
pub struct SpecMethodDescriptor {
    pub params: Seq<SpecFieldType>,
    pub ret: SpecReturnType,
}

pub open spec fn field_type_view(ft: FieldType) -> SpecFieldType
    decreases ft,
{
    match ft {
        FieldType::Base(b) => SpecFieldType::Base(b),
        FieldType::Object(o) => SpecFieldType::Object(o.class_name@),
        FieldType::Array(a) => SpecFieldType::Array(Box::new(field_type_view(*a.component_type))),
    }
}

impl View for FieldType {
    type V = SpecFieldType;

    open spec fn view(&self) -> SpecFieldType {
        field_type_view(*self)
    }
}

impl View for ParameterDescriptor {
    type V = SpecFieldType;

    open spec fn view(&self) -> SpecFieldType {
        match self {
            ParameterDescriptor::Field(f) => f@,
        }
    }
}

impl View for ReturnTypeDescriptor {
    type V = SpecReturnType;

    open spec fn view(&self) -> SpecReturnType {
        match self {
            ReturnTypeDescriptor::Field(f) => SpecReturnType::Field(f@),
            ReturnTypeDescriptor::Void => SpecReturnType::Void,
        }
    }
}

impl View for MethodDescriptor {
    type V = SpecMethodDescriptor;

    open spec fn view(&self) -> SpecMethodDescriptor {
        SpecMethodDescriptor { params: self.params@.map_values(|p: ParameterDescriptor| p@), ret: self.ret@ }
    }
}

/// The index of the first `;` at or after `p`, or the length when there is none.
pub open spec fn semicolon_index(s: Seq<u8>, p: int) -> int
    decreases s.len() - p,
{
    if p >= s.len() || p < 0 {
        s.len() as int
    } else if s[p] == 59u8 {
        p
    } else {
        semicolon_index(s, p + 1)
    }
}

/// The bytes with every `/` replaced by `.`.
pub open spec fn slashes_to_dots(b: Seq<u8>) -> Seq<u8> {
    b.map_values(|x: u8| if x == 47u8 { 46u8 } else { x })
}

/// The primitive type that a tag byte stands for.
pub open spec fn base_type_of_tag(tag: u8) -> Option<BaseType> {
    if tag == 66u8 { Some(BaseType::Byte) }
    else if tag == 67u8 { Some(BaseType::Char) }
    else if tag == 68u8 { Some(BaseType::Double) }
    else if tag == 70u8 { Some(BaseType::Float) }
    else if tag == 73u8 { Some(BaseType::Int) }
    else if tag == 74u8 { Some(BaseType::Long) }
    else if tag == 83u8 { Some(BaseType::Short) }
    else if tag == 90u8 { Some(BaseType::Boolean) }
    else { None }
}

/// Parses a field type whose tag byte `tag` has been read already; the rest
/// starts at `p`. The result holds the position after the descriptor.
pub open spec fn spec_parse_with_tag(s: Seq<u8>, p: int, tag: u8) -> Result<(SpecFieldType, int), ClassFileError>
    decreases s.len() - p,
{
    if base_type_of_tag(tag) is Some {
        Ok((SpecFieldType::Base(base_type_of_tag(tag)->0), p))
    } else if tag == 76u8 {
        let e = semicolon_index(s, p);
        if e >= s.len() {
            Err(ClassFileError::InvalidClassName)
        } else {
            let name = slashes_to_dots(s.subrange(p, e));
            if valid_utf8(name) {
                Ok((SpecFieldType::Object(decode_utf8(name)), e + 1))
            } else {
                Err(ClassFileError::InvalidUtf8)
            }
        }
    } else if tag == 91u8 {
        if 0 <= p < s.len() {
            match spec_parse_with_tag(s, p + 1, s[p]) {
                Ok((c, q)) => Ok((SpecFieldType::Array(Box::new(c)), q)),
                Err(e) => Err(e),
            }
        } else {
            Err(ClassFileError::UnexpectedEof)
        }
    } else {
        Err(ClassFileError::UnknownDescriptorTag(tag))
    }
}

/// Parses a field type starting at `p`.
pub open spec fn spec_parse_field_type(s: Seq<u8>, p: int) -> Result<(SpecFieldType, int), ClassFileError> {
    if 0 <= p < s.len() {
        spec_parse_with_tag(s, p + 1, s[p])
    } else {
        Err(ClassFileError::UnexpectedEof)
    }
}

/// A successful parse never moves backwards nor past the end.
pub proof fn lemma_parse_with_tag_advances(s: Seq<u8>, p: int, tag: u8)
    requires
        0 <= p <= s.len(),
    ensures
        spec_parse_with_tag(s, p, tag) matches Ok((_, q)) ==> p <= q <= s.len(),
    decreases s.len() - p,
{
    if tag == 76u8 {
        lemma_semicolon_index_bounds(s, p);
    } else if tag == 91u8 && base_type_of_tag(tag) is None && p < s.len() {
        lemma_parse_with_tag_advances(s, p + 1, s[p]);
    }
}

pub proof fn lemma_semicolon_index_bounds(s: Seq<u8>, p: int)
    requires
        0 <= p <= s.len(),
    ensures
        p <= semicolon_index(s, p) <= s.len(),
        semicolon_index(s, p) < s.len() ==> s[semicolon_index(s, p)] == 59u8,
        forall|i: int| p <= i < semicolon_index(s, p) ==> s[i] != 59u8,
    decreases s.len() - p,
{
    if p < s.len() && s[p] != 59u8 {
        lemma_semicolon_index_bounds(s, p + 1);
    }
}

/// Parses the parameter list of a method descriptor after its `(`, up to and
/// including the closing `)`.
pub open spec fn spec_parse_params(s: Seq<u8>, p: int) -> Result<(Seq<SpecFieldType>, int), ClassFileError>
    decreases s.len() - p,
{
    if !(0 <= p < s.len()) {
        Err(ClassFileError::UnexpectedEof)
    } else if s[p] == 41u8 {
        Ok((Seq::empty(), p + 1))
    } else {
        match spec_parse_with_tag(s, p + 1, s[p]) {
            Ok((ft, q)) => {
                proof {
                    lemma_parse_with_tag_advances(s, p + 1, s[p]);
                }
                match spec_parse_params(s, q) {
                    Ok((rest, r)) => Ok((seq![ft] + rest, r)),
                    Err(e) => Err(e),
                }
            },
            Err(e) => Err(e),
        }
    }
}

/// Parses a method descriptor starting at `p`.
pub open spec fn spec_parse_method_descriptor(s: Seq<u8>, p: int) -> Result<(SpecMethodDescriptor, int), ClassFileError> {
    if !(0 <= p < s.len()) {
        Err(ClassFileError::UnexpectedEof)
    } else if s[p] != 40u8 {
        Err(ClassFileError::ExpectedParameterDescriptors)
    } else {
        match spec_parse_params(s, p + 1) {
            Ok((params, q)) => {
                if !(0 <= q < s.len()) {
                    Err(ClassFileError::UnexpectedEof)
                } else if s[q] == 86u8 {
                    Ok((SpecMethodDescriptor { params, ret: SpecReturnType::Void }, q + 1))
                } else {
                    match spec_parse_with_tag(s, q + 1, s[q]) {
                        Ok((ft, r)) => Ok((SpecMethodDescriptor { params, ret: SpecReturnType::Field(ft) }, r)),
                        Err(e) => Err(e),
                    }
                }
            },
            Err(e) => Err(e),
        }
    }
}

/// The descriptor string of a field type.
pub open spec fn spec_field_type_chars(t: SpecFieldType) -> Seq<char>
    decreases t,
{
    match t {
        SpecFieldType::Base(b) => seq![base_type_char(b)],
        SpecFieldType::Object(n) => seq!['L'] + n + seq![';'],
        SpecFieldType::Array(c) => seq!['['] + spec_field_type_chars(*c),
    }
}

/// The tag character of a primitive type.
pub open spec fn base_type_char(b: BaseType) -> char {
    match b {
        BaseType::Byte => 'B',
        BaseType::Char => 'C',
        BaseType::Double => 'D',
        BaseType::Float => 'F',
        BaseType::Int => 'I',
        BaseType::Long => 'J',
        BaseType::Short => 'S',
        BaseType::Boolean => 'Z',
    }
}

fn base_type_of_tag_exec(tag: u8) -> (r: Option<BaseType>)
    ensures
        r == base_type_of_tag(tag),
{
    if tag == 66 { Some(BaseType::Byte) }
    else if tag == 67 { Some(BaseType::Char) }
    else if tag == 68 { Some(BaseType::Double) }
    else if tag == 70 { Some(BaseType::Float) }
    else if tag == 73 { Some(BaseType::Int) }
    else if tag == 74 { Some(BaseType::Long) }
    else if tag == 83 { Some(BaseType::Short) }
    else if tag == 90 { Some(BaseType::Boolean) }
    else { None }
}

impl FieldType {
    /// Parses a field type starting at `pos`; the tag byte is read first.
    pub(crate) fn parse(bytes: &[u8], pos: usize) -> (r: Result<(FieldType, usize), ClassFileError>)
        ensures
            agrees_view(r, spec_parse_field_type(bytes@, pos as int)),
    {
        if pos < bytes.len() {
            FieldType::parse_with_tag(bytes, pos + 1, bytes[pos])
        } else {
            Err(ClassFileError::UnexpectedEof)
        }
    }

    /// Parses a field type whose tag byte `tag` was read already; the rest
    /// starts at `pos`.
    pub(crate) fn parse_with_tag(bytes: &[u8], pos: usize, tag: u8) -> (r: Result<(FieldType, usize), ClassFileError>)
        requires
            pos <= bytes@.len(),
        ensures
            agrees_view(r, spec_parse_with_tag(bytes@, pos as int, tag)),
        decreases bytes@.len() - pos,
    {
        if let Some(b) = base_type_of_tag_exec(tag) {
            return Ok((FieldType::Base(b), pos));
        }
        if tag == 76 {
            let mut e = pos;
            while e < bytes.len() && bytes[e] != 59
                invariant
                    pos <= e <= bytes@.len(),
                    semicolon_index(bytes@, pos as int) == semicolon_index(bytes@, e as int),
                decreases bytes@.len() - e,
            {
                e = e + 1;
            }
            if e >= bytes.len() {
                return Err(ClassFileError::InvalidClassName);
            }
            let mut name: Vec<u8> = Vec::new();
            let mut i = pos;
            while i < e
                invariant
                    pos <= i <= e,
                    e < bytes@.len(),
                    name@ == slashes_to_dots(bytes@.subrange(pos as int, i as int)),
                decreases e - i,
            {
                let b = bytes[i];
                let c: u8 = if b == 47 { 46 } else { b };
                name.push(c);
                i = i + 1;
                assert(name@ =~= slashes_to_dots(bytes@.subrange(pos as int, i as int)));
            }
            match string_from_utf8(name) {
                Some(class_name) => Ok((FieldType::Object(ObjectType { class_name }), e + 1)),
                None => Err(ClassFileError::InvalidUtf8),
            }
        } else if tag == 91 {
            if pos < bytes.len() {
                match FieldType::parse_with_tag(bytes, pos + 1, bytes[pos]) {
                    Ok((c, q)) => Ok((FieldType::Array(ArrayType { component_type: Box::new(c) }), q)),
                    Err(e) => Err(e),
                }
            } else {
                Err(ClassFileError::UnexpectedEof)
            }
        } else {
            Err(ClassFileError::UnknownDescriptorTag(tag))
        }
    }

    /// Parses a field type from the start of a string; bytes after the
    /// descriptor are not looked at.
    pub fn try_from_str(input: &str) -> (r: Result<FieldType, ClassFileError>)
        ensures
            match spec_parse_field_type(input.spec_bytes(), 0) {
                Ok((t, _)) => r matches Ok(f) && f@ == t,
                Err(e) => r == Err::<FieldType, ClassFileError>(e),
            },
    {
        match FieldType::parse(input.as_bytes(), 0) {
            Ok((f, _)) => Ok(f),
            Err(e) => Err(e),
        }
    }

    /// The descriptor string of this type, with class names as stored.
    pub fn to_string(&self) -> (r: String)
        ensures
            r@ == spec_field_type_chars(self@),
    {
        let mut output = String::new();
        append_field_type(self, &mut output);
        output
    }
}

/// Prefixes the parameters of a parse outcome with `acc`.
pub open spec fn prepend_params(
    acc: Seq<SpecFieldType>,
    r: Result<(Seq<SpecFieldType>, int), ClassFileError>,
) -> Result<(Seq<SpecFieldType>, int), ClassFileError> {
    match r {
        Ok((rest, q)) => Ok((acc + rest, q)),
        Err(e) => Err(e),
    }
}

impl FieldType {
    /// A copy of this type.
    pub fn duplicate(&self) -> (r: FieldType)
        ensures
            r@ == self@,
        decreases self,
    {
        match self {
            FieldType::Base(b) => FieldType::Base(*b),
            FieldType::Object(o) => FieldType::Object(ObjectType { class_name: o.class_name.clone() }),
            FieldType::Array(a) => {
                let c = a.component_type.duplicate();
                FieldType::Array(ArrayType { component_type: Box::new(c) })
            },
        }
    }

    /// Whether two types are the same type.
    pub fn same_as(&self, other: &FieldType) -> (r: bool)
        ensures
            r == (self@ == other@),
        decreases self,
    {
        match (self, other) {
            (FieldType::Base(x), FieldType::Base(y)) => *x == *y,
            (FieldType::Object(x), FieldType::Object(y)) => str_eq(
                x.class_name.as_str(),
                y.class_name.as_str(),
            ),
            (FieldType::Array(x), FieldType::Array(y)) => x.component_type.same_as(&y.component_type),
            _ => false,
        }
    }
}

impl MethodDescriptor {
    /// A copy of this descriptor.
    pub fn duplicate(&self) -> (r: MethodDescriptor)
        ensures
            r@ == self@,
    {
        let ghost a = self.params@.map_values(|p: ParameterDescriptor| p@);
        let mut params: Vec<ParameterDescriptor> = Vec::new();
        let mut i: usize = 0;
        while i < self.params.len()
            invariant
                i <= self.params@.len(),
                a == self.params@.map_values(|p: ParameterDescriptor| p@),
                params@.map_values(|p: ParameterDescriptor| p@) =~= a.take(i as int),
            decreases self.params@.len() - i,
        {
            let ghost before = params@.map_values(|p: ParameterDescriptor| p@);
            let ParameterDescriptor::Field(f) = &self.params[i];
            let d = ParameterDescriptor::Field(f.duplicate());
            assert(d@ == a[i as int]);
            params.push(d);
            assert(params@.map_values(|p: ParameterDescriptor| p@) =~= before.push(d@));
            i = i + 1;
            assert(a.take(i as int) =~= a.take(i - 1).push(a[i - 1]));
        }
        assert(a.take(i as int) =~= a);
        let ret = match &self.ret {
            ReturnTypeDescriptor::Field(f) => ReturnTypeDescriptor::Field(f.duplicate()),
            ReturnTypeDescriptor::Void => ReturnTypeDescriptor::Void,
        };
        MethodDescriptor { params, ret }
    }

    /// Whether two descriptors have the same parameters and return type.
    pub fn same_as(&self, other: &MethodDescriptor) -> (r: bool)
        ensures
            r == (self@ == other@),
    {
        let ghost a = self.params@.map_values(|p: ParameterDescriptor| p@);
        let ghost b = other.params@.map_values(|p: ParameterDescriptor| p@);
        if self.params.len() != other.params.len() {
            assert(a.len() != b.len());
            return false;
        }
        let mut i: usize = 0;
        while i < self.params.len()
            invariant
                i <= self.params@.len() == other.params@.len(),
                a == self.params@.map_values(|p: ParameterDescriptor| p@),
                b == other.params@.map_values(|p: ParameterDescriptor| p@),
                a.take(i as int) =~= b.take(i as int),
            decreases self.params@.len() - i,
        {
            let ParameterDescriptor::Field(x) = &self.params[i];
            let ParameterDescriptor::Field(y) = &other.params[i];
            if !x.same_as(y) {
                assert(a[i as int] != b[i as int]);
                return false;
            }
            i = i + 1;
            assert(a.take(i as int) =~= b.take(i as int));
        }
        assert(a =~= a.take(i as int));
        assert(b =~= b.take(i as int));
        match (&self.ret, &other.ret) {
            (ReturnTypeDescriptor::Field(x), ReturnTypeDescriptor::Field(y)) => x.same_as(y),
            (ReturnTypeDescriptor::Void, ReturnTypeDescriptor::Void) => true,
            _ => false,
        }
    }

    /// Parses a method descriptor starting at `pos`; bytes after it are not
    /// looked at.
    pub(crate) fn parse(bytes: &[u8], pos: usize) -> (r: Result<(MethodDescriptor, usize), ClassFileError>)
        ensures
            agrees_view(r, spec_parse_method_descriptor(bytes@, pos as int)),
    {
        if pos >= bytes.len() {
            return Err(ClassFileError::UnexpectedEof);
        }
        if bytes[pos] != 40 {
            return Err(ClassFileError::ExpectedParameterDescriptors);
        }
        let mut params: Vec<ParameterDescriptor> = Vec::new();
        let mut cur = pos + 1;
        loop
            invariant_except_break
                pos + 1 <= cur <= bytes@.len(),
                pos < bytes@.len(),
                bytes@[pos as int] == 40u8,
                spec_parse_params(bytes@, pos + 1) == prepend_params(
                    params@.map_values(|p: ParameterDescriptor| p@),
                    spec_parse_params(bytes@, cur as int),
                ),
            ensures
                cur <= bytes@.len(),
                spec_parse_params(bytes@, pos + 1) == Ok::<(Seq<SpecFieldType>, int), ClassFileError>(
                    (params@.map_values(|p: ParameterDescriptor| p@), cur as int),
                ),
            decreases bytes@.len() - cur,
        {
            if cur >= bytes.len() {
                return Err(ClassFileError::UnexpectedEof);
            }
            if bytes[cur] == 41 {
                cur = cur + 1;
                assert(params@.map_values(|p: ParameterDescriptor| p@) + Seq::<SpecFieldType>::empty()
                    =~= params@.map_values(|p: ParameterDescriptor| p@));
                break;
            }
            proof {
                lemma_parse_with_tag_advances(bytes@, cur + 1, bytes@[cur as int]);
            }
            match FieldType::parse_with_tag(bytes, cur + 1, bytes[cur]) {
                Ok((ft, q)) => {
                    let ghost before = params@.map_values(|p: ParameterDescriptor| p@);
                    let ghost fv = ft@;
                    params.push(ParameterDescriptor::Field(ft));
                    assert(params@.map_values(|p: ParameterDescriptor| p@) =~= before.push(fv));
                    assert(before + (seq![fv] + spec_parse_params(bytes@, q as int)->Ok_0.0)
                        =~= before.push(fv) + spec_parse_params(bytes@, q as int)->Ok_0.0);
                    cur = q;
                },
                Err(e) => {
                    return Err(e);
                },
            }
        }
        if cur >= bytes.len() {
            return Err(ClassFileError::UnexpectedEof);
        }
        if bytes[cur] == 86 {
            return Ok((MethodDescriptor { params, ret: ReturnTypeDescriptor::Void }, cur + 1));
        }
        match FieldType::parse_with_tag(bytes, cur + 1, bytes[cur]) {
            Ok((ft, q)) => Ok((MethodDescriptor { params, ret: ReturnTypeDescriptor::Field(ft) }, q)),
            Err(e) => Err(e),
        }
    }
}

fn append_field_type(t: &FieldType, out: &mut String)
    ensures
        final(out)@ == old(out)@ + spec_field_type_chars(t@),
    decreases t,
{
    match t {
        FieldType::Base(b) => {
            let c = match b {
                BaseType::Byte => 'B',
                BaseType::Char => 'C',
                BaseType::Double => 'D',
                BaseType::Float => 'F',
                BaseType::Int => 'I',
                BaseType::Long => 'J',
                BaseType::Short => 'S',
                BaseType::Boolean => 'Z',
            };
            push_char(out, c);
            assert(out@ =~= old(out)@ + spec_field_type_chars(t@));
        },
        FieldType::Object(o) => {
            push_char(out, 'L');
            out.append(o.class_name.as_str());
            push_char(out, ';');
            assert(out@ =~= old(out)@ + spec_field_type_chars(t@));
        },
        FieldType::Array(a) => {
            push_char(out, '[');
            append_field_type(&a.component_type, out);
            assert(out@ =~= old(out)@ + spec_field_type_chars(t@));
        },
    }
}

} // verus!
