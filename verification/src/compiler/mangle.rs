//! Symbol names for methods, field accessors and virtual tables, in the
//! style of the Itanium C++ ABI.
use vstd::prelude::*;
use vstd::utf8::encode_utf8;
use vstd::string::StringSliceAdditionalSpecFns;
use crate::classfile::descriptors::{
    BaseType, FieldType, ParameterDescriptor, ReturnTypeDescriptor, SpecFieldType, SpecReturnType,
};
use crate::text::{push_char, str_eq, decimal, hex_digits, push_decimal, push_hex};
use std::hash::{Hash, Hasher};

verus! {

broadcast use vstd::string::axiom_spec_iter;

/// The pieces of `s` between occurrences of `sep`: one more piece than
/// there are separators, empty pieces included.
pub open spec fn segments(s: Seq<char>, sep: char) -> Seq<Seq<char>>
    decreases s.len(),
{
    if s.len() == 0 {
        seq![Seq::<char>::empty()]
    } else {
        let init = segments(s.drop_last(), sep);
        if s.last() == sep {
            init.push(Seq::<char>::empty())
        } else {
            init.update(init.len() - 1, init.last().push(s.last()))
        }
    }
}

pub proof fn lemma_segments_nonempty(s: Seq<char>, sep: char)
    ensures
        segments(s, sep).len() >= 1,
    decreases s.len(),
{
    if s.len() > 0 {
        lemma_segments_nonempty(s.drop_last(), sep);
    }
}

/// The length in bytes of the UTF-8 encoding of a string held in memory
/// (which always fits in a `usize`).
pub open spec fn utf8_len(n: Seq<char>) -> nat {
    (encode_utf8(n).len() as usize) as nat
}

/// A name preceded by its length in UTF-8 bytes.
pub open spec fn length_prefixed(n: Seq<char>) -> Seq<char> {
    decimal(utf8_len(n)) + n
}

/// The length-prefixed names one after the other.
pub open spec fn length_prefixed_all(names: Seq<Seq<char>>) -> Seq<char>
    decreases names.len(),
{
    if names.len() == 0 {
        Seq::empty()
    } else {
        length_prefixed_all(names.drop_last()) + length_prefixed(names.last())
    }
}

/// The mangled form of a field type.
pub open spec fn mangled_field_type(t: SpecFieldType) -> Seq<char>
    decreases t,
{
    match t {
        SpecFieldType::Base(b) => match b {
            BaseType::Byte => seq!['u', '4', 'b', 'y', 't', 'e'],
            BaseType::Char => seq!['u', '4', 'c', 'h', 'a', 'r'],
            BaseType::Double => seq!['d'],
            BaseType::Float => seq!['f'],
            BaseType::Int => seq!['i'],
            BaseType::Long => seq!['l'],
            BaseType::Short => seq!['s'],
            BaseType::Boolean => seq!['u', '7', 'b', 'o', 'o', 'l', 'e', 'a', 'n'],
        },
        SpecFieldType::Object(n) => seq!['N'] + length_prefixed_all(segments(n, '.')) + seq!['E'],
        SpecFieldType::Array(c) => seq!['A', '_'] + mangled_field_type(*c),
    }
}

/// The mangled forms of field types one after the other.
pub open spec fn mangled_field_types(ts: Seq<SpecFieldType>) -> Seq<char>
    decreases ts.len(),
{
    if ts.len() == 0 {
        Seq::empty()
    } else {
        mangled_field_types(ts.drop_last()) + mangled_field_type(ts.last())
    }
}

/// The mangled form of a method's name: constructors and class
/// initialisers get fixed names.
pub open spec fn mangled_method_part(method: Seq<char>) -> Seq<char> {
    if method == seq!['<', 'i', 'n', 'i', 't', '>'] {
        seq!['4', 'i', 'n', 'i', 't']
    } else if method == seq!['<', 'c', 'l', 'i', 'n', 'i', 't', '>'] {
        seq!['6', 'c', 'l', 'i', 'n', 'i', 't']
    } else {
        length_prefixed(method)
    }
}

/// The views of a method's parameters.
pub open spec fn param_views(params: Seq<ParameterDescriptor>) -> Seq<SpecFieldType> {
    params.map_values(|p: ParameterDescriptor| p@)
}

/// The symbol of a method, given the hash that tells overloads apart.
pub open spec fn spec_mangle_method_name(
    class: Seq<char>,
    method: Seq<char>,
    ret: SpecReturnType,
    params: Seq<SpecFieldType>,
    hash: u64,
) -> Seq<char> {
    seq!['_', 'Z', 'N'] + length_prefixed_all(segments(class, '/')) + mangled_method_part(method)
        + seq!['I', 'u', '9', 'J'] + hex_digits(hash as nat % 0x1_0000_0000, 8) + seq!['E', 'E']
        + match ret {
            SpecReturnType::Void => seq!['v'],
            SpecReturnType::Field(t) => mangled_field_type(t),
        }
        + if params.len() == 0 { seq!['v'] } else { mangled_field_types(params) }
}

/// The symbol of a field's getter or setter.
pub open spec fn spec_mangle_field_accessor(class: Seq<char>, field: Seq<char>, setter: bool) -> Seq<char> {
    seq!['_', 'Z', 'N'] + length_prefixed_all(segments(class, '/')) + length_prefixed(field)
        + if setter { seq!['v', '1', '3', 's', 'e', 't'] } else { seq!['v', '0', '3', 'g', 'e', 't'] }
        + seq!['E']
}

/// The escaped form of one character of a class name.
pub open spec fn mangled_char(c: char) -> Seq<char> {
    if c == '_' {
        seq!['_', '1']
    } else if c == ';' {
        seq!['_', '2']
    } else if c == '[' {
        seq!['_', '3']
    } else if c == '/' || c == '.' {
        seq!['_']
    } else {
        seq![c]
    }
}

/// A class name with `_`, `;` and `[` escaped and both separators turned
/// into `_`.
pub open spec fn spec_mangle(s: Seq<char>) -> Seq<char>
    decreases s.len(),
{
    if s.len() == 0 {
        Seq::empty()
    } else {
        spec_mangle(s.drop_last()) + mangled_char(s.last())
    }
}

/// The hash of a method's class name, name and return type (FNV-1a over
/// the bytes that `Hash` feeds it); it tells overloaded methods apart.
/// The bytes fed in depend on the machine's word size and byte order, so
/// nothing is said of the value.
#[verifier::external_body]
fn method_hash(class_name: &str, method_name: &str, rettype: &ReturnTypeDescriptor) -> u64 {
    let mut hasher = fnv::FnvHasher::default();
    (class_name, method_name, rettype, rettype).hash(&mut hasher);
    hasher.finish()
}

struct Mangler {
    output: String,
}

impl Mangler {
    fn new(prefix: &str) -> (r: Self)
        ensures
            r.output@ == seq!['_'] + prefix@,
    {
        let mut output = String::new();
        push_char(&mut output, '_');
        output.append(prefix);
        Mangler { output }
    }

    fn nested_start(&mut self)
        ensures
            final(self).output@ == old(self).output@.push('N'),
    {
        push_char(&mut self.output, 'N');
    }

    fn nested_end(&mut self)
        ensures
            final(self).output@ == old(self).output@.push('E'),
    {
        push_char(&mut self.output, 'E');
    }

    /// Appends a name preceded by its length in bytes.
    fn name(&mut self, name: &str)
        ensures
            final(self).output@ == old(self).output@ + length_prefixed(name@),
    {
        push_decimal(&mut self.output, name.len() as u64);
        self.output.append(name);
        assert(self.output@ =~= old(self).output@ + length_prefixed(name@));
    }

    /// Appends each piece of `path` between occurrences of `sep` as a name.
    fn names(&mut self, path: &str, sep: char)
        ensures
            final(self).output@ == old(self).output@ + length_prefixed_all(segments(path@, sep)),
    {
        let ghost s = path@;
        let mut current = String::new();
        for c in it: path.chars()
            invariant
                it.seq() == s,
                0 <= it.index() <= s.len(),
                segments(s.take(it.index()), sep).len() >= 1,
                current@ == segments(s.take(it.index()), sep).last(),
                self.output@ == old(self).output@
                    + length_prefixed_all(segments(s.take(it.index()), sep).drop_last()),
        {
            let ghost i = it.index();
            let ghost init = segments(s.take(i), sep);
            assert(s.take(i + 1).drop_last() =~= s.take(i));
            assert(s.take(i + 1).last() == c);
            if c == sep {
                self.name(current.as_str());
                current = String::new();
                assert(segments(s.take(i + 1), sep) == init.push(Seq::<char>::empty()));
                assert(segments(s.take(i + 1), sep).drop_last() =~= init);
            } else {
                push_char(&mut current, c);
                assert(segments(s.take(i + 1), sep).drop_last() =~= init.drop_last());
            }
            proof {
                lemma_segments_nonempty(s.take(i + 1), sep);
            }
        }
        assert(s.take(s.len() as int) =~= s);
        self.name(current.as_str());
    }

    /// Appends a method's name; constructors and class initialisers get
    /// fixed names.
    fn method_name(&mut self, method_name: &str)
        ensures
            final(self).output@ == old(self).output@ + mangled_method_part(method_name@),
    {
        proof {
            reveal_strlit("<init>");
            reveal_strlit("<clinit>");
            reveal_strlit("4init");
            reveal_strlit("6clinit");
            assert("<init>"@ =~= seq!['<', 'i', 'n', 'i', 't', '>']);
            assert("<clinit>"@ =~= seq!['<', 'c', 'l', 'i', 'n', 'i', 't', '>']);
            assert("4init"@ =~= seq!['4', 'i', 'n', 'i', 't']);
            assert("6clinit"@ =~= seq!['6', 'c', 'l', 'i', 'n', 'i', 't']);
        }
        if str_eq(method_name, "<init>") {
            self.output.append("4init");
        } else if str_eq(method_name, "<clinit>") {
            self.output.append("6clinit");
        } else {
            self.name(method_name);
            assert(method_name@ != seq!['<', 'i', 'n', 'i', 't', '>']);
            assert(method_name@ != seq!['<', 'c', 'l', 'i', 'n', 'i', 't', '>']);
        }
        assert(self.output@ =~= old(self).output@ + mangled_method_part(method_name@));
    }

    /// Appends the mangled types of the parameters.
    fn field_types(&mut self, params: &[ParameterDescriptor])
        ensures
            final(self).output@ == old(self).output@ + mangled_field_types(param_views(params@)),
    {
        let ghost pv = param_views(params@);
        let mut i: usize = 0;
        while i < params.len()
            invariant
                i <= params@.len(),
                pv == param_views(params@),
                self.output@ == old(self).output@ + mangled_field_types(pv.take(i as int)),
            decreases params@.len() - i,
        {
            match &params[i] {
                ParameterDescriptor::Field(field_type) => self.field_type(field_type),
            }
            assert(pv.take(i + 1).drop_last() =~= pv.take(i as int));
            i += 1;
        }
        assert(pv.take(params@.len() as int) =~= pv);
    }

    fn field_type(&mut self, field_type: &FieldType)
        ensures
            final(self).output@ == old(self).output@ + mangled_field_type(field_type@),
        decreases field_type,
    {
        match field_type {
            FieldType::Base(base_type) => {
                match base_type {
                    BaseType::Byte => self.output.append("u4byte"),
                    BaseType::Char => self.output.append("u4char"),
                    BaseType::Double => push_char(&mut self.output, 'd'),
                    BaseType::Float => push_char(&mut self.output, 'f'),
                    BaseType::Int => push_char(&mut self.output, 'i'),
                    BaseType::Long => push_char(&mut self.output, 'l'),
                    BaseType::Short => push_char(&mut self.output, 's'),
                    BaseType::Boolean => self.output.append("u7boolean"),
                };
                proof {
                    reveal_strlit("u4byte");
                    reveal_strlit("u4char");
                    reveal_strlit("u7boolean");
                }
                assert(self.output@ =~= old(self).output@ + mangled_field_type(field_type@));
            },
            FieldType::Object(object_type) => {
                self.nested_start();
                self.names(object_type.class_name.as_str(), '.');
                self.nested_end();
                assert(self.output@ =~= old(self).output@ + mangled_field_type(field_type@));
            },
            FieldType::Array(array_type) => {
                self.output.append("A_");
                proof {
                    reveal_strlit("A_");
                }
                self.field_type(&array_type.component_type);
                assert(self.output@ =~= old(self).output@ + mangled_field_type(field_type@));
            },
        }
    }
}

pub fn mangle_field_name_setter(class_name: &str, field_name: &str) -> (r: String)
    ensures
        r@ == spec_mangle_field_accessor(class_name@, field_name@, true),
{
    mangle_field_accessor(class_name, field_name, true)
}

pub fn mangle_field_name_getter(class_name: &str, field_name: &str) -> (r: String)
    ensures
        r@ == spec_mangle_field_accessor(class_name@, field_name@, false),
{
    mangle_field_accessor(class_name, field_name, false)
}

/// The symbol of a method. Overloads are told apart by a hash of the class
/// name, the method name and the return type, which this contract leaves
/// open.
pub fn mangle_method_name(
    class_name: &str,
    method_name: &str,
    rettype: &ReturnTypeDescriptor,
    params: &[ParameterDescriptor],
) -> (r: String)
    ensures
        exists|hash: u64| r@ == #[trigger] spec_mangle_method_name(
            class_name@,
            method_name@,
            rettype@,
            param_views(params@),
            hash,
        ),
{
    let hash = method_hash(class_name, method_name, rettype);
    let r = mangle_method_name_with_hash(class_name, method_name, rettype, params, hash);
    assert(r@ == spec_mangle_method_name(
        class_name@,
        method_name@,
        rettype@,
        param_views(params@),
        hash,
    ));
    r
}

/// The symbol of a method whose overload hash is `hash`.
pub fn mangle_method_name_with_hash(
    class_name: &str,
    method_name: &str,
    rettype: &ReturnTypeDescriptor,
    params: &[ParameterDescriptor],
    hash: u64,
) -> (r: String)
    ensures
        r@ == spec_mangle_method_name(
            class_name@,
            method_name@,
            rettype@,
            param_views(params@),
            hash,
        ),
{
    let ghost pv = param_views(params@);
    let mut mangler = Mangler::new("Z");
    proof {
        reveal_strlit("Z");
    }
    mangler.nested_start();
    mangler.names(class_name, '/');
    mangler.method_name(method_name);
    mangler.output.append("Iu9J");
    proof {
        reveal_strlit("Iu9J");
    }
    let low: u32 = #[verifier::truncate] (hash as u32);
    assert(low as nat == hash as nat % 0x1_0000_0000) by (bit_vector)
        requires
            low == hash as u32,
    ;
    push_hex(&mut mangler.output, low, 8);
    push_char(&mut mangler.output, 'E');
    mangler.nested_end();
    let ghost after_name = mangler.output@;
    match rettype {
        ReturnTypeDescriptor::Void => push_char(&mut mangler.output, 'v'),
        ReturnTypeDescriptor::Field(field_type) => mangler.field_type(field_type),
    };
    if params.len() == 0 {
        push_char(&mut mangler.output, 'v');
    } else {
        mangler.field_types(params);
    }
    let r = mangler.output;
    assert(r@ =~= spec_mangle_method_name(class_name@, method_name@, rettype@, pv, hash));
    r
}

fn mangle_field_accessor(class_name: &str, field_name: &str, setter: bool) -> (r: String)
    ensures
        r@ == spec_mangle_field_accessor(class_name@, field_name@, setter),
{
    let mut mangler = Mangler::new("Z");
    proof {
        reveal_strlit("Z");
        reveal_strlit("v13set");
        reveal_strlit("v03get");
    }
    mangler.nested_start();
    mangler.names(class_name, '/');
    mangler.name(field_name);
    if setter {
        mangler.output.append("v13set");
    } else {
        mangler.output.append("v03get");
    }
    mangler.nested_end();
    let r = mangler.output;
    assert(r@ =~= spec_mangle_field_accessor(class_name@, field_name@, setter));
    r
}

/// The symbol of a class's virtual table.
pub fn mangle_vtable_name(class_name: &str) -> (r: String)
    ensures
        r@ == seq!['v', 't', 'a', 'b', 'l', 'e', '.'] + spec_mangle(class_name@),
{
    let mut r = String::from_str("vtable.");
    proof {
        reveal_strlit("vtable.");
    }
    let m = mangle(class_name);
    r.append(m.as_str());
    r
}

fn mangle(input: &str) -> (r: String)
    ensures
        r@ == spec_mangle(input@),
{
    let ghost s = input@;
    let mut output = String::new();
    for c in it: input.chars()
        invariant
            it.seq() == s,
            0 <= it.index() <= s.len(),
            output@ == spec_mangle(s.take(it.index())),
    {
        let ghost i = it.index();
        assert(s.take(i + 1).drop_last() =~= s.take(i));
        if c == '_' {
            push_char(&mut output, '_');
            push_char(&mut output, '1');
        } else if c == ';' {
            push_char(&mut output, '_');
            push_char(&mut output, '2');
        } else if c == '[' {
            push_char(&mut output, '_');
            push_char(&mut output, '3');
        } else if c == '/' || c == '.' {
            push_char(&mut output, '_');
        } else {
            push_char(&mut output, c);
        }
        assert(output@ =~= spec_mangle(s.take(i + 1)));
    }
    assert(s.take(s.len() as int) =~= s);
    output
}

/// The setter and the getter of a field have different symbols.
pub proof fn law_setter_and_getter_differ(class: Seq<char>, field: Seq<char>)
    ensures
        spec_mangle_field_accessor(class, field, true) != spec_mangle_field_accessor(class, field, false),
{
    let prefix = seq!['_', 'Z', 'N'] + length_prefixed_all(segments(class, '/')) + length_prefixed(field);
    let set = spec_mangle_field_accessor(class, field, true);
    let get = spec_mangle_field_accessor(class, field, false);
    assert(set[prefix.len() as int + 1] == '1');
    assert(get[prefix.len() as int + 1] == '0');
}

} // verus!
