//! Reading back the descriptor string of a field type gives the type.
use vstd::prelude::*;
use vstd::utf8::{
    encode_utf8, encode_scalar, decode_utf8, encode_utf8_valid_utf8, encode_utf8_decode_utf8,
    has_width_1_encoding, leading_byte_width_1, valid_utf8, decode_utf8_encode_utf8,
};
use crate::classfile::descriptors::{
    SpecFieldType, spec_field_type_chars, spec_parse_field_type, spec_parse_with_tag, semicolon_index,
    slashes_to_dots, base_type_char, base_type_of_tag, lemma_semicolon_index_bounds,
};

verus! {

/// Whether the class names in a type hold neither `;` nor `/`: a
/// descriptor ends a class name at `;`, and reading one turns `/` into `.`.
pub open spec fn plain_class_names(t: SpecFieldType) -> bool
    decreases t,
{
    match t {
        SpecFieldType::Base(_) => true,
        SpecFieldType::Object(n) => forall|i: int| 0 <= i < n.len() ==> #[trigger] n[i] != ';' && n[i] != '/',
        SpecFieldType::Array(c) => plain_class_names(*c),
    }
}

/// The encoding of two sequences one after the other is the two encodings
/// one after the other.
pub proof fn lemma_encode_utf8_concat(a: Seq<char>, b: Seq<char>)
    ensures
        encode_utf8(a + b) == encode_utf8(a) + encode_utf8(b),
    decreases a.len(),
{
    if a.len() == 0 {
        assert(a + b =~= b);
    } else {
        assert((a + b).drop_first() =~= a.drop_first() + b);
        assert((a + b)[0] == a[0]);
        lemma_encode_utf8_concat(a.drop_first(), b);
        assert(encode_utf8(a + b) =~= encode_scalar(a[0] as u32) + (encode_utf8(a.drop_first()) + encode_utf8(b)));
    }
}

/// An ASCII character is encoded as its own code.
proof fn lemma_encode_ascii(c: char, b: u8)
    requires
        c as u32 == b as u32,
        b < 0x80,
    ensures
        encode_utf8(seq![c]) == seq![b],
{
    let v = c as u32;
    assert(leading_byte_width_1(v) == b) by (bit_vector)
        requires
            v == b as u32,
            b < 0x80,
    ;
    assert(seq![c].drop_first() =~= Seq::<char>::empty());
    reveal_with_fuel(encode_utf8, 2);
    assert(encode_utf8(seq![c]) =~= seq![b]);
}

/// The bytes of a character other than `;` and `/` are neither.
proof fn lemma_encode_scalar_avoids(v: u32)
    requires
        vstd::utf8::is_scalar(v),
        v != 59,
        v != 47,
    ensures
        forall|j: int| 0 <= j < encode_scalar(v).len() ==> #[trigger] encode_scalar(v)[j] != 59u8
            && encode_scalar(v)[j] != 47u8,
{
    if has_width_1_encoding(v) {
        assert(leading_byte_width_1(v) == v as u8) by (bit_vector)
            requires
                v < 0x80,
        ;
    } else {
        let b0 = vstd::utf8::leading_byte_width_2(v);
        let b1 = vstd::utf8::leading_byte_width_3(v);
        let b2 = vstd::utf8::leading_byte_width_4(v);
        let c0 = vstd::utf8::last_continuation_byte(v);
        let c1 = vstd::utf8::second_last_continuation_byte(v);
        let c2 = vstd::utf8::third_last_continuation_byte(v);
        assert(b0 >= 0x80 && b1 >= 0x80 && b2 >= 0x80 && c0 >= 0x80 && c1 >= 0x80 && c2 >= 0x80) by (bit_vector)
            requires
                b0 == (0xC0 | ((v >> 6) & 0x1F) as u8),
                b1 == (0xE0 | ((v >> 12) & 0x0F) as u8),
                b2 == (0xF0 | ((v >> 18) & 0x7) as u8),
                c0 == (0x80 | (v & 0x3F) as u8),
                c1 == (0x80 | ((v >> 6) & 0x3F) as u8),
                c2 == (0x80 | ((v >> 12) & 0x3F) as u8),
        ;
    }
}

/// The encoding of a name without `;` and `/` holds neither byte.
proof fn lemma_encode_avoids(n: Seq<char>)
    requires
        forall|i: int| 0 <= i < n.len() ==> #[trigger] n[i] != ';' && n[i] != '/',
    ensures
        forall|j: int| 0 <= j < encode_utf8(n).len() ==> #[trigger] encode_utf8(n)[j] != 59u8
            && encode_utf8(n)[j] != 47u8,
    decreases n.len(),
{
    if n.len() > 0 {
        vstd::utf8::char_is_scalar(n[0]);
        assert(n[0] != ';' && n[0] != '/');
        let v = n[0] as u32;
        if v == 59 {
            vstd::utf8::char_u32_cast(n[0], v);
            assert((59u32 as char) == ';');
        }
        if v == 47 {
            vstd::utf8::char_u32_cast(n[0], v);
            assert((47u32 as char) == '/');
        }
        lemma_encode_scalar_avoids(n[0] as u32);
        assert forall|i: int| 0 <= i < n.drop_first().len() implies #[trigger] n.drop_first()[i] != ';'
            && n.drop_first()[i] != '/' by {
            assert(n.drop_first()[i] == n[i + 1]);
        }
        lemma_encode_avoids(n.drop_first());
        let e = encode_utf8(n);
        let a = encode_scalar(n[0] as u32);
        let b = encode_utf8(n.drop_first());
        assert(e == a + b);
        assert forall|j: int| 0 <= j < e.len() implies #[trigger] e[j] != 59u8 && e[j] != 47u8 by {
            if j < a.len() {
                assert(e[j] == a[j]);
            } else {
                assert(e[j] == b[j - a.len()]);
            }
        }
    }
}

/// The first `;` from `p` is at `e` when the bytes from `p` up to `e` hold
/// none and the byte at `e` is one.
proof fn lemma_semicolon_at(s: Seq<u8>, p: int, e: int)
    requires
        0 <= p <= e < s.len(),
        s[e] == 59u8,
        forall|i: int| p <= i < e ==> s[i] != 59u8,
    ensures
        semicolon_index(s, p) == e,
    decreases e - p,
{
    if p < e {
        lemma_semicolon_at(s, p + 1, e);
    }
}

/// Reading a field type where its descriptor string stands in `s` gives the
/// type and the position after the descriptor.
pub proof fn lemma_parse_descriptor_at(s: Seq<u8>, p: int, t: SpecFieldType)
    requires
        0 <= p,
        p + encode_utf8(spec_field_type_chars(t)).len() <= s.len(),
        s.subrange(p, p + encode_utf8(spec_field_type_chars(t)).len()) == encode_utf8(spec_field_type_chars(t)),
        plain_class_names(t),
    ensures
        spec_parse_field_type(s, p) == Ok::<(SpecFieldType, int), crate::classfile::error::ClassFileError>(
            (t, p + encode_utf8(spec_field_type_chars(t)).len()),
        ),
    decreases t,
{
    let d = encode_utf8(spec_field_type_chars(t));
    match t {
        SpecFieldType::Base(b) => {
            let c = base_type_char(b);
            let tag: u8 = match b {
                crate::classfile::descriptors::BaseType::Byte => 66u8,
                crate::classfile::descriptors::BaseType::Char => 67u8,
                crate::classfile::descriptors::BaseType::Double => 68u8,
                crate::classfile::descriptors::BaseType::Float => 70u8,
                crate::classfile::descriptors::BaseType::Int => 73u8,
                crate::classfile::descriptors::BaseType::Long => 74u8,
                crate::classfile::descriptors::BaseType::Short => 83u8,
                crate::classfile::descriptors::BaseType::Boolean => 90u8,
            };
            lemma_encode_ascii(c, tag);
            assert(s[p] == s.subrange(p, p + d.len())[0]);
            assert(base_type_of_tag(tag) == Some(b));
        },
        SpecFieldType::Object(n) => {
            lemma_encode_ascii('L', 76u8);
            lemma_encode_ascii(';', 59u8);
            lemma_encode_utf8_concat(seq!['L'] + n, seq![';']);
            lemma_encode_utf8_concat(seq!['L'], n);
            let en = encode_utf8(n);
            assert(d =~= seq![76u8] + en + seq![59u8]);
            lemma_encode_avoids(n);
            assert(s[p] == s.subrange(p, p + d.len())[0]);
            assert(s[p] == 76u8);
            let e = p + 1 + en.len();
            assert forall|i: int| p + 1 <= i < e implies s[i] != 59u8 by {
                assert(s[i] == d[i - p]);
                assert(d[i - p] == en[i - p - 1]);
            }
            assert(s[e] == d[e - p]);
            lemma_semicolon_at(s, p + 1, e);
            assert(s.subrange(p + 1, e) =~= en) by {
                assert forall|i: int| 0 <= i < en.len() implies s.subrange(p + 1, e)[i] == en[i] by {
                    assert(s[p + 1 + i] == d[1 + i]);
                }
            }
            assert(slashes_to_dots(en) =~= en);
            encode_utf8_valid_utf8(n);
            encode_utf8_decode_utf8(n);
            assert(spec_parse_with_tag(s, p + 1, 76u8) == Ok::<(SpecFieldType, int), crate::classfile::error::ClassFileError>(
                (SpecFieldType::Object(decode_utf8(slashes_to_dots(s.subrange(p + 1, e)))), e + 1),
            ));
        },
        SpecFieldType::Array(c) => {
            let dc = encode_utf8(spec_field_type_chars(*c));
            lemma_encode_ascii('[', 91u8);
            lemma_encode_utf8_concat(seq!['['], spec_field_type_chars(*c));
            assert(d =~= seq![91u8] + dc);
            assert(s[p] == s.subrange(p, p + d.len())[0]);
            assert(s[p] == 91u8);
            assert(s.subrange(p + 1, p + 1 + dc.len()) =~= dc) by {
                assert forall|i: int| 0 <= i < dc.len() implies s.subrange(p + 1, p + 1 + dc.len())[i] == dc[i] by {
                    assert(s[p + 1 + i] == d[1 + i]);
                }
            }
            lemma_parse_descriptor_at(s, p + 1, *c);
            assert(dc.len() >= 1) by {
                assert(spec_field_type_chars(*c).len() >= 1);
                vstd::utf8::char_is_scalar(spec_field_type_chars(*c)[0]);
                assert(encode_scalar(spec_field_type_chars(*c)[0] as u32).len() >= 1);
            }
        },
    }
}

/// Reading the descriptor string of a field type, followed by any bytes,
/// gives back the type and the length of the descriptor, provided its
/// class names hold neither `;` nor `/`.
pub proof fn law_field_type_descriptor_round_trip(t: SpecFieldType, rest: Seq<u8>)
    requires
        plain_class_names(t),
    ensures
        spec_parse_field_type(encode_utf8(spec_field_type_chars(t)) + rest, 0)
            == Ok::<(SpecFieldType, int), crate::classfile::error::ClassFileError>(
            (t, encode_utf8(spec_field_type_chars(t)).len() as int),
        ),
{
    let d = encode_utf8(spec_field_type_chars(t));
    let s = d + rest;
    assert(s.subrange(0, d.len() as int) =~= d);
    lemma_parse_descriptor_at(s, 0, t);
}

/// The first `;` from `p` is at or after `p`, and is one where it lies in
/// the bytes.
proof fn lemma_semicolon_index(s: Seq<u8>, p: int)
    requires
        0 <= p,
    ensures
        p <= semicolon_index(s, p) <= s.len() || (p > s.len() && semicolon_index(s, p) == s.len()),
        semicolon_index(s, p) < s.len() ==> s[semicolon_index(s, p)] == 59u8,
    decreases s.len() - p,
{
    if p < s.len() && s[p] != 59u8 {
        lemma_semicolon_index(s, p + 1);
    }
}

/// Replacing `/` by `.` in two byte strings one after the other.
proof fn lemma_slashes_concat(a: Seq<u8>, b: Seq<u8>)
    ensures
        slashes_to_dots(a + b) == slashes_to_dots(a) + slashes_to_dots(b),
{
    assert(slashes_to_dots(a + b) =~= slashes_to_dots(a) + slashes_to_dots(b));
}

/// Writing out a field type read from the bytes from `p - 1` (its tag) up to
/// the end of its descriptor gives those bytes with `/` turned into `.`.
proof fn lemma_print_after_parse(s: Seq<u8>, p: int, tag: u8)
    requires
        1 <= p <= s.len(),
        s[p - 1] == tag,
        spec_parse_with_tag(s, p, tag) is Ok,
    ensures
        ({
            let (t, q) = spec_parse_with_tag(s, p, tag)->Ok_0;
            &&& p <= q <= s.len()
            &&& encode_utf8(spec_field_type_chars(t)) == slashes_to_dots(s.subrange(p - 1, q))
        }),
    decreases s.len() - p,
{
    let (t, q) = spec_parse_with_tag(s, p, tag)->Ok_0;
    if base_type_of_tag(tag) is Some {
        let b = base_type_of_tag(tag)->0;
        lemma_encode_ascii(base_type_char(b), tag);
        assert(slashes_to_dots(s.subrange(p - 1, q)) =~= seq![tag]);
    } else if tag == 76u8 {
        lemma_semicolon_index(s, p);
        let e = semicolon_index(s, p);
        let name = slashes_to_dots(s.subrange(p, e));
        lemma_encode_ascii('L', 76u8);
        lemma_encode_ascii(';', 59u8);
        lemma_encode_utf8_concat(seq!['L'] + decode_utf8(name), seq![';']);
        lemma_encode_utf8_concat(seq!['L'], decode_utf8(name));
        vstd::utf8::decode_utf8_encode_utf8(name);
        assert(s.subrange(p - 1, q) =~= seq![76u8] + s.subrange(p, e) + seq![59u8]);
        lemma_slashes_concat(seq![76u8] + s.subrange(p, e), seq![59u8]);
        lemma_slashes_concat(seq![76u8], s.subrange(p, e));
        assert(slashes_to_dots(seq![76u8]) =~= seq![76u8]);
        assert(slashes_to_dots(seq![59u8]) =~= seq![59u8]);
    } else {
        assert(tag == 91u8);
        lemma_print_after_parse(s, p + 1, s[p]);
        let c = spec_parse_with_tag(s, p + 1, s[p])->Ok_0.0;
        lemma_encode_ascii('[', 91u8);
        lemma_encode_utf8_concat(seq!['['], spec_field_type_chars(c));
        assert(s.subrange(p - 1, q) =~= seq![91u8] + s.subrange(p, q));
        lemma_slashes_concat(seq![91u8], s.subrange(p, q));
        assert(slashes_to_dots(seq![91u8]) =~= seq![91u8]);
    }
}

/// Writing out a parsed field type gives back its descriptor: when the
/// bytes `s` hold exactly one field descriptor, `to_string` of what
/// `try_from_str` reads from them is `s` with every `/` turned into `.`.
pub proof fn law_field_type_print_after_parse(s: Seq<u8>)
    requires
        spec_parse_field_type(s, 0) matches Ok((_, q)) && q == s.len(),
    ensures
        encode_utf8(spec_field_type_chars(spec_parse_field_type(s, 0)->Ok_0.0)) == slashes_to_dots(s),
{
    lemma_print_after_parse(s, 1, s[0]);
    assert(s.subrange(0, s.len() as int) =~= s);
}

/// The characters decoded from UTF-8 bytes that hold neither `;` nor `/`
/// are neither.
proof fn lemma_decoded_avoids(b: Seq<u8>)
    requires
        valid_utf8(b),
        forall|j: int| 0 <= j < b.len() ==> #[trigger] b[j] != 59u8 && b[j] != 47u8,
    ensures
        forall|i: int| 0 <= i < decode_utf8(b).len() ==> #[trigger] decode_utf8(b)[i] != ';'
            && decode_utf8(b)[i] != '/',
{
    let cs = decode_utf8(b);
    decode_utf8_encode_utf8(b);
    assert forall|i: int| 0 <= i < cs.len() implies #[trigger] cs[i] != ';' && cs[i] != '/' by {
        let c = cs[i];
        if c == ';' || c == '/' {
            let pre = cs.take(i);
            let post = cs.skip(i + 1);
            assert(cs =~= pre + seq![c] + post);
            lemma_encode_utf8_concat(pre + seq![c], post);
            lemma_encode_utf8_concat(pre, seq![c]);
            if c == ';' {
                lemma_encode_ascii(c, 59u8);
            } else {
                lemma_encode_ascii(c, 47u8);
            }
            let k = encode_utf8(pre).len() as int;
            assert(b == encode_utf8(pre) + seq![c as u8] + encode_utf8(post));
            assert(b[k] == c as u8);
        }
    }
}

/// Every class name in a type that reading gives holds neither `;` nor `/`.
proof fn lemma_parsed_plain(s: Seq<u8>, p: int, tag: u8)
    requires
        spec_parse_with_tag(s, p, tag) is Ok,
    ensures
        plain_class_names(spec_parse_with_tag(s, p, tag)->Ok_0.0),
    decreases s.len() - p,
{
    if base_type_of_tag(tag) is Some {
    } else if tag == 76u8 {
        let e = semicolon_index(s, p);
        if 0 <= p <= s.len() {
            lemma_semicolon_index_bounds(s, p);
        } else {
            assert(e == s.len());
        }
        let name = slashes_to_dots(s.subrange(p, e));
        assert forall|j: int| 0 <= j < name.len() implies #[trigger] name[j] != 59u8 && name[j] != 47u8 by {
            assert(s.subrange(p, e)[j] == s[p + j]);
        }
        lemma_decoded_avoids(name);
    } else {
        lemma_parsed_plain(s, p + 1, s[p]);
    }
}

/// Class names that reading gives hold neither `;` nor `/` (a name ends at
/// the first `;`, and each `/` is read as `.`), so printing a type that was
/// read and reading the printed text again gives the same type.
pub proof fn law_parse_after_print_of_parsed(s: Seq<u8>, p: int, rest: Seq<u8>)
    requires
        spec_parse_field_type(s, p) is Ok,
    ensures
        plain_class_names(spec_parse_field_type(s, p)->Ok_0.0),
        ({
            let t = spec_parse_field_type(s, p)->Ok_0.0;
            spec_parse_field_type(encode_utf8(spec_field_type_chars(t)) + rest, 0)
                == Ok::<(SpecFieldType, int), crate::classfile::error::ClassFileError>(
                (t, encode_utf8(spec_field_type_chars(t)).len() as int),
            )
        }),
{
    lemma_parsed_plain(s, p + 1, s[p]);
    law_field_type_descriptor_round_trip(spec_parse_field_type(s, p)->Ok_0.0, rest);
}

/// The letter of a primitive type in a descriptor, from the class file
/// format's table: `B` byte, `C` char, `D` double, `F` float, `I` int, `J`
/// long, `S` short, `Z` boolean.
pub open spec fn jvm_descriptor_letter(b: crate::classfile::descriptors::BaseType) -> char {
    match b {
        crate::classfile::descriptors::BaseType::Byte => 'B',
        crate::classfile::descriptors::BaseType::Char => 'C',
        crate::classfile::descriptors::BaseType::Double => 'D',
        crate::classfile::descriptors::BaseType::Float => 'F',
        crate::classfile::descriptors::BaseType::Int => 'I',
        crate::classfile::descriptors::BaseType::Long => 'J',
        crate::classfile::descriptors::BaseType::Short => 'S',
        crate::classfile::descriptors::BaseType::Boolean => 'Z',
    }
}

/// Primitive types are read and printed by the format's letters: reading a
/// tag gives the primitive type whose letter it is, and printing a
/// primitive type gives its letter; object and array types start with `L`
/// and `[`.
pub proof fn law_descriptor_letters_follow_the_format(tag: u8, b: crate::classfile::descriptors::BaseType)
    ensures
        base_type_of_tag(tag) == Some(b) ==> tag as u32 == jvm_descriptor_letter(b) as u32,
        base_type_char(b) == jvm_descriptor_letter(b),
        spec_field_type_chars(SpecFieldType::Base(b)) == seq![jvm_descriptor_letter(b)],
{
}

} // verus!
