//! Mangled symbols tell apart what they name: different field types mangle
//! to different texts, and methods that differ only in their parameter
//! types get different symbols.
use vstd::prelude::*;
use vstd::utf8::{encode_utf8, encode_scalar};
use crate::classfile::descriptors::{BaseType, SpecFieldType};
use crate::classfile::descriptor_laws::lemma_encode_utf8_concat;
use crate::compiler::mangle::{
    segments, utf8_len, length_prefixed, length_prefixed_all, mangled_field_type, mangled_field_types,
    spec_mangle_method_name, lemma_segments_nonempty,
};
use crate::text::{decimal, digit_char};
use crate::classfile::descriptors::SpecReturnType;

verus! {

/// Whether `c` is an ASCII digit.
pub open spec fn is_digit(c: char) -> bool {
    48 <= c as int <= 57
}

/// A piece of a class name as Java writes one: not empty, and not starting
/// with a digit (and, held in memory, its UTF-8 length fits in a `usize`).
pub open spec fn identifier_like(seg: Seq<char>) -> bool {
    &&& seg.len() > 0
    &&& !is_digit(seg[0])
    &&& encode_utf8(seg).len() <= usize::MAX
}

/// Whether every `.`-separated piece of a class name is identifier-like.
pub open spec fn java_class_name(n: Seq<char>) -> bool {
    forall|i: int| 0 <= i < segments(n, '.').len() ==> #[trigger] identifier_like(segments(n, '.')[i])
}

/// Whether every class name in a field type is a Java class name.
pub open spec fn java_names(t: SpecFieldType) -> bool
    decreases t,
{
    match t {
        SpecFieldType::Base(_) => true,
        SpecFieldType::Object(n) => java_class_name(n),
        SpecFieldType::Array(c) => java_names(*c),
    }
}

/// The digits of a number are digits, and there is at least one.
proof fn lemma_decimal_digits(n: nat)
    ensures
        decimal(n).len() >= 1,
        forall|i: int| 0 <= i < decimal(n).len() ==> #[trigger] is_digit(decimal(n)[i]),
    decreases n,
{
    if n >= 10 {
        lemma_decimal_digits(n / 10);
        assert(is_digit(digit_char(n % 10)));
    } else {
        assert(is_digit(digit_char(n)));
    }
}

/// Different numbers have different digits.
proof fn lemma_decimal_injective(a: nat, b: nat)
    requires
        decimal(a) == decimal(b),
    ensures
        a == b,
    decreases a,
{
    if a < 10 && b < 10 {
        assert(decimal(a)[0] == digit_char(a));
        assert(decimal(b)[0] == digit_char(b));
    } else if a < 10 {
        lemma_decimal_digits(b / 10);
        assert(decimal(b).len() >= 2);
    } else if b < 10 {
        lemma_decimal_digits(a / 10);
        assert(decimal(a).len() >= 2);
    } else {
        assert(decimal(a).last() == digit_char(a % 10));
        assert(decimal(b).last() == digit_char(b % 10));
        assert(decimal(a / 10) == decimal(a).drop_last());
        assert(decimal(b / 10) == decimal(b).drop_last());
        lemma_decimal_injective(a / 10, b / 10);
    }
}

/// Every character takes at least one byte.
proof fn lemma_utf8_at_least_chars(x: Seq<char>)
    ensures
        encode_utf8(x).len() >= x.len(),
    decreases x.len(),
{
    if x.len() > 0 {
        lemma_utf8_at_least_chars(x.drop_first());
        assert(encode_scalar(x[0] as u32).len() >= 1);
    }
}

/// Two texts that start the same sequence and take the same number of
/// bytes are the same.
proof fn lemma_same_bytes_prefix(x: Seq<char>, r1: Seq<char>, y: Seq<char>, r2: Seq<char>)
    requires
        x + r1 == y + r2,
        encode_utf8(x).len() == encode_utf8(y).len(),
    ensures
        x == y,
        r1 == r2,
{
    if x.len() < y.len() {
        let z = y.subrange(x.len() as int, y.len() as int);
        assert(y =~= x + z) by {
            assert forall|i: int| 0 <= i < x.len() implies y[i] == x[i] by {
                assert((x + r1)[i] == x[i]);
                assert((y + r2)[i] == y[i]);
            }
        }
        lemma_encode_utf8_concat(x, z);
        lemma_utf8_at_least_chars(z);
    } else if y.len() < x.len() {
        let z = x.subrange(y.len() as int, x.len() as int);
        assert(x =~= y + z) by {
            assert forall|i: int| 0 <= i < y.len() implies x[i] == y[i] by {
                assert((x + r1)[i] == x[i]);
                assert((y + r2)[i] == y[i]);
            }
        }
        lemma_encode_utf8_concat(y, z);
        lemma_utf8_at_least_chars(z);
    }
    assert(x =~= (x + r1).subrange(0, x.len() as int));
    assert(y =~= (y + r2).subrange(0, y.len() as int));
    assert(r1 =~= (x + r1).subrange(x.len() as int, (x + r1).len() as int));
    assert(r2 =~= (y + r2).subrange(y.len() as int, (y + r2).len() as int));
}

/// A length-prefixed identifier-like name is read back from the start of a
/// text: where two such names start the same text, they are the same name.
proof fn lemma_length_prefixed_prefix(x: Seq<char>, r1: Seq<char>, y: Seq<char>, r2: Seq<char>)
    requires
        identifier_like(x),
        identifier_like(y),
        length_prefixed(x) + r1 == length_prefixed(y) + r2,
    ensures
        x == y,
        r1 == r2,
{
    let da = decimal(utf8_len(x));
    let db = decimal(utf8_len(y));
    let s = length_prefixed(x) + r1;
    lemma_decimal_digits(utf8_len(x));
    lemma_decimal_digits(utf8_len(y));
    assert(s =~= da + (x + r1));
    assert(s =~= db + (y + r2));
    if da.len() < db.len() {
        assert(s[da.len() as int] == x[0]);
        assert(s[da.len() as int] == db[da.len() as int]);
        assert(is_digit(db[da.len() as int]));
    } else if db.len() < da.len() {
        assert(s[db.len() as int] == y[0]);
        assert(s[db.len() as int] == da[db.len() as int]);
        assert(is_digit(da[db.len() as int]));
    }
    assert(da =~= s.subrange(0, da.len() as int));
    assert(db =~= s.subrange(0, db.len() as int));
    lemma_decimal_injective(utf8_len(x), utf8_len(y));
    assert(x + r1 =~= s.subrange(da.len() as int, s.len() as int));
    assert(y + r2 =~= s.subrange(db.len() as int, s.len() as int));
    lemma_same_bytes_prefix(x, r1, y, r2);
}

/// The length-prefixed names, first name first.
proof fn lemma_length_prefixed_all_first(names: Seq<Seq<char>>)
    requires
        names.len() > 0,
    ensures
        length_prefixed_all(names) == length_prefixed(names[0]) + length_prefixed_all(names.drop_first()),
    decreases names.len(),
{
    if names.len() == 1 {
        assert(names.drop_first() =~= Seq::<Seq<char>>::empty());
        assert(names.drop_last() =~= Seq::<Seq<char>>::empty());
        assert(length_prefixed_all(names) =~= length_prefixed(names[0]) + length_prefixed_all(names.drop_first()));
    } else {
        lemma_length_prefixed_all_first(names.drop_last());
        assert(names.drop_last().drop_first() =~= names.drop_first().drop_last());
        assert(names.drop_first().last() == names.last());
        assert(names.drop_last()[0] == names[0]);
        assert(length_prefixed_all(names) =~= length_prefixed(names[0]) + length_prefixed_all(names.drop_first()));
    }
}

/// A list of length-prefixed identifier-like names closed by `E` is read
/// back from the start of a text.
proof fn lemma_names_prefix(a: Seq<Seq<char>>, r1: Seq<char>, b: Seq<Seq<char>>, r2: Seq<char>)
    requires
        forall|i: int| 0 <= i < a.len() ==> #[trigger] identifier_like(a[i]),
        forall|i: int| 0 <= i < b.len() ==> #[trigger] identifier_like(b[i]),
        length_prefixed_all(a) + seq!['E'] + r1 == length_prefixed_all(b) + seq!['E'] + r2,
    ensures
        a == b,
        r1 == r2,
    decreases a.len(),
{
    let s = length_prefixed_all(a) + seq!['E'] + r1;
    if a.len() == 0 && b.len() == 0 {
        assert(length_prefixed_all(a) =~= Seq::<char>::empty());
        assert(length_prefixed_all(b) =~= Seq::<char>::empty());
        assert(r1 =~= s.drop_first());
        assert(r2 =~= s.drop_first());
        assert(a =~= b);
    } else if a.len() == 0 {
        lemma_length_prefixed_all_first(b);
        lemma_decimal_digits(utf8_len(b[0]));
        assert(s[0] == 'E');
        assert(s[0] == decimal(utf8_len(b[0]))[0]);
        assert(is_digit(decimal(utf8_len(b[0]))[0]));
    } else if b.len() == 0 {
        lemma_length_prefixed_all_first(a);
        lemma_decimal_digits(utf8_len(a[0]));
        assert(s[0] == 'E');
        assert(s[0] == decimal(utf8_len(a[0]))[0]);
        assert(is_digit(decimal(utf8_len(a[0]))[0]));
    } else {
        lemma_length_prefixed_all_first(a);
        lemma_length_prefixed_all_first(b);
        let ta = length_prefixed_all(a.drop_first()) + seq!['E'] + r1;
        let tb = length_prefixed_all(b.drop_first()) + seq!['E'] + r2;
        assert(s =~= length_prefixed(a[0]) + ta);
        assert(s =~= length_prefixed(b[0]) + tb);
        assert(identifier_like(a[0]));
        assert(identifier_like(b[0]));
        lemma_length_prefixed_prefix(a[0], ta, b[0], tb);
        assert forall|i: int| 0 <= i < a.drop_first().len() implies #[trigger] identifier_like(a.drop_first()[i]) by {
            assert(a.drop_first()[i] == a[i + 1]);
        }
        assert forall|i: int| 0 <= i < b.drop_first().len() implies #[trigger] identifier_like(b.drop_first()[i]) by {
            assert(b.drop_first()[i] == b[i + 1]);
        }
        lemma_names_prefix(a.drop_first(), r1, b.drop_first(), r2);
        assert(a =~= seq![a[0]] + a.drop_first());
        assert(b =~= seq![b[0]] + b.drop_first());
    }
}

/// Pieces put back together with `sep` between them.
pub open spec fn joined_with(segs: Seq<Seq<char>>, sep: char) -> Seq<char>
    decreases segs.len(),
{
    if segs.len() == 0 {
        Seq::empty()
    } else if segs.len() == 1 {
        segs[0]
    } else {
        joined_with(segs.drop_last(), sep) + seq![sep] + segs.last()
    }
}

/// Putting the pieces of a text back together gives the text.
proof fn lemma_join_segments(s: Seq<char>, sep: char)
    ensures
        joined_with(segments(s, sep), sep) == s,
    decreases s.len(),
{
    if s.len() > 0 {
        let init = segments(s.drop_last(), sep);
        lemma_join_segments(s.drop_last(), sep);
        lemma_segments_nonempty(s.drop_last(), sep);
        let segs = segments(s, sep);
        if s.last() == sep {
            assert(segs.drop_last() =~= init);
            assert(joined_with(segs, sep) =~= s);
        } else {
            let l = init.len() - 1;
            if init.len() == 1 {
                assert(segs.len() == 1);
                assert(joined_with(segs, sep) =~= s);
            } else {
                assert(segs.drop_last() =~= init.drop_last());
                assert(segs.last() == init.last().push(s.last()));
                assert(joined_with(init, sep) == joined_with(init.drop_last(), sep) + seq![sep] + init.last());
                assert(joined_with(segs, sep) == joined_with(init.drop_last(), sep) + seq![sep] + segs.last());
                assert(s =~= s.drop_last().push(s.last()));
                assert(joined_with(segs, sep) =~= s);
            }
        }
    }
}

/// Texts with the same pieces are the same.
proof fn lemma_segments_injective(a: Seq<char>, b: Seq<char>, sep: char)
    requires
        segments(a, sep) == segments(b, sep),
    ensures
        a == b,
{
    lemma_join_segments(a, sep);
    lemma_join_segments(b, sep);
}

/// The first character of a mangled field type says what kind of type it is.
proof fn lemma_mangled_first(t: SpecFieldType)
    ensures
        mangled_field_type(t).len() >= 1,
        mangled_field_type(t)[0] == (match t {
            SpecFieldType::Base(b) => match b {
                BaseType::Byte | BaseType::Char | BaseType::Boolean => 'u',
                BaseType::Double => 'd',
                BaseType::Float => 'f',
                BaseType::Int => 'i',
                BaseType::Long => 'l',
                BaseType::Short => 's',
            },
            SpecFieldType::Object(_) => 'N',
            SpecFieldType::Array(_) => 'A',
        }),
{
}

/// A mangled field type is read back from the start of a text: where two
/// mangled field types start the same text, they are the same type.
proof fn lemma_mangled_prefix(t1: SpecFieldType, r1: Seq<char>, t2: SpecFieldType, r2: Seq<char>)
    requires
        java_names(t1),
        java_names(t2),
        mangled_field_type(t1) + r1 == mangled_field_type(t2) + r2,
    ensures
        t1 == t2,
        r1 == r2,
    decreases t1,
{
    let m1 = mangled_field_type(t1);
    let m2 = mangled_field_type(t2);
    let s = m1 + r1;
    lemma_mangled_first(t1);
    lemma_mangled_first(t2);
    assert(s[0] == m1[0]);
    assert(s[0] == m2[0]);
    match (t1, t2) {
        (SpecFieldType::Base(b1), SpecFieldType::Base(b2)) => {
            if m1.len() > 1 && m2.len() > 1 {
                assert(s[1] == m1[1]);
                assert(s[1] == m2[1]);
            }
            if m1.len() > 2 && m2.len() > 2 {
                assert(s[2] == m1[2]);
                assert(s[2] == m2[2]);
            }
            assert(b1 == b2);
            assert(r1 =~= s.subrange(m1.len() as int, s.len() as int));
            assert(r2 =~= s.subrange(m2.len() as int, s.len() as int));
        },
        (SpecFieldType::Object(n1), SpecFieldType::Object(n2)) => {
            let a = segments(n1, '.');
            let b = segments(n2, '.');
            assert(s.drop_first() =~= length_prefixed_all(a) + seq!['E'] + r1);
            assert(s.drop_first() =~= length_prefixed_all(b) + seq!['E'] + r2);
            lemma_names_prefix(a, r1, b, r2);
            lemma_segments_injective(n1, n2, '.');
        },
        (SpecFieldType::Array(c1), SpecFieldType::Array(c2)) => {
            assert(s.subrange(2, s.len() as int) =~= mangled_field_type(*c1) + r1);
            assert(s.subrange(2, s.len() as int) =~= mangled_field_type(*c2) + r2);
            lemma_mangled_prefix(*c1, r1, *c2, r2);
        },
        _ => {},
    }
}

/// Different field types mangle to different texts (for class names as
/// Java writes them).
pub proof fn law_mangled_field_types_differ(t1: SpecFieldType, t2: SpecFieldType)
    requires
        java_names(t1),
        java_names(t2),
        t1 != t2,
    ensures
        mangled_field_type(t1) != mangled_field_type(t2),
{
    if mangled_field_type(t1) == mangled_field_type(t2) {
        let e = Seq::<char>::empty();
        assert(mangled_field_type(t1) + e =~= mangled_field_type(t2) + e);
        lemma_mangled_prefix(t1, e, t2, e);
    }
}

/// The mangled field types, first type first.
proof fn lemma_mangled_types_first(ts: Seq<SpecFieldType>)
    requires
        ts.len() > 0,
    ensures
        mangled_field_types(ts) == mangled_field_type(ts[0]) + mangled_field_types(ts.drop_first()),
    decreases ts.len(),
{
    if ts.len() == 1 {
        assert(ts.drop_first() =~= Seq::<SpecFieldType>::empty());
        assert(ts.drop_last() =~= Seq::<SpecFieldType>::empty());
        assert(mangled_field_types(ts) =~= mangled_field_type(ts[0]) + mangled_field_types(ts.drop_first()));
    } else {
        lemma_mangled_types_first(ts.drop_last());
        assert(ts.drop_last().drop_first() =~= ts.drop_first().drop_last());
        assert(ts.drop_first().last() == ts.last());
        assert(ts.drop_last()[0] == ts[0]);
        assert(mangled_field_types(ts) =~= mangled_field_type(ts[0]) + mangled_field_types(ts.drop_first()));
    }
}

/// Lists of field types with the same mangled text are the same list.
proof fn lemma_mangled_types_injective(a: Seq<SpecFieldType>, b: Seq<SpecFieldType>)
    requires
        forall|i: int| 0 <= i < a.len() ==> #[trigger] java_names(a[i]),
        forall|i: int| 0 <= i < b.len() ==> #[trigger] java_names(b[i]),
        mangled_field_types(a) == mangled_field_types(b),
    ensures
        a == b,
    decreases a.len(),
{
    if a.len() == 0 && b.len() == 0 {
        assert(a =~= b);
    } else if a.len() == 0 {
        lemma_mangled_types_first(b);
        lemma_mangled_first(b[0]);
        assert(mangled_field_types(a).len() == 0);
        assert(mangled_field_types(b).len() >= 1);
    } else if b.len() == 0 {
        lemma_mangled_types_first(a);
        lemma_mangled_first(a[0]);
        assert(mangled_field_types(b).len() == 0);
        assert(mangled_field_types(a).len() >= 1);
    } else {
        lemma_mangled_types_first(a);
        lemma_mangled_types_first(b);
        assert(java_names(a[0]));
        assert(java_names(b[0]));
        lemma_mangled_prefix(a[0], mangled_field_types(a.drop_first()), b[0], mangled_field_types(b.drop_first()));
        assert forall|i: int| 0 <= i < a.drop_first().len() implies #[trigger] java_names(a.drop_first()[i]) by {
            assert(a.drop_first()[i] == a[i + 1]);
        }
        assert forall|i: int| 0 <= i < b.drop_first().len() implies #[trigger] java_names(b.drop_first()[i]) by {
            assert(b.drop_first()[i] == b[i + 1]);
        }
        lemma_mangled_types_injective(a.drop_first(), b.drop_first());
        assert(a =~= seq![a[0]] + a.drop_first());
        assert(b =~= seq![b[0]] + b.drop_first());
    }
}

/// Overloaded methods get different symbols: two methods of one class with
/// one name, return type and hash, but different parameter types (with
/// class names as Java writes them), are mangled differently.
pub proof fn law_overloads_get_different_symbols(
    class: Seq<char>,
    method: Seq<char>,
    ret: SpecReturnType,
    p1: Seq<SpecFieldType>,
    p2: Seq<SpecFieldType>,
    hash: u64,
)
    requires
        forall|i: int| 0 <= i < p1.len() ==> #[trigger] java_names(p1[i]),
        forall|i: int| 0 <= i < p2.len() ==> #[trigger] java_names(p2[i]),
        p1 != p2,
    ensures
        spec_mangle_method_name(class, method, ret, p1, hash) != spec_mangle_method_name(class, method, ret, p2, hash),
{
    let x1 = if p1.len() == 0 { seq!['v'] } else { mangled_field_types(p1) };
    let x2 = if p2.len() == 0 { seq!['v'] } else { mangled_field_types(p2) };
    let s1 = spec_mangle_method_name(class, method, ret, p1, hash);
    let s2 = spec_mangle_method_name(class, method, ret, p2, hash);
    let head = s1.subrange(0, s1.len() - x1.len());
    assert(s1 =~= head + x1);
    assert(s2 =~= head + x2);
    if s1 == s2 {
        assert(x1 =~= s1.subrange(head.len() as int, s1.len() as int));
        assert(x2 =~= s2.subrange(head.len() as int, s2.len() as int));
        if p1.len() == 0 && p2.len() == 0 {
            assert(p1 =~= p2);
        } else if p1.len() == 0 {
            lemma_mangled_types_first(p2);
            lemma_mangled_first(p2[0]);
            assert(x2[0] == mangled_field_type(p2[0])[0]);
        } else if p2.len() == 0 {
            lemma_mangled_types_first(p1);
            lemma_mangled_first(p1[0]);
            assert(x1[0] == mangled_field_type(p1[0])[0]);
        } else {
            lemma_mangled_types_injective(p1, p2);
        }
    }
}

/// An Itanium vendor-extended type: `u`, the length of its name, the name.
pub open spec fn vendor_type(name: Seq<char>) -> Seq<char> {
    seq!['u'] + decimal(name.len()) + name
}

/// The Itanium C++ ABI's code of a primitive type: one letter for those C++
/// has (`d` double, `f` float, `i` int, `l` long, `s` short), a
/// vendor-extended name for `byte`, `char` and `boolean`.
pub open spec fn itanium_builtin(b: BaseType) -> Seq<char> {
    match b {
        BaseType::Double => seq!['d'],
        BaseType::Float => seq!['f'],
        BaseType::Int => seq!['i'],
        BaseType::Long => seq!['l'],
        BaseType::Short => seq!['s'],
        BaseType::Byte => vendor_type(seq!['b', 'y', 't', 'e']),
        BaseType::Char => vendor_type(seq!['c', 'h', 'a', 'r']),
        BaseType::Boolean => vendor_type(seq!['b', 'o', 'o', 'l', 'e', 'a', 'n']),
    }
}

/// Primitive types are mangled with their Itanium C++ ABI codes.
pub proof fn law_primitive_types_use_itanium_codes(b: BaseType)
    ensures
        mangled_field_type(SpecFieldType::Base(b)) == itanium_builtin(b),
{
    assert(decimal(4) =~= seq!['4']);
    assert(decimal(7) =~= seq!['7']);
    assert(itanium_builtin(b) =~= mangled_field_type(SpecFieldType::Base(b)));
}

} // verus!
