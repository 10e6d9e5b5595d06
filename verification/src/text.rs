//! Small string-building helpers over `String`.
use vstd::prelude::*;
use vstd::utf8::*;

verus! {

/// Appends one character to a string (`String::push`).
#[verifier::external_body]
pub(crate) fn push_char(s: &mut String, c: char)
    ensures
        final(s)@ == old(s)@.push(c),
{
    s.push(c)
}

/// The character of a digit below 16, lower case for 10 to 15.
pub open spec fn digit_char(d: nat) -> char {
    if d < 10 {
        (48 + d) as char
    } else {
        (87 + d) as char
    }
}

/// The decimal digits of `n`, most significant first, without leading zeros.
pub open spec fn decimal(n: nat) -> Seq<char>
    decreases n,
{
    if n < 10 {
        seq![digit_char(n)]
    } else {
        decimal(n / 10).push(digit_char(n % 10))
    }
}

/// The lowest `count` hexadecimal digits of `v`, most significant first.
pub open spec fn hex_digits(v: nat, count: nat) -> Seq<char>
    decreases count,
{
    if count == 0 {
        Seq::empty()
    } else {
        hex_digits(v / 16, (count - 1) as nat).push(digit_char(v % 16))
    }
}

/// Appends the decimal digits of `n`.
pub(crate) fn push_decimal(out: &mut String, n: u64)
    ensures
        final(out)@ == old(out)@ + decimal(n as nat),
    decreases n,
{
    if n >= 10 {
        push_decimal(out, n / 10);
    }
    let d: u8 = (n % 10) as u8;
    push_char(out, (48u8 + d) as char);
    assert(out@ =~= old(out)@ + decimal(n as nat));
}

/// Appends the lowest `count` hexadecimal digits of `v`.
pub(crate) fn push_hex(out: &mut String, v: u32, count: u32)
    ensures
        final(out)@ == old(out)@ + hex_digits(v as nat, count as nat),
    decreases count,
{
    if count > 0 {
        push_hex(out, v / 16, count - 1);
        let d: u8 = (v % 16) as u8;
        let c = if d < 10 { (48u8 + d) as char } else { (87u8 + d) as char };
        push_char(out, c);
        assert(out@ =~= old(out)@ + hex_digits(v as nat, count as nat));
    }
}

/// The decimal digits of `n`, with a minus sign when it is negative.
pub open spec fn signed_decimal(n: int) -> Seq<char> {
    if n < 0 {
        seq!['-'] + decimal((-n) as nat)
    } else {
        decimal(n as nat)
    }
}

/// Appends the decimal digits of `n`, with a minus sign when negative.
pub(crate) fn push_signed_decimal(out: &mut String, n: i64)
    ensures
        final(out)@ == old(out)@ + signed_decimal(n as int),
{
    if n < 0 {
        push_char(out, '-');
        let m: u64 = (0i128 - n as i128) as u64;
        push_decimal(out, m);
        assert(out@ =~= old(out)@ + signed_decimal(n as int));
    } else {
        push_decimal(out, n as u64);
    }
}

/// A comma and a space, which separate the items of a debug text.
pub open spec fn comma() -> Seq<char> {
    seq![',', ' ']
}

/// Items one after the other, separated by a comma and a space.
pub open spec fn joined(items: Seq<Seq<char>>) -> Seq<char>
    decreases items.len(),
{
    if items.len() == 0 {
        Seq::empty()
    } else if items.len() == 1 {
        items[0]
    } else {
        joined(items.drop_last()) + comma() + items.last()
    }
}

/// Items in square brackets, separated by commas, as `Debug` shows a list.
pub open spec fn list_text(items: Seq<Seq<char>>) -> Seq<char> {
    seq!['['] + joined(items) + seq![']']
}

/// A pair in round brackets, as `Debug` shows a tuple.
pub open spec fn pair_text(p: (i32, i32)) -> Seq<char> {
    seq!['('] + signed_decimal(p.0 as int) + comma() + signed_decimal(p.1 as int) + seq![')']
}

/// `prefix`, an unsigned number and a closing bracket.
pub open spec fn unsigned_field_text(prefix: Seq<char>, n: nat) -> Seq<char> {
    prefix + decimal(n) + seq![')']
}

/// `prefix`, a signed number and a closing bracket.
pub open spec fn signed_field_text(prefix: Seq<char>, n: int) -> Seq<char> {
    prefix + signed_decimal(n) + seq![')']
}

/// Appends a comma and a space.
pub(crate) fn push_comma(out: &mut String)
    ensures
        final(out)@ == old(out)@ + comma(),
{
    push_char(out, ',');
    push_char(out, ' ');
    assert(out@ =~= old(out)@ + comma());
}

/// `prefix`, the decimal digits of `n` and a closing bracket.
pub(crate) fn unsigned_field(prefix: &str, n: u64) -> (r: String)
    ensures
        r@ == unsigned_field_text(prefix@, n as nat),
{
    let mut out = String::from_str(prefix);
    push_decimal(&mut out, n);
    push_char(&mut out, ')');
    out
}

/// `prefix`, the signed decimal digits of `n` and a closing bracket.
pub(crate) fn signed_field(prefix: &str, n: i64) -> (r: String)
    ensures
        r@ == signed_field_text(prefix@, n as int),
{
    let mut out = String::from_str(prefix);
    push_signed_decimal(&mut out, n);
    push_char(&mut out, ')');
    out
}

/// One more item joined onto the items before it.
proof fn lemma_joined_step(items: Seq<Seq<char>>, i: int)
    requires
        0 <= i < items.len(),
    ensures
        joined(items.take(i + 1)) == (if i == 0 { items[0] } else { joined(items.take(i)) + comma() + items[i] }),
{
    assert(items.take(i + 1).drop_last() =~= items.take(i));
    if i == 0 {
        assert(items.take(1)[0] == items[0]);
    }
}

/// Appends a list of numbers as `Debug` shows it.
pub(crate) fn push_i32_list(out: &mut String, v: &Vec<i32>)
    ensures
        final(out)@ == old(out)@ + list_text(v@.map_values(|x: i32| signed_decimal(x as int))),
{
    let ghost items = v@.map_values(|x: i32| signed_decimal(x as int));
    push_char(out, '[');
    let mut i: usize = 0;
    while i < v.len()
        invariant
            i <= v.len(),
            items == v@.map_values(|x: i32| signed_decimal(x as int)),
            out@ == old(out)@ + seq!['['] + joined(items.take(i as int)),
        decreases v.len() - i,
    {
        let ghost before = out@;
        if i > 0 {
            push_comma(out);
        }
        push_signed_decimal(out, v[i] as i64);
        proof {
            lemma_joined_step(items, i as int);
            if i == 0 {
                assert(items.take(0) =~= Seq::<Seq<char>>::empty());
            }
        }
        i += 1;
        assert(out@ =~= old(out)@ + seq!['['] + joined(items.take(i as int)));
    }
    assert(items.take(i as int) =~= items);
    push_char(out, ']');
    assert(out@ =~= old(out)@ + list_text(items));
}

/// Appends a list of pairs of numbers as `Debug` shows it.
pub(crate) fn push_pair_list(out: &mut String, v: &Vec<(i32, i32)>)
    ensures
        final(out)@ == old(out)@ + list_text(v@.map_values(|p: (i32, i32)| pair_text(p))),
{
    let ghost items = v@.map_values(|p: (i32, i32)| pair_text(p));
    push_char(out, '[');
    let mut i: usize = 0;
    while i < v.len()
        invariant
            i <= v.len(),
            items == v@.map_values(|p: (i32, i32)| pair_text(p)),
            out@ == old(out)@ + seq!['['] + joined(items.take(i as int)),
        decreases v.len() - i,
    {
        if i > 0 {
            push_comma(out);
        }
        let (a, b) = v[i];
        push_char(out, '(');
        push_signed_decimal(out, a as i64);
        push_comma(out);
        push_signed_decimal(out, b as i64);
        push_char(out, ')');
        proof {
            lemma_joined_step(items, i as int);
            if i == 0 {
                assert(items.take(0) =~= Seq::<Seq<char>>::empty());
            }
        }
        i += 1;
        assert(out@ =~= old(out)@ + seq!['['] + joined(items.take(i as int)));
    }
    assert(items.take(i as int) =~= items);
    push_char(out, ']');
    assert(out@ =~= old(out)@ + list_text(items));
}

/// The text that std's `Debug` gives a string: in double quotes, with
/// quotes, backslashes, control and other unprintable characters escaped.
pub uninterp spec fn str_debug_text(s: Seq<char>) -> Seq<char>;

/// Formats a string slice with std's `Debug` for `str`
/// (`format!("{:?}", s)`); the text depends on the characters alone.
#[verifier::external_body]
pub(crate) fn str_debug(s: &str) -> (r: String)
    ensures
        r@ == str_debug_text(s@),
{
    format!("{:?}", s)
}

/// Decodes UTF-8 bytes into a string (`String::from_utf8`); `None` when the
/// bytes are not valid UTF-8.
#[verifier::external_body]
pub(crate) fn string_from_utf8(bytes: Vec<u8>) -> (r: Option<String>)
    ensures
        r is Some <==> valid_utf8(bytes@),
        r matches Some(s) ==> s@ == decode_utf8(bytes@),
{
    String::from_utf8(bytes).ok()
}

} // verus!

verus! {

/// Compares two string slices (`<str as PartialEq>::eq`).
#[verifier::external_body]
pub(crate) fn str_eq(a: &str, b: &str) -> (r: bool)
    ensures
        r == (a@ == b@),
{
    a == b
}

} // verus!
