//! The main section of a JAR manifest (`META-INF/MANIFEST.MF`): lines of the form
//! `Name: value`, read into a map that keeps the order in which names first appear.
use crate::jar::header_map::{
    entries_get, entries_insert, index_map_entries, index_map_get, index_map_insert, index_map_new,
    keys_distinct, law_insert_then_get,
};
use crate::text::string_from_utf8;
use indexmap::IndexMap;
use vstd::prelude::*;
use vstd::utf8::*;

verus! {

/// Why a manifest could not be read.
#[derive(Clone, Copy, Debug, PartialEq, Eq, Structural)]
pub enum ManifestError {
    /// A header name is not followed by `": "`.
    BadDelimiter,
}

/// The number of leading bytes of `s` that differ from `stop`.
pub open spec fn run_before(s: Seq<u8>, stop: u8) -> int
    decreases s.len(),
{
    if s.len() == 0 || s[0] == stop {
        0
    } else {
        1 + run_before(s.subrange(1, s.len() as int), stop)
    }
}

/// A byte that may appear in a header name: an ASCII letter or digit, `-` or `_`.
pub open spec fn is_name_byte(c: u8) -> bool {
    (0x30 <= c <= 0x39) || (0x41 <= c <= 0x5a) || (0x61 <= c <= 0x7a) || c == 0x2d || c == 0x5f
}

/// The number of leading name bytes of `s`.
pub open spec fn name_run(s: Seq<u8>) -> int
    decreases s.len(),
{
    if s.len() == 0 || !is_name_byte(s[0]) {
        0
    } else {
        1 + name_run(s.subrange(1, s.len() as int))
    }
}

/// `run_before` counts bytes of `s`.
pub proof fn lemma_run_before_bounds(s: Seq<u8>, stop: u8)
    ensures
        0 <= run_before(s, stop) <= s.len(),
    decreases s.len(),
{
    if s.len() > 0 && s[0] != stop {
        lemma_run_before_bounds(s.subrange(1, s.len() as int), stop);
    }
}

/// `run_before(s, stop)` is the index of the first `stop` in `s`, or its length.
pub proof fn lemma_run_before(s: Seq<u8>, stop: u8, r: int)
    requires
        0 <= r <= s.len(),
        forall|i: int| 0 <= i < r ==> s[i] != stop,
        r == s.len() || s[r] == stop,
    ensures
        run_before(s, stop) == r,
    decreases r,
{
    if r > 0 {
        let t = s.subrange(1, s.len() as int);
        assert forall|i: int| 0 <= i < r - 1 implies t[i] != stop by {
            assert(t[i] == s[i + 1]);
        }
        lemma_run_before(t, stop, r - 1);
    }
}

/// `name_run(s)` is the index of the first byte of `s` that is no name byte, or its length.
pub proof fn lemma_name_run(s: Seq<u8>, r: int)
    requires
        0 <= r <= s.len(),
        forall|i: int| 0 <= i < r ==> is_name_byte(s[i]),
        r == s.len() || !is_name_byte(s[r]),
    ensures
        name_run(s) == r,
    decreases r,
{
    if r > 0 {
        let t = s.subrange(1, s.len() as int);
        assert forall|i: int| 0 <= i < r - 1 implies is_name_byte(t[i]) by {
            assert(t[i] == s[i + 1]);
        }
        lemma_name_run(t, r - 1);
    }
}

/// A line without the carriage return that ends it, if one does.
pub open spec fn strip_carriage_return(line: Seq<u8>) -> Seq<u8> {
    if line.len() > 0 && line.last() == 0x0d {
        line.drop_last()
    } else {
        line
    }
}

/// The lines of a text, split as `str::lines` splits them: at each line feed, with
/// a carriage return just before the line feed removed, and no empty last line
/// after a final line feed.
pub open spec fn text_lines(b: Seq<u8>) -> Seq<Seq<u8>>
    decreases b.len(),
{
    if b.len() == 0 {
        seq![]
    } else {
        let j = run_before(b, 0x0a);
        proof {
            lemma_run_before_bounds(b, 0x0a);
        }
        if j == b.len() {
            seq![b]
        } else {
            seq![strip_carriage_return(b.subrange(0, j))] + text_lines(
                b.subrange(j + 1, b.len() as int),
            )
        }
    }
}

/// The index of the last byte of a line's header name. The name is the run of name
/// bytes at the start of the line; a line that starts with another byte still has
/// that one byte as its name.
pub open spec fn name_end(line: Seq<u8>) -> int {
    let k = name_run(line);
    if k == 0 {
        0
    } else {
        k - 1
    }
}

/// The line has `": "` right after its name.
pub open spec fn has_delimiter(line: Seq<u8>) -> bool {
    let e = name_end(line);
    line[e + 1] == 0x3a && line[e + 2] == 0x20
}

/// The bytes of a header's value, given the bytes after the delimiter: those before
/// the first NUL, or the NUL alone when the value starts with one.
pub open spec fn header_value(v: Seq<u8>) -> Seq<u8> {
    if v[0] == 0 {
        v.subrange(0, 1)
    } else {
        v.subrange(0, run_before(v, 0))
    }
}

/// The value part can be cut out: it is not empty, and it starts with a NUL or its
/// last byte before the first NUL is an ASCII character.
pub open spec fn value_readable(v: Seq<u8>) -> bool {
    &&& v.len() > 0
    &&& (v[0] == 0 || v[run_before(v, 0) - 1] <= 0x7f)
}

/// The line can be cut into name, delimiter and value at character boundaries: an
/// empty line, or one with room for the delimiter after its name, whose
/// one-byte name (when no name byte starts it) is an ASCII character, whose
/// delimiter ends at a character boundary, and whose value can be cut out when the
/// delimiter is there.
pub open spec fn line_readable(line: Seq<u8>) -> bool {
    line.len() == 0 || {
        let e = name_end(line);
        &&& e + 3 <= line.len()
        &&& (name_run(line) == 0 ==> line[0] <= 0x7f)
        &&& (e + 3 == line.len() || !is_continuation_byte(line[e + 3]))
        &&& (has_delimiter(line) ==> value_readable(line.subrange(e + 3, line.len() as int)))
    }
}

/// Reads lines in order into `entries`: empty lines are skipped, a header is
/// inserted (a repeated name takes the new value in its old place), and the first
/// line without the delimiter ends the reading with `BadDelimiter`. `None` when a
/// line is reached that cannot be read.
pub open spec fn parse_manifest_lines(
    lines: Seq<Seq<u8>>,
    entries: Seq<(Seq<char>, Seq<char>)>,
) -> Option<Result<Seq<(Seq<char>, Seq<char>)>, ManifestError>>
    decreases lines.len(),
{
    if lines.len() == 0 {
        Some(Ok(entries))
    } else {
        let line = lines[0];
        if !line_readable(line) {
            None
        } else if line.len() == 0 {
            parse_manifest_lines(lines.drop_first(), entries)
        } else if !has_delimiter(line) {
            Some(Err(ManifestError::BadDelimiter))
        } else {
            let e = name_end(line);
            let name = decode_utf8(line.subrange(0, e + 1));
            let value = decode_utf8(header_value(line.subrange(e + 3, line.len() as int)));
            parse_manifest_lines(lines.drop_first(), entries_insert(entries, name, value))
        }
    }
}

/// What reading the UTF-8 text of a manifest gives.
pub open spec fn manifest_outcome(text: Seq<u8>) -> Option<
    Result<Seq<(Seq<char>, Seq<char>)>, ManifestError>,
> {
    parse_manifest_lines(text_lines(text), seq![])
}

/// The main attributes of a manifest.
pub struct Manifest {
    main: IndexMap<String, String>,
}

impl View for Manifest {
    type V = Seq<(Seq<char>, Seq<char>)>;

    closed spec fn view(&self) -> Seq<(Seq<char>, Seq<char>)> {
        index_map_entries(self.main)
    }
}

proof fn lemma_parse_lines_distinct(
    lines: Seq<Seq<u8>>,
    entries: Seq<(Seq<char>, Seq<char>)>,
)
    requires
        keys_distinct(entries),
    ensures
        parse_manifest_lines(lines, entries) matches Some(Ok(e)) ==> keys_distinct(e),
    decreases lines.len(),
{
    if lines.len() > 0 {
        let line = lines[0];
        if line_readable(line) && line.len() > 0 && has_delimiter(line) {
            let e = name_end(line);
            let name = decode_utf8(line.subrange(0, e + 1));
            let value = decode_utf8(header_value(line.subrange(e + 3, line.len() as int)));
            law_insert_then_get(entries, name, value);
            lemma_parse_lines_distinct(lines.drop_first(), entries_insert(entries, name, value));
        } else {
            lemma_parse_lines_distinct(lines.drop_first(), entries);
        }
    }
}

/// A manifest that is read holds each header name once: a name given again
/// replaces the value it had.
pub proof fn law_manifest_names_distinct(text: Seq<u8>)
    ensures
        manifest_outcome(text) matches Some(Ok(e)) ==> keys_distinct(e),
{
    lemma_parse_lines_distinct(text_lines(text), seq![]);
}

/// A position in valid UTF-8 that holds no continuation byte, or its end, cuts it
/// at a character boundary.
proof fn lemma_cut(b: Seq<u8>, a: int)
    requires
        valid_utf8(b),
        0 <= a <= b.len(),
        a == b.len() || !is_continuation_byte(b[a]),
    ensures
        is_char_boundary(b, a),
{
    if a == b.len() {
        is_char_boundary_start_end_of_seq(b);
    } else {
        is_char_boundary_iff_not_is_continuation_byte(b, a);
    }
}

/// The bytes between two such positions are valid UTF-8.
proof fn lemma_valid_range(b: Seq<u8>, a: int, c: int)
    requires
        valid_utf8(b),
        0 <= a <= c <= b.len(),
        a == b.len() || !is_continuation_byte(b[a]),
        c == b.len() || !is_continuation_byte(b[c]),
    ensures
        valid_utf8(b.subrange(a, c)),
{
    lemma_cut(b, a);
    valid_utf8_split(b, a);
    let tail = b.subrange(a, b.len() as int);
    if c < b.len() {
        assert(tail[c - a] == b[c]);
    }
    lemma_cut(tail, c - a);
    valid_utf8_split(tail, c - a);
    assert(tail.subrange(0, c - a) =~= b.subrange(a, c));
}

/// After a character boundary that holds an ASCII byte comes another boundary.
proof fn lemma_boundary_after_ascii(b: Seq<u8>, i: int)
    requires
        valid_utf8(b),
        0 <= i < b.len(),
        is_char_boundary(b, i),
        b[i] <= 0x7f,
    ensures
        is_char_boundary(b, i + 1),
    decreases b.len(),
{
    let rest = pop_first_scalar(b);
    let n = length_of_first_scalar(b);
    assert(1 <= n <= b.len());
    if i == 0 {
        assert(n == 1);
        assert(is_char_boundary(rest, 0));
    } else {
        assert(is_char_boundary(rest, i - n));
        assert(0 <= i - n < rest.len());
        assert(rest[i - n] == b[i]);
        lemma_boundary_after_ascii(rest, i - n);
    }
}

/// In valid UTF-8, no continuation byte follows an ASCII byte.
proof fn lemma_after_ascii(b: Seq<u8>, i: int)
    requires
        valid_utf8(b),
        0 <= i < b.len(),
        b[i] <= 0x7f,
    ensures
        i + 1 == b.len() || !is_continuation_byte(b[i + 1]),
{
    lemma_cut(b, i);
    lemma_boundary_after_ascii(b, i);
    if i + 1 < b.len() {
        is_char_boundary_iff_not_is_continuation_byte(b, i + 1);
    }
}

/// The index of the first `x` in `bytes[from..to]`, or `to` when there is none.
fn find_byte(bytes: &[u8], from: usize, to: usize, x: u8) -> (j: usize)
    requires
        from <= to <= bytes@.len(),
    ensures
        from <= j <= to,
        j - from == run_before(bytes@.subrange(from as int, to as int), x),
        forall|i: int| from <= i < j ==> bytes@[i] != x,
        j < to ==> bytes@[j as int] == x,
{
    let mut j = from;
    while j < to && bytes[j] != x
        invariant
            from <= j <= to <= bytes@.len(),
            forall|i: int| from <= i < j ==> bytes@[i] != x,
        decreases to - j,
    {
        j = j + 1;
    }
    proof {
        let s = bytes@.subrange(from as int, to as int);
        assert forall|i: int| 0 <= i < j - from implies s[i] != x by {
            assert(s[i] == bytes@[from + i]);
        }
        lemma_run_before(s, x, j - from);
    }
    j
}

fn is_name_byte_exec(c: u8) -> (r: bool)
    ensures
        r == is_name_byte(c),
{
    (0x30 <= c && c <= 0x39) || (0x41 <= c && c <= 0x5a) || (0x61 <= c && c <= 0x7a) || c == 0x2d
        || c == 0x5f
}

/// The string whose UTF-8 encoding is `bytes[a..c]`.
fn utf8_string(bytes: &[u8], a: usize, c: usize) -> (s: String)
    requires
        a <= c <= bytes@.len(),
        valid_utf8(bytes@.subrange(a as int, c as int)),
    ensures
        s@ == decode_utf8(bytes@.subrange(a as int, c as int)),
{
    let mut v: Vec<u8> = Vec::new();
    let mut i = a;
    while i < c
        invariant
            a <= i <= c <= bytes@.len(),
            v@ == bytes@.subrange(a as int, i as int),
        decreases c - i,
    {
        v.push(bytes[i]);
        i = i + 1;
        assert(v@ =~= bytes@.subrange(a as int, i as int));
    }
    string_from_utf8(v).unwrap()
}

/// Reads the header on the non-empty line `bytes[start..end]`: its name and value,
/// or `None` when the name is not followed by `": "`.
fn read_header(bytes: &[u8], start: usize, end: usize) -> (r: Option<(String, String)>)
    requires
        valid_utf8(bytes@),
        start < end <= bytes@.len(),
        end == bytes@.len() || bytes@[end as int] <= 0x7f,
        line_readable(bytes@.subrange(start as int, end as int)),
    ensures
        ({
            let line = bytes@.subrange(start as int, end as int);
            let e = name_end(line);
            &&& r is None <==> !has_delimiter(line)
            &&& r matches Some((name, value)) ==> {
                &&& name@ == decode_utf8(line.subrange(0, e + 1))
                &&& value@ == decode_utf8(header_value(line.subrange(e + 3, line.len() as int)))
            }
        }),
{
    let ghost b = bytes@;
    let ghost line = b.subrange(start as int, end as int);
    let mut k = start;
    while k < end && is_name_byte_exec(bytes[k])
        invariant
            start <= k <= end <= bytes@.len(),
            forall|i: int| start <= i < k ==> is_name_byte(bytes@[i]),
        decreases end - k,
    {
        k = k + 1;
    }
    proof {
        assert forall|i: int| 0 <= i < k - start implies is_name_byte(line[i]) by {
            assert(line[i] == b[start + i]);
        }
        if k < end {
            assert(line[k - start] == b[k as int]);
        }
        lemma_name_run(line, k - start);
    }
    let e = if k == start {
        start
    } else {
        k - 1
    };
    assert(e - start == name_end(line));
    assert(line[e - start + 1] == b[e + 1]);
    assert(line[e - start + 2] == b[e + 2]);
    if !(bytes[e + 1] == 0x3a && bytes[e + 2] == 0x20) {
        return None;
    }
    let vs = e + 3;
    let ghost v = line.subrange(e - start + 3, line.len() as int);
    assert(v =~= b.subrange(vs as int, end as int));
    assert(v[0] == b[vs as int]);
    let vend = if bytes[vs] == 0 {
        vs + 1
    } else {
        find_byte(bytes, vs, end, 0)
    };
    proof {
        // The name starts at a name byte or at an ASCII byte and ends before the ':'.
        assert(line[0] == b[start as int]);
        lemma_valid_range(b, start as int, e + 1);
        assert(line.subrange(0, e - start + 1) =~= b.subrange(start as int, e + 1));
        // The value starts at a character boundary and ends at a NUL, at the end of
        // the line, or after a leading NUL.
        assert(line[e - start + 3] == b[vs as int]);
        if b[vs as int] == 0 {
            lemma_after_ascii(b, vs as int);
        } else if vend < end {
            assert(b[vend as int] == 0);
        }
        lemma_valid_range(b, vs as int, vend as int);
        assert(header_value(v) =~= b.subrange(vs as int, vend as int));
    }
    let name = utf8_string(bytes, start, e + 1);
    let value = utf8_string(bytes, vs, vend);
    Some((name, value))
}

/// Whether the line `bytes[start..end]` can be read (`line_readable`).
fn line_readable_exec(bytes: &[u8], start: usize, end: usize) -> (r: bool)
    requires
        start <= end <= bytes@.len(),
    ensures
        r == line_readable(bytes@.subrange(start as int, end as int)),
{
    let ghost b = bytes@;
    let ghost line = b.subrange(start as int, end as int);
    if start == end {
        return true;
    }
    let mut k = start;
    while k < end && is_name_byte_exec(bytes[k])
        invariant
            start <= k <= end <= bytes@.len(),
            forall|i: int| start <= i < k ==> is_name_byte(bytes@[i]),
        decreases end - k,
    {
        k = k + 1;
    }
    proof {
        assert forall|i: int| 0 <= i < k - start implies is_name_byte(line[i]) by {
            assert(line[i] == b[start + i]);
        }
        if k < end {
            assert(line[k - start] == b[k as int]);
        }
        lemma_name_run(line, k - start);
    }
    let e = if k == start {
        start
    } else {
        k - 1
    };
    assert(e - start == name_end(line));
    if end - e < 3 {
        return false;
    }
    assert(line[0] == b[start as int]);
    if k == start && bytes[start] > 0x7f {
        return false;
    }
    let vs = e + 3;
    if vs < end {
        assert(line[vs - start] == b[vs as int]);
        if 0x80 <= bytes[vs] && bytes[vs] <= 0xbf {
            return false;
        }
    }
    assert(line[e - start + 1] == b[e + 1]);
    assert(line[e - start + 2] == b[e + 2]);
    if !(bytes[e + 1] == 0x3a && bytes[e + 2] == 0x20) {
        return true;
    }
    let ghost v = line.subrange(e - start + 3, line.len() as int);
    assert(v =~= b.subrange(vs as int, end as int));
    if vs == end {
        return false;
    }
    assert(v[0] == b[vs as int]);
    if bytes[vs] == 0 {
        return true;
    }
    let j = find_byte(bytes, vs, end, 0);
    assert(j > vs);
    assert(v[j - vs - 1] == b[j - 1]);
    bytes[j - 1] <= 0x7f
}

impl Manifest {
    /// The value of the main attribute `name`, if the manifest has one.
    pub fn get(&self, name: &str) -> (r: Option<&str>)
        ensures
            r is Some <==> entries_get(self@, name@) is Some,
            r matches Some(v) ==> entries_get(self@, name@) == Some(v@),
    {
        match index_map_get(&self.main, name) {
            Some(v) => Some(v.as_str()),
            None => None,
        }
    }

    /// Reads the main section of a manifest from its text.
    pub fn parse(input: &str) -> (r: Result<Manifest, ManifestError>)
        requires
            manifest_outcome(encode_utf8(input@)) is Some,
        ensures
            match r {
                Ok(m) => manifest_outcome(encode_utf8(input@)) == Some(
                    Ok::<Seq<(Seq<char>, Seq<char>)>, ManifestError>(m@),
                ),
                Err(e) => manifest_outcome(encode_utf8(input@)) == Some(
                    Err::<Seq<(Seq<char>, Seq<char>)>, ManifestError>(e),
                ),
            },
    {
        match Manifest::parse_checked(input) {
            Some(r) => r,
            None => {
                assert(false);
                Err(ManifestError::BadDelimiter)
            },
        }
    }

    /// Reads the main section of a manifest from its text, first checking
    /// each line that it reaches: `None` when one of them cannot be cut into
    /// name and value at character boundaries.
    pub fn parse_checked(input: &str) -> (r: Option<Result<Manifest, ManifestError>>)
        ensures
            match r {
                None => manifest_outcome(encode_utf8(input@)) is None,
                Some(Ok(m)) => manifest_outcome(encode_utf8(input@)) == Some(
                    Ok::<Seq<(Seq<char>, Seq<char>)>, ManifestError>(m@),
                ),
                Some(Err(e)) => manifest_outcome(encode_utf8(input@)) == Some(
                    Err::<Seq<(Seq<char>, Seq<char>)>, ManifestError>(e),
                ),
            },
    {
        let bytes = input.as_bytes();
        let n = bytes.len();
        let ghost b = bytes@;
        proof {
            encode_utf8_valid_utf8(input@);
        }
        let mut main = index_map_new();
        let mut pos: usize = 0;
        assert(b.subrange(0, n as int) =~= b);
        while pos < n
            invariant
                b == bytes@,
                b == encode_utf8(input@),
                n == b.len(),
                pos <= n,
                valid_utf8(b),
                manifest_outcome(b) == parse_manifest_lines(
                    text_lines(b.subrange(pos as int, n as int)),
                    index_map_entries(main),
                ),
            decreases n - pos,
        {
            let j = find_byte(bytes, pos, n, 0x0a);
            let end = if j < n && j > pos && bytes[j - 1] == 0x0d {
                j - 1
            } else {
                j
            };
            let next = if j < n {
                j + 1
            } else {
                n
            };
            let ghost rest = b.subrange(pos as int, n as int);
            let ghost line = b.subrange(pos as int, end as int);
            let ghost later = b.subrange(next as int, n as int);
            let ghost acc = index_map_entries(main);
            proof {
                lemma_run_before_bounds(rest, 0x0a);
                assert(text_lines(rest) =~= seq![line] + text_lines(later)) by {
                    if j < n {
                        assert(rest.subrange(0, j - pos) =~= b.subrange(pos as int, j as int));
                        assert(strip_carriage_return(rest.subrange(0, j - pos)) =~= line);
                        assert(rest.subrange(j - pos + 1, rest.len() as int) =~= later);
                    } else {
                        assert(rest =~= line);
                        assert(later.len() == 0);
                    }
                }
                assert((seq![line] + text_lines(later))[0] == line);
                assert((seq![line] + text_lines(later)).drop_first() =~= text_lines(later));
            }
            if end > pos {
                assert(end == n || b[end as int] == 0x0a || b[end as int] == 0x0d);
                if !line_readable_exec(bytes, pos, end) {
                    return None;
                }
                match read_header(bytes, pos, end) {
                    None => {
                        return Some(Err(ManifestError::BadDelimiter));
                    },
                    Some((name, value)) => {
                        index_map_insert(&mut main, name, value);
                    },
                }
            }
            pos = next;
        }
        proof {
            assert(b.subrange(pos as int, n as int).len() == 0);
            assert(text_lines(b.subrange(pos as int, n as int)) =~= Seq::<Seq<u8>>::empty());
        }
        Some(Ok(Manifest { main }))
    }
}

} // verus!
