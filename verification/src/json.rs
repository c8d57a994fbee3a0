//! A small JSON reader and writer, sufficient for the gateway's wire format:
//! objects, strings with escapes, unsigned decimal numbers, and — so that
//! frames with forward-compatible extra fields still decode — arrays, booleans
//! and null. The specification-level parser and serializer are defined over
//! `Seq<char>`; the executable functions are proved to agree with them.

use vstd::prelude::*;
use vstd::string::StrSliceExecFns;
use vstd::string::StringExecFns;

verus! {

broadcast use vstd::seq::group_seq_axioms, vstd::std_specs::vec::group_vec_axioms;

/// A JSON value as read from or written to a text frame. Numbers are kept as
/// their raw token so that nothing is lost or rounded.
#[derive(Debug, PartialEq, Eq)]
pub enum JsonValue {
    Null,
    Bool(bool),
    Num(String),
    Str(String),
    Arr(Vec<JsonValue>),
    Obj(Vec<JsonMember>),
}

/// One `key: value` pair of a JSON object.
#[derive(Debug, PartialEq, Eq)]
pub struct JsonMember {
    pub key: String,
    pub value: JsonValue,
}

/// Mathematical value of a [`JsonValue`].
pub ghost enum JsonV {
    Null,
    Bool(bool),
    Num(Seq<char>),
    Str(Seq<char>),
    Arr(Seq<JsonV>),
    Obj(Seq<(Seq<char>, JsonV)>),
}

/// The mathematical value of a [`JsonValue`]. The bound checks in the
/// closures give the height axioms the index range they need.
pub open spec fn view_json(v: JsonValue) -> JsonV
    decreases v,
{
    match v {
        JsonValue::Null => JsonV::Null,
        JsonValue::Bool(b) => JsonV::Bool(b),
        JsonValue::Num(t) => JsonV::Num(t@),
        JsonValue::Str(t) => JsonV::Str(t@),
        JsonValue::Arr(es) => JsonV::Arr(view_elem_list(es)),
        JsonValue::Obj(ms) => JsonV::Obj(view_member_list(ms)),
    }
}

/// The mathematical values of a list of JSON array elements.
pub open spec fn view_elem_list(es: Vec<JsonValue>) -> Seq<JsonV>
    decreases es,
{
    Seq::new(
        es@.len(),
        |k: int|
            if 0 <= k < es@.len() {
                view_json(es[k])
            } else {
                JsonV::Null
            },
    )
}

/// The mathematical values of a list of JSON object members.
pub open spec fn view_member_list(ms: Vec<JsonMember>) -> Seq<(Seq<char>, JsonV)>
    decreases ms,
{
    Seq::new(
        ms@.len(),
        |k: int|
            if 0 <= k < ms@.len() {
                (ms[k].key@, view_json(ms[k].value))
            } else {
                (Seq::empty(), JsonV::Null)
            },
    )
}

// ---------------------------------------------------------------------------
// Character classes
// ---------------------------------------------------------------------------

/// JSON insignificant whitespace.
pub open spec fn is_ws(c: char) -> bool {
    c == ' ' || c == '\n' || c == '\r' || c == '\t'
}

/// A decimal digit.
pub open spec fn is_digit(c: char) -> bool {
    0x30 <= c as u32 <= 0x39
}

/// Any character that may occur in a number token. The reader scans number
/// tokens leniently; only tokens made of plain digits are later accepted as
/// unsigned integers.
pub open spec fn is_num_char(c: char) -> bool {
    is_digit(c) || c == '-' || c == '+' || c == '.' || c == 'e' || c == 'E'
}

/// The value of a hexadecimal digit, or -1 for any other character.
pub open spec fn hex_char_val(c: char) -> int {
    if is_digit(c) {
        c as u32 - 0x30
    } else if 0x61 <= c as u32 <= 0x66 {
        c as u32 - 0x61 + 10
    } else if 0x41 <= c as u32 <= 0x46 {
        c as u32 - 0x41 + 10
    } else {
        -1
    }
}

/// The character a single-character escape stands for, if the escape is known.
pub open spec fn spec_unescape(e: char) -> Option<char> {
    if e == '"' {
        Some('"')
    } else if e == '\\' {
        Some('\\')
    } else if e == '/' {
        Some('/')
    } else if e == 'b' {
        Some('\u{0008}')
    } else if e == 'f' {
        Some('\u{000C}')
    } else if e == 'n' {
        Some('\n')
    } else if e == 'r' {
        Some('\r')
    } else if e == 't' {
        Some('\t')
    } else {
        None
    }
}

// ---------------------------------------------------------------------------
// Specification-level reader
// ---------------------------------------------------------------------------

/// First position at or after `i` that does not hold whitespace.
pub open spec fn spec_ws_end(s: Seq<char>, i: int) -> int
    decreases s.len() - i,
{
    if 0 <= i && i < s.len() && is_ws(s[i]) {
        spec_ws_end(s, i + 1)
    } else {
        i
    }
}

/// End of the number token starting at `i`.
pub open spec fn spec_num_end(s: Seq<char>, i: int) -> int
    decreases s.len() - i,
{
    if 0 <= i && i < s.len() && is_num_char(s[i]) {
        spec_num_end(s, i + 1)
    } else {
        i
    }
}

/// The number token at `i`: its characters and the position after it. A token
/// must begin with a digit or a minus sign.
pub open spec fn spec_parse_num(s: Seq<char>, i: int) -> Option<(Seq<char>, int)> {
    if 0 <= i && i < s.len() && (is_digit(s[i]) || s[i] == '-') {
        Some((s.subrange(i, spec_num_end(s, i)), spec_num_end(s, i)))
    } else {
        None
    }
}

/// The four-digit hexadecimal value at `i`, or -1 if any of the four
/// characters is not a hexadecimal digit. Meaningful only when `i + 4` is in
/// range.
pub open spec fn spec_hex4(s: Seq<char>, i: int) -> int {
    if hex_char_val(s[i]) >= 0 && hex_char_val(s[i + 1]) >= 0 && hex_char_val(s[i + 2]) >= 0
        && hex_char_val(s[i + 3]) >= 0 {
        hex_char_val(s[i]) * 0x1000 + hex_char_val(s[i + 1]) * 0x100 + hex_char_val(s[i + 2]) * 0x10
            + hex_char_val(s[i + 3])
    } else {
        -1
    }
}

/// Body of a string literal, read from just after the opening quote: the
/// decoded characters and the position after the closing quote. Unescaped
/// control characters, unknown escapes, UTF-16 surrogate escapes, and a
/// missing closing quote are all rejected.
pub open spec fn spec_parse_str_body(s: Seq<char>, i: int) -> Option<(Seq<char>, int)>
    decreases s.len() - i,
{
    if i < 0 || i >= s.len() {
        None
    } else if s[i] == '"' {
        Some((Seq::empty(), i + 1))
    } else if s[i] == '\\' {
        if i + 1 >= s.len() {
            None
        } else if s[i + 1] == 'u' {
            if i + 6 <= s.len() && spec_hex4(s, i + 2) >= 0 && !(0xD800 <= spec_hex4(s, i + 2)
                < 0xE000) {
                match spec_parse_str_body(s, i + 6) {
                    Some((rest, j)) => Some((seq![(spec_hex4(s, i + 2) as u32) as char] + rest, j)),
                    None => None,
                }
            } else {
                None
            }
        } else {
            match spec_unescape(s[i + 1]) {
                Some(c) => match spec_parse_str_body(s, i + 2) {
                    Some((rest, j)) => Some((seq![c] + rest, j)),
                    None => None,
                },
                None => None,
            }
        }
    } else if (s[i] as u32) < 0x20 {
        None
    } else {
        match spec_parse_str_body(s, i + 1) {
            Some((rest, j)) => Some((seq![s[i]] + rest, j)),
            None => None,
        }
    }
}

/// A scan position after a sub-parse, forced to advance so that the recursion
/// over the remaining input is visibly bounded. Every parse in fact moves
/// forward ([`lemma_parse_value_bounds`]), so the forcing branch is never
/// taken on a position an actual parse produces.
pub open spec fn adv(i: int, j: int) -> int {
    if i < j {
        j
    } else {
        i + 1
    }
}

/// Whether the literal `lit` occurs in `s` at position `i`.
pub open spec fn lit_at(s: Seq<char>, i: int, lit: Seq<char>) -> bool {
    i + lit.len() <= s.len() && s.subrange(i, i + lit.len()) == lit
}

/// The JSON value at `i`, after any leading whitespace: the value and the
/// position just after it.
pub open spec fn spec_parse_value(s: Seq<char>, i: int) -> Option<(JsonV, int)>
    decreases s.len() - i, 0int,
{
    if i < 0 || i >= s.len() {
        None
    } else {
        let j = spec_ws_end(s, i);
        if !(0 <= j && j < s.len()) {
            None
        } else if s[j] == '{' {
            let j1 = spec_ws_end(s, j + 1);
            if 0 <= j1 && j1 < s.len() && s[j1] == '}' {
                Some((JsonV::Obj(Seq::empty()), j1 + 1))
            } else {
                match spec_parse_members(s, adv(i, j + 1)) {
                    Some((ms, k)) => Some((JsonV::Obj(ms), k)),
                    None => None,
                }
            }
        } else if s[j] == '[' {
            let j1 = spec_ws_end(s, j + 1);
            if 0 <= j1 && j1 < s.len() && s[j1] == ']' {
                Some((JsonV::Arr(Seq::empty()), j1 + 1))
            } else {
                match spec_parse_elems(s, adv(i, j + 1)) {
                    Some((es, k)) => Some((JsonV::Arr(es), k)),
                    None => None,
                }
            }
        } else if s[j] == '"' {
            match spec_parse_str_body(s, j + 1) {
                Some((t, k)) => Some((JsonV::Str(t), k)),
                None => None,
            }
        } else if s[j] == 't' {
            if lit_at(s, j, "true"@) {
                Some((JsonV::Bool(true), j + 4))
            } else {
                None
            }
        } else if s[j] == 'f' {
            if lit_at(s, j, "false"@) {
                Some((JsonV::Bool(false), j + 5))
            } else {
                None
            }
        } else if s[j] == 'n' {
            if lit_at(s, j, "null"@) {
                Some((JsonV::Null, j + 4))
            } else {
                None
            }
        } else {
            match spec_parse_num(s, j) {
                Some((t, k)) => Some((JsonV::Num(t), k)),
                None => None,
            }
        }
    }
}

/// The members of an object, read from just after the opening brace (or a
/// separating comma) when the object is not empty: the key/value pairs and
/// the position after the closing brace.
pub open spec fn spec_parse_members(s: Seq<char>, i: int) -> Option<(Seq<(Seq<char>, JsonV)>, int)>
    decreases s.len() - i, 1int,
{
    if i < 0 || i >= s.len() {
        None
    } else {
        let j = spec_ws_end(s, i);
        if !(0 <= j && j < s.len() && s[j] == '"') {
            None
        } else {
            match spec_parse_str_body(s, j + 1) {
                None => None,
                Some((key, j2)) => {
                    let j3 = spec_ws_end(s, j2);
                    if !(0 <= j3 && j3 < s.len() && s[j3] == ':') {
                        None
                    } else {
                        match spec_parse_value(s, adv(i, j3 + 1)) {
                            None => None,
                            Some((v, j4)) => {
                                let j5 = spec_ws_end(s, j4);
                                if 0 <= j5 && j5 < s.len() && s[j5] == ',' {
                                    match spec_parse_members(s, adv(i, j5 + 1)) {
                                        Some((rest, k)) => Some(
                                            (seq![(key, v)] + rest, k),
                                        ),
                                        None => None,
                                    }
                                } else if 0 <= j5 && j5 < s.len() && s[j5] == '}' {
                                    Some((seq![(key, v)], j5 + 1))
                                } else {
                                    None
                                }
                            },
                        }
                    }
                },
            }
        }
    }
}

/// The elements of an array, read from just after the opening bracket (or a
/// separating comma) when the array is not empty: the elements and the
/// position after the closing bracket.
pub open spec fn spec_parse_elems(s: Seq<char>, i: int) -> Option<(Seq<JsonV>, int)>
    decreases s.len() - i, 1int,
{
    if i < 0 || i >= s.len() {
        None
    } else {
        match spec_parse_value(s, i) {
            None => None,
            Some((v, j)) => {
                let j2 = spec_ws_end(s, j);
                if 0 <= j2 && j2 < s.len() && s[j2] == ',' {
                    match spec_parse_elems(s, adv(i, j2 + 1)) {
                        Some((rest, k)) => Some((seq![v] + rest, k)),
                        None => None,
                    }
                } else if 0 <= j2 && j2 < s.len() && s[j2] == ']' {
                    Some((seq![v], j2 + 1))
                } else {
                    None
                }
            },
        }
    }
}

/// The whole text `s` read as one JSON value: leading and trailing whitespace
/// is allowed, anything after the value is not.
pub open spec fn spec_parse_text(s: Seq<char>) -> Option<JsonV> {
    match spec_parse_value(s, 0) {
        Some((v, j)) => if spec_ws_end(s, j) == s.len() {
            Some(v)
        } else {
            None
        },
        None => None,
    }
}

// ---------------------------------------------------------------------------
// Bounds of the reader
// ---------------------------------------------------------------------------

/// Whitespace skipping stays inside the text and skips only whitespace.
pub proof fn lemma_ws_end_bounds(s: Seq<char>, i: int)
    requires
        0 <= i <= s.len(),
    ensures
        i <= spec_ws_end(s, i) <= s.len(),
        spec_ws_end(s, i) < s.len() ==> !is_ws(s[spec_ws_end(s, i)]),
    decreases s.len() - i,
{
    if i < s.len() && is_ws(s[i]) {
        lemma_ws_end_bounds(s, i + 1);
    }
}

/// Number scanning stays inside the text.
pub proof fn lemma_num_end_bounds(s: Seq<char>, i: int)
    requires
        0 <= i <= s.len(),
    ensures
        i <= spec_num_end(s, i) <= s.len(),
    decreases s.len() - i,
{
    if i < s.len() && is_num_char(s[i]) {
        lemma_num_end_bounds(s, i + 1);
    }
}

/// A parsed string body ends after its opening position, inside the text.
pub proof fn lemma_str_body_bounds(s: Seq<char>, i: int)
    ensures
        spec_parse_str_body(s, i) matches Some(p) ==> i < p.1 <= s.len(),
    decreases s.len() - i,
{
    if 0 <= i && i < s.len() {
        if s[i] == '\\' {
            if i + 1 < s.len() {
                if s[i + 1] == 'u' {
                    if i + 6 <= s.len() {
                        lemma_str_body_bounds(s, i + 6);
                    }
                } else {
                    lemma_str_body_bounds(s, i + 2);
                }
            }
        } else {
            lemma_str_body_bounds(s, i + 1);
        }
    }
}

/// A parsed number token ends after its opening position, inside the text.
pub proof fn lemma_parse_num_bounds(s: Seq<char>, i: int)
    ensures
        spec_parse_num(s, i) matches Some(p) ==> i < p.1 <= s.len(),
{
    if 0 <= i && i < s.len() && (is_digit(s[i]) || s[i] == '-') {
        lemma_num_end_bounds(s, i + 1);
        assert(is_num_char(s[i]));
        assert(spec_num_end(s, i) == spec_num_end(s, i + 1));
    }
}

/// Every successful value parse advances the scan position and stays inside
/// the text.
pub proof fn lemma_parse_value_bounds(s: Seq<char>, i: int)
    ensures
        spec_parse_value(s, i) matches Some(p) ==> i < p.1 <= s.len(),
    decreases s.len() - i, 0int,
{
    if 0 <= i && i < s.len() {
        lemma_ws_end_bounds(s, i);
        let j = spec_ws_end(s, i);
        if j < s.len() {
            if s[j] == '{' || s[j] == '[' {
                lemma_ws_end_bounds(s, j + 1);
                lemma_parse_members_bounds(s, adv(i, j + 1));
                lemma_parse_elems_bounds(s, adv(i, j + 1));
            } else if s[j] == '"' {
                lemma_str_body_bounds(s, j + 1);
            } else if s[j] == 't' || s[j] == 'f' || s[j] == 'n' {
                reveal_strlit("true");
                reveal_strlit("false");
                reveal_strlit("null");
            } else {
                lemma_parse_num_bounds(s, j);
            }
        }
    }
}

/// Every successful member-list parse advances the scan position and stays
/// inside the text.
pub proof fn lemma_parse_members_bounds(s: Seq<char>, i: int)
    ensures
        spec_parse_members(s, i) matches Some(q) ==> i < q.1 <= s.len(),
    decreases s.len() - i, 1int,
{
    if 0 <= i && i < s.len() {
        lemma_ws_end_bounds(s, i);
        let j = spec_ws_end(s, i);
        if j < s.len() && s[j] == '"' {
            lemma_str_body_bounds(s, j + 1);
            match spec_parse_str_body(s, j + 1) {
                Some((key, j2)) => {
                    lemma_ws_end_bounds(s, j2);
                    let j3 = spec_ws_end(s, j2);
                    if j3 < s.len() && s[j3] == ':' {
                        lemma_parse_value_bounds(s, adv(i, j3 + 1));
                        match spec_parse_value(s, adv(i, j3 + 1)) {
                            Some((v, j4)) => {
                                lemma_ws_end_bounds(s, j4);
                                let j5 = spec_ws_end(s, j4);
                                if j5 < s.len() && s[j5] == ',' {
                                    lemma_parse_members_bounds(s, adv(i, j5 + 1));
                                }
                            },
                            None => {},
                        }
                    }
                },
                None => {},
            }
        }
    }
}

/// Every successful element-list parse advances the scan position and stays
/// inside the text.
pub proof fn lemma_parse_elems_bounds(s: Seq<char>, i: int)
    ensures
        spec_parse_elems(s, i) matches Some(q) ==> i < q.1 <= s.len(),
    decreases s.len() - i, 1int,
{
    if 0 <= i && i < s.len() {
        lemma_parse_value_bounds(s, i);
        match spec_parse_value(s, i) {
            Some((v, j)) => {
                lemma_ws_end_bounds(s, j);
                let j2 = spec_ws_end(s, j);
                if j2 < s.len() && s[j2] == ',' {
                    lemma_parse_elems_bounds(s, adv(i, j2 + 1));
                }
            },
            None => {},
        }
    }
}

// ---------------------------------------------------------------------------
// Executable reader
// ---------------------------------------------------------------------------

/// Relies on std's `String::push`: appends exactly one character.
#[verifier::external_body]
pub(crate) fn push_char(out: &mut String, c: char)
    ensures
        final(out)@ == old(out)@.push(c),
{
    out.push(c);
}

/// Relies on std's `char::from_u32`: `Some` exactly for the Unicode scalar
/// values (below the surrogate range, or above it and at most 0x10FFFF), and
/// the scalar returned is the argument itself.
#[verifier::external_body]
fn char_from_u32(n: u32) -> (r: Option<char>)
    ensures
        r matches Some(c) ==> c as u32 == n,
        (r is Some) <==> (n < 0xD800 || (0xE000 <= n && n <= 0x10FFFF)),
{
    char::from_u32(n)
}

/// First position at or after `i` that does not hold whitespace.
fn ws_end_at(s: &str, len: usize, i: usize) -> (r: usize)
    requires
        s@.len() == len as int,
        i <= len,
    ensures
        r as int == spec_ws_end(s@, i as int),
        i <= r <= len,
    decreases len - i,
{
    if i < len {
        let c = s.get_char(i);
        if c == ' ' || c == '\n' || c == '\r' || c == '\t' {
            return ws_end_at(s, len, i + 1);
        }
    }
    i
}

/// End of the number token starting at `i`.
fn num_end_at(s: &str, len: usize, i: usize) -> (r: usize)
    requires
        s@.len() == len as int,
        i <= len,
    ensures
        r as int == spec_num_end(s@, i as int),
        i <= r <= len,
    decreases len - i,
{
    if i < len {
        let c = s.get_char(i);
        let n = c as u32;
        if (0x30 <= n && n <= 0x39) || c == '-' || c == '+' || c == '.' || c == 'e' || c == 'E' {
            return num_end_at(s, len, i + 1);
        }
    }
    i
}

/// The number token at `i`.
fn parse_num_at(s: &str, len: usize, i: usize) -> (r: Option<(String, usize)>)
    requires
        s@.len() == len as int,
        i <= len,
    ensures
        r matches Some(p) ==> spec_parse_num(s@, i as int) == Some((p.0@, p.1 as int)) && i < p.1
            <= len,
        r is None ==> spec_parse_num(s@, i as int) is None,
{
    if i >= len {
        return None;
    }
    let c = s.get_char(i);
    let n = c as u32;
    if (0x30 <= n && n <= 0x39) || c == '-' {
        let e = num_end_at(s, len, i);
        proof {
            lemma_num_end_bounds(s@, i as int + 1);
            assert(is_num_char(s@[i as int]));
            assert(spec_num_end(s@, i as int) == spec_num_end(s@, i as int + 1));
        }
        let t = s.substring_char(i, e);
        Some((t.to_owned(), e))
    } else {
        None
    }
}

/// The value of a hexadecimal digit, if the character is one.
fn hex_val_of(c: char) -> (r: Option<u32>)
    ensures
        r matches Some(v) ==> hex_char_val(c) == v as int && v <= 15,
        r is None ==> hex_char_val(c) == -1,
{
    let n = c as u32;
    if 0x30 <= n && n <= 0x39 {
        Some(n - 0x30)
    } else if 0x61 <= n && n <= 0x66 {
        Some(n - 0x61 + 10)
    } else if 0x41 <= n && n <= 0x46 {
        Some(n - 0x41 + 10)
    } else {
        None
    }
}

/// The four-digit hexadecimal value at `i`, if all four characters are
/// hexadecimal digits.
fn hex4_at(s: &str, len: usize, i: usize) -> (r: Option<u32>)
    requires
        s@.len() == len as int,
        i + 4 <= len,
    ensures
        r matches Some(v) ==> spec_hex4(s@, i as int) == v as int && v <= 0xFFFF,
        r is None ==> spec_hex4(s@, i as int) == -1,
{
    let v0 = hex_val_of(s.get_char(i));
    let v1 = hex_val_of(s.get_char(i + 1));
    let v2 = hex_val_of(s.get_char(i + 2));
    let v3 = hex_val_of(s.get_char(i + 3));
    match (v0, v1, v2, v3) {
        (Some(a), Some(b), Some(c), Some(d)) => Some(a * 0x1000 + b * 0x100 + c * 0x10 + d),
        _ => None,
    }
}

/// The character a single-character escape stands for.
fn unescape_of(e: char) -> (r: Option<char>)
    ensures
        r == spec_unescape(e),
{
    if e == '"' {
        Some('"')
    } else if e == '\\' {
        Some('\\')
    } else if e == '/' {
        Some('/')
    } else if e == 'b' {
        Some('\u{0008}')
    } else if e == 'f' {
        Some('\u{000C}')
    } else if e == 'n' {
        Some('\n')
    } else if e == 'r' {
        Some('\r')
    } else if e == 't' {
        Some('\t')
    } else {
        None
    }
}

/// Body of a string literal, read from just after the opening quote; the
/// decoded characters are appended to `out`.
fn parse_str_body_at(s: &str, len: usize, i: usize, out: &mut String) -> (r: Option<usize>)
    requires
        s@.len() == len as int,
        i <= len,
    ensures
        r matches Some(j) ==> spec_parse_str_body(s@, i as int) matches Some(p) && p.1 == j as int
            && final(out)@ == old(out)@ + p.0 && i < j <= len,
        r is None ==> spec_parse_str_body(s@, i as int) is None,
    decreases len - i,
{
    let ghost out0 = out@;
    if i >= len {
        return None;
    }
    let c = s.get_char(i);
    if c == '"' {
        proof {
            assert(out@ =~= out0 + Seq::<char>::empty());
        }
        return Some(i + 1);
    }
    if c == '\\' {
        if i + 1 >= len {
            return None;
        }
        let e = s.get_char(i + 1);
        if e == 'u' {
            if len - i < 6 {
                return None;
            }
            let code = match hex4_at(s, len, i + 2) {
                Some(v) => v,
                None => {
                    return None;
                },
            };
            if 0xD800 <= code && code < 0xE000 {
                return None;
            }
            match char_from_u32(code) {
                Some(c2) => {
                    push_char(out, c2);
                    proof {
                        vstd::utf8::char_u32_cast(c2, code);
                        assert(c2 == ((spec_hex4(s@, i as int + 2) as u32) as char));
                    }
                    match parse_str_body_at(s, len, i + 6, out) {
                        Some(j) => {
                            proof {
                                match spec_parse_str_body(s@, i as int + 6) {
                                    Some((rest, _)) => {
                                        assert(out@ =~= out0 + (seq![c2] + rest));
                                    },
                                    None => {},
                                }
                            }
                            Some(j)
                        },
                        None => None,
                    }
                },
                None => {
                    proof {
                        assert(false);
                    }
                    None
                },
            }
        } else {
            match unescape_of(e) {
                Some(c2) => {
                    push_char(out, c2);
                    match parse_str_body_at(s, len, i + 2, out) {
                        Some(j) => {
                            proof {
                                match spec_parse_str_body(s@, i as int + 2) {
                                    Some((rest, _)) => {
                                        assert(out@ =~= out0 + (seq![c2] + rest));
                                    },
                                    None => {},
                                }
                            }
                            Some(j)
                        },
                        None => None,
                    }
                },
                None => None,
            }
        }
    } else {
        let n = c as u32;
        if n < 0x20 {
            return None;
        }
        push_char(out, c);
        match parse_str_body_at(s, len, i + 1, out) {
            Some(j) => {
                proof {
                    match spec_parse_str_body(s@, i as int + 1) {
                        Some((rest, _)) => {
                            assert(out@ =~= out0 + (seq![c] + rest));
                        },
                        None => {},
                    }
                }
                Some(j)
            },
            None => None,
        }
    }
}

/// The JSON value at `i`, after any leading whitespace.
pub fn parse_value_at(s: &str, len: usize, i: usize) -> (r: Option<(JsonValue, usize)>)
    requires
        s@.len() == len as int,
        i <= len,
    ensures
        r matches Some(p) ==> spec_parse_value(s@, i as int) == Some((view_json(p.0), p.1 as int))
            && i < p.1 <= len,
        r is None ==> spec_parse_value(s@, i as int) is None,
    decreases len - i, 0int,
{
    if i >= len {
        return None;
    }
    let j = ws_end_at(s, len, i);
    if j >= len {
        return None;
    }
    let c = s.get_char(j);
    if c == '{' {
        let j1 = ws_end_at(s, len, j + 1);
        if j1 < len && s.get_char(j1) == '}' {
            let empty_members: Vec<JsonMember> = Vec::new();
            proof {
                assert(view_member_list(empty_members) =~= Seq::<(Seq<char>, JsonV)>::empty());
            }
            return Some((JsonValue::Obj(empty_members), j1 + 1));
        }
        proof {
            assert(adv(i as int, j as int + 1) == j as int + 1);
        }
        return match parse_members_at(s, len, j + 1) {
            Some((ms, k)) => Some((JsonValue::Obj(ms), k)),
            None => None,
        };
    }
    if c == '[' {
        let j1 = ws_end_at(s, len, j + 1);
        if j1 < len && s.get_char(j1) == ']' {
            let empty_elems: Vec<JsonValue> = Vec::new();
            proof {
                assert(view_elem_list(empty_elems) =~= Seq::<JsonV>::empty());
            }
            return Some((JsonValue::Arr(empty_elems), j1 + 1));
        }
        proof {
            assert(adv(i as int, j as int + 1) == j as int + 1);
        }
        return match parse_elems_at(s, len, j + 1) {
            Some((es, k)) => Some((JsonValue::Arr(es), k)),
            None => None,
        };
    }
    if c == '"' {
        let mut buf = String::new();
        return match parse_str_body_at(s, len, j + 1, &mut buf) {
            Some(j2) => {
                proof {
                    match spec_parse_str_body(s@, j as int + 1) {
                        Some((t, _)) => {
                            assert(buf@ =~= t);
                        },
                        None => {},
                    }
                }
                Some((JsonValue::Str(buf), j2))
            },
            None => None,
        };
    }
    if c == 't' {
        if len - j >= 4 {
            let c1 = s.get_char(j + 1);
            let c2 = s.get_char(j + 2);
            let c3 = s.get_char(j + 3);
            proof {
                reveal_strlit("true");
                if lit_at(s@, j as int, "true"@) {
                    assert(s@.subrange(j as int, j as int + 4)[1] == "true"@[1]);
                    assert(s@.subrange(j as int, j as int + 4)[2] == "true"@[2]);
                    assert(s@.subrange(j as int, j as int + 4)[3] == "true"@[3]);
                }
            }
            if c1 == 'r' && c2 == 'u' && c3 == 'e' {
                proof {
                    assert(s@.subrange(j as int, j as int + 4) =~= "true"@);
                }
                return Some((JsonValue::Bool(true), j + 4));
            }
            return None;
        }
        proof {
            reveal_strlit("true");
        }
        return None;
    }
    if c == 'f' {
        if len - j >= 5 {
            let c1 = s.get_char(j + 1);
            let c2 = s.get_char(j + 2);
            let c3 = s.get_char(j + 3);
            let c4 = s.get_char(j + 4);
            proof {
                reveal_strlit("false");
                if lit_at(s@, j as int, "false"@) {
                    assert(s@.subrange(j as int, j as int + 5)[1] == "false"@[1]);
                    assert(s@.subrange(j as int, j as int + 5)[2] == "false"@[2]);
                    assert(s@.subrange(j as int, j as int + 5)[3] == "false"@[3]);
                    assert(s@.subrange(j as int, j as int + 5)[4] == "false"@[4]);
                }
            }
            if c1 == 'a' && c2 == 'l' && c3 == 's' && c4 == 'e' {
                proof {
                    assert(s@.subrange(j as int, j as int + 5) =~= "false"@);
                }
                return Some((JsonValue::Bool(false), j + 5));
            }
            return None;
        }
        proof {
            reveal_strlit("false");
        }
        return None;
    }
    if c == 'n' {
        if len - j >= 4 {
            let c1 = s.get_char(j + 1);
            let c2 = s.get_char(j + 2);
            let c3 = s.get_char(j + 3);
            proof {
                reveal_strlit("null");
                if lit_at(s@, j as int, "null"@) {
                    assert(s@.subrange(j as int, j as int + 4)[1] == "null"@[1]);
                    assert(s@.subrange(j as int, j as int + 4)[2] == "null"@[2]);
                    assert(s@.subrange(j as int, j as int + 4)[3] == "null"@[3]);
                }
            }
            if c1 == 'u' && c2 == 'l' && c3 == 'l' {
                proof {
                    assert(s@.subrange(j as int, j as int + 4) =~= "null"@);
                }
                return Some((JsonValue::Null, j + 4));
            }
            return None;
        }
        proof {
            reveal_strlit("null");
        }
        return None;
    }
    match parse_num_at(s, len, j) {
        Some((t, k)) => Some((JsonValue::Num(t), k)),
        None => None,
    }
}

/// The members of an object, read from just after the opening brace or a
/// separating comma.
fn parse_members_at(s: &str, len: usize, i: usize) -> (r: Option<(Vec<JsonMember>, usize)>)
    requires
        s@.len() == len as int,
        i <= len,
    ensures
        r matches Some(p) ==> spec_parse_members(s@, i as int) == Some(
            (view_member_list(p.0), p.1 as int),
        ) && i < p.1 <= len,
        r is None ==> spec_parse_members(s@, i as int) is None,
    decreases len - i, 1int,
{
    if i >= len {
        return None;
    }
    let j = ws_end_at(s, len, i);
    if j >= len {
        return None;
    }
    if s.get_char(j) != '"' {
        return None;
    }
    let mut key_buf = String::new();
    match parse_str_body_at(s, len, j + 1, &mut key_buf) {
        None => None,
        Some(j2) => {
            let j3 = ws_end_at(s, len, j2);
            if j3 >= len {
                return None;
            }
            if s.get_char(j3) != ':' {
                return None;
            }
            proof {
                assert(adv(i as int, j3 as int + 1) == j3 as int + 1);
            }
            match parse_value_at(s, len, j3 + 1) {
                None => None,
                Some((v, j4)) => {
                    let j5 = ws_end_at(s, len, j4);
                    if j5 < len && s.get_char(j5) == ',' {
                        proof {
                            assert(adv(i as int, j5 as int + 1) == j5 as int + 1);
                        }
                        match parse_members_at(s, len, j5 + 1) {
                            None => None,
                            Some((rest, k)) => {
                                let ghost rest0 = view_member_list(rest);
                                let mut ms = rest;
                                ms.insert(0, JsonMember { key: key_buf, value: v });
                                proof {
                                    assert(view_member_list(ms) =~= seq![
                                        (key_buf@, view_json(v)),
                                    ] + rest0);
                                }
                                Some((ms, k))
                            },
                        }
                    } else if j5 < len && s.get_char(j5) == '}' {
                        let mut ms: Vec<JsonMember> = Vec::new();
                        ms.push(JsonMember { key: key_buf, value: v });
                        proof {
                            assert(view_member_list(ms) =~= seq![(key_buf@, view_json(v))]);
                        }
                        Some((ms, j5 + 1))
                    } else {
                        None
                    }
                },
            }
        },
    }
}

/// The elements of an array, read from just after the opening bracket or a
/// separating comma.
fn parse_elems_at(s: &str, len: usize, i: usize) -> (r: Option<(Vec<JsonValue>, usize)>)
    requires
        s@.len() == len as int,
        i <= len,
    ensures
        r matches Some(p) ==> spec_parse_elems(s@, i as int) == Some(
            (view_elem_list(p.0), p.1 as int),
        ) && i < p.1 <= len,
        r is None ==> spec_parse_elems(s@, i as int) is None,
    decreases len - i, 1int,
{
    if i >= len {
        return None;
    }
    match parse_value_at(s, len, i) {
        None => None,
        Some((v, j)) => {
            let j2 = ws_end_at(s, len, j);
            if j2 < len && s.get_char(j2) == ',' {
                proof {
                    assert(adv(i as int, j2 as int + 1) == j2 as int + 1);
                }
                match parse_elems_at(s, len, j2 + 1) {
                    None => None,
                    Some((rest, k)) => {
                        let ghost rest0 = view_elem_list(rest);
                        let mut es = rest;
                        es.insert(0, v);
                        proof {
                            assert(view_elem_list(es) =~= seq![view_json(es[0])] + rest0);
                        }
                        Some((es, k))
                    },
                }
            } else if j2 < len && s.get_char(j2) == ']' {
                let mut es: Vec<JsonValue> = Vec::new();
                es.push(v);
                proof {
                    assert(view_elem_list(es) =~= seq![view_json(es[0])]);
                }
                Some((es, j2 + 1))
            } else {
                None
            }
        },
    }
}

// ---------------------------------------------------------------------------
// Writer
// ---------------------------------------------------------------------------

/// The lower-case hexadecimal digit for a value in 0..16.
pub open spec fn hex_digit_char(d: int) -> char {
    if d == 0 {
        '0'
    } else if d == 1 {
        '1'
    } else if d == 2 {
        '2'
    } else if d == 3 {
        '3'
    } else if d == 4 {
        '4'
    } else if d == 5 {
        '5'
    } else if d == 6 {
        '6'
    } else if d == 7 {
        '7'
    } else if d == 8 {
        '8'
    } else if d == 9 {
        '9'
    } else if d == 10 {
        'a'
    } else if d == 11 {
        'b'
    } else if d == 12 {
        'c'
    } else if d == 13 {
        'd'
    } else if d == 14 {
        'e'
    } else {
        'f'
    }
}

/// How one character is written inside a string literal: quotes and
/// backslashes are escaped, control characters are written as a hexadecimal
/// escape, everything else stands as itself.
pub open spec fn escape_char(c: char) -> Seq<char> {
    if c == '"' {
        seq!['\\', '"']
    } else if c == '\\' {
        seq!['\\', '\\']
    } else if (c as u32) < 0x20 {
        seq![
            '\\',
            'u',
            '0',
            '0',
            hex_digit_char((c as u32 / 16) as int),
            hex_digit_char((c as u32 % 16) as int),
        ]
    } else {
        seq![c]
    }
}

/// The characters of a string value as written, escapes applied.
pub open spec fn escape_str(t: Seq<char>) -> Seq<char>
    decreases t.len(),
{
    if t.len() == 0 {
        Seq::empty()
    } else {
        escape_char(t[0]) + escape_str(t.drop_first())
    }
}

/// The characters a JSON value is written as: no insignificant whitespace,
/// single commas between members and elements.
pub open spec fn ser_val(v: JsonV) -> Seq<char>
    decreases v,
{
    match v {
        JsonV::Null => "null"@,
        JsonV::Bool(b) => if b {
            "true"@
        } else {
            "false"@
        },
        JsonV::Num(t) => t,
        JsonV::Str(t) => seq!['"'] + escape_str(t) + seq!['"'],
        JsonV::Arr(es) => seq!['['] + ser_elems(es) + seq![']'],
        JsonV::Obj(ms) => seq!['{'] + ser_members(ms) + seq!['}'],
    }
}

/// The characters the elements of an array are written as.
pub open spec fn ser_elems(es: Seq<JsonV>) -> Seq<char>
    decreases es,
{
    if es.len() == 0 {
        Seq::empty()
    } else if es.len() == 1 {
        ser_val(es[0])
    } else {
        ser_val(es[0]) + seq![','] + ser_elems(es.drop_first())
    }
}

/// The characters the members of an object are written as.
pub open spec fn ser_members(ms: Seq<(Seq<char>, JsonV)>) -> Seq<char>
    decreases ms,
{
    if ms.len() == 0 {
        Seq::empty()
    } else {
        let head = seq!['"'] + escape_str(ms[0].0) + seq!['"', ':'] + ser_val(ms[0].1);
        if ms.len() == 1 {
            head
        } else {
            head + seq![','] + ser_members(ms.drop_first())
        }
    }
}

/// The lower-case hexadecimal digit for a value in 0..16.
fn hex_digit_of(d: u32) -> (c: char)
    requires
        d <= 15,
    ensures
        c == hex_digit_char(d as int),
{
    if d == 0 {
        '0'
    } else if d == 1 {
        '1'
    } else if d == 2 {
        '2'
    } else if d == 3 {
        '3'
    } else if d == 4 {
        '4'
    } else if d == 5 {
        '5'
    } else if d == 6 {
        '6'
    } else if d == 7 {
        '7'
    } else if d == 8 {
        '8'
    } else if d == 9 {
        '9'
    } else if d == 10 {
        'a'
    } else if d == 11 {
        'b'
    } else if d == 12 {
        'c'
    } else if d == 13 {
        'd'
    } else if d == 14 {
        'e'
    } else {
        'f'
    }
}

/// Appends one character of a string value, escaped as needed.
fn write_escaped_char(c: char, out: &mut String)
    ensures
        final(out)@ == old(out)@ + escape_char(c),
{
    let ghost out0 = out@;
    if c == '"' {
        push_char(out, '\\');
        push_char(out, '"');
        proof {
            assert(out@ =~= out0 + escape_char(c));
        }
    } else if c == '\\' {
        push_char(out, '\\');
        push_char(out, '\\');
        proof {
            assert(out@ =~= out0 + escape_char(c));
        }
    } else {
        let n = c as u32;
        if n < 0x20 {
            push_char(out, '\\');
            push_char(out, 'u');
            push_char(out, '0');
            push_char(out, '0');
            push_char(out, hex_digit_of(n / 16));
            push_char(out, hex_digit_of(n % 16));
            proof {
                assert(out@ =~= out0 + escape_char(c));
            }
        } else {
            push_char(out, c);
            proof {
                assert(out@ =~= out0 + escape_char(c));
            }
        }
    }
}

/// Appends the characters of `t` from position `k` on, escaped as needed.
fn write_escaped(t: &str, len: usize, k: usize, out: &mut String)
    requires
        t@.len() == len as int,
        k <= len,
    ensures
        final(out)@ == old(out)@ + escape_str(t@.subrange(k as int, t@.len() as int)),
    decreases len - k,
{
    let ghost out0 = out@;
    if k == len {
        proof {
            assert(t@.subrange(k as int, t@.len() as int) =~= Seq::<char>::empty());
            assert(out@ =~= out0 + escape_str(t@.subrange(k as int, t@.len() as int)));
        }
        return ;
    }
    let c = t.get_char(k);
    write_escaped_char(c, out);
    write_escaped(t, len, k + 1, out);
    proof {
        let sk = t@.subrange(k as int, t@.len() as int);
        assert(sk.drop_first() =~= t@.subrange(k as int + 1, t@.len() as int));
        assert(sk[0] == c);
        assert(out@ =~= out0 + escape_str(sk));
    }
}

/// Appends the written form of a JSON value.
pub fn write_json(v: &JsonValue, out: &mut String)
    ensures
        final(out)@ == old(out)@ + ser_val(view_json(*v)),
    decreases *v,
{
    let ghost out0 = out@;
    match v {
        JsonValue::Null => {
            out.append("null");
        },
        JsonValue::Bool(b) => {
            if *b {
                out.append("true");
            } else {
                out.append("false");
            }
        },
        JsonValue::Num(t) => {
            out.append(t.as_str());
        },
        JsonValue::Str(t) => {
            push_char(out, '"');
            let tlen = t.as_str().unicode_len();
            write_escaped(t.as_str(), tlen, 0, out);
            push_char(out, '"');
            proof {
                assert(t@.subrange(0, t@.len() as int) =~= t@);
                assert(out@ =~= out0 + ser_val(view_json(*v)));
            }
        },
        JsonValue::Arr(es) => {
            push_char(out, '[');
            write_elems(es, 0, out);
            push_char(out, ']');
            proof {
                assert(view_elem_list(*es).subrange(0, view_elem_list(*es).len() as int)
                    =~= view_elem_list(*es));
                assert(out@ =~= out0 + ser_val(view_json(*v)));
            }
        },
        JsonValue::Obj(ms) => {
            push_char(out, '{');
            write_members(ms, 0, out);
            push_char(out, '}');
            proof {
                assert(view_member_list(*ms).subrange(0, view_member_list(*ms).len() as int)
                    =~= view_member_list(*ms));
                assert(out@ =~= out0 + ser_val(view_json(*v)));
            }
        },
    }
}

/// Appends the written form of the elements of an array, from index `k` on.
fn write_elems(es: &Vec<JsonValue>, k: usize, out: &mut String)
    requires
        k <= es@.len(),
    ensures
        final(out)@ == old(out)@ + ser_elems(
            view_elem_list(*es).subrange(k as int, view_elem_list(*es).len() as int),
        ),
    decreases *es, es@.len() - k,
{
    let ghost out0 = out@;
    let ghost full = view_elem_list(*es);
    if k == es.len() {
        proof {
            assert(full.subrange(k as int, full.len() as int) =~= Seq::<JsonV>::empty());
            assert(out@ =~= out0 + ser_elems(full.subrange(k as int, full.len() as int)));
        }
        return ;
    }
    write_json(&es[k], out);
    if k + 1 < es.len() {
        push_char(out, ',');
        write_elems(es, k + 1, out);
    } else {
        write_elems(es, k + 1, out);
    }
    proof {
        let sk = full.subrange(k as int, full.len() as int);
        assert(sk.drop_first() =~= full.subrange(k as int + 1, full.len() as int));
        assert(sk[0] == view_json(es[k as int]));
        assert(out@ =~= out0 + ser_elems(sk));
    }
}

/// Appends the written form of the members of an object, from index `k` on.
fn write_members(ms: &Vec<JsonMember>, k: usize, out: &mut String)
    requires
        k <= ms@.len(),
    ensures
        final(out)@ == old(out)@ + ser_members(
            view_member_list(*ms).subrange(k as int, view_member_list(*ms).len() as int),
        ),
    decreases *ms, ms@.len() - k,
{
    let ghost out0 = out@;
    let ghost full = view_member_list(*ms);
    if k == ms.len() {
        proof {
            assert(full.subrange(k as int, full.len() as int) =~= Seq::<(Seq<char>, JsonV)>::empty());
            assert(out@ =~= out0 + ser_members(full.subrange(k as int, full.len() as int)));
        }
        return ;
    }
    push_char(out, '"');
    let klen = ms[k].key.as_str().unicode_len();
    write_escaped(ms[k].key.as_str(), klen, 0, out);
    push_char(out, '"');
    push_char(out, ':');
    write_json(&ms[k].value, out);
    if k + 1 < ms.len() {
        push_char(out, ',');
        write_members(ms, k + 1, out);
    } else {
        write_members(ms, k + 1, out);
    }
    proof {
        let sk = full.subrange(k as int, full.len() as int);
        assert(sk.drop_first() =~= full.subrange(k as int + 1, full.len() as int));
        assert(sk[0] == (ms[k as int].key@, view_json(ms[k as int].value)));
        assert(ms[k as int].key@.subrange(0, ms[k as int].key@.len() as int) =~= ms[k as int].key@);
        assert(out@ =~= out0 + ser_members(sk));
    }
}

// ---------------------------------------------------------------------------
// The writer's output reads back as the value written
// ---------------------------------------------------------------------------

/// The values whose written form this module proves reads back unchanged:
/// everything the gateway codec writes. Number tokens must be plain digit
/// runs; arrays, booleans and null are read but never written by the codec.
pub open spec fn wf_json(v: JsonV) -> bool
    decreases v,
{
    match v {
        JsonV::Num(t) => t.len() > 0 && (forall|k: int| 0 <= k < t.len() ==> is_digit(#[trigger] t[k])),
        JsonV::Str(t) => true,
        JsonV::Obj(ms) => forall|k: int|
            0 <= k < ms.len() ==> wf_json(#[trigger] ms[k].1),
        _ => false,
    }
}

/// What may follow a written value: the end of the text or a structural
/// separator or closer.
pub open spec fn value_boundary(s: Seq<char>, e: int) -> bool {
    e == s.len() || s[e] == ',' || s[e] == '}' || s[e] == ']'
}

/// One index of an embedded sequence, read through the embedding.
proof fn lemma_index_of_eq(s: Seq<char>, i: int, e: Seq<char>, k: int)
    requires
        0 <= i,
        i + e.len() <= s.len(),
        s.subrange(i, i + e.len() as int) == e,
        0 <= k < e.len(),
    ensures
        s[i + k] == e[k],
{
    assert(s.subrange(i, i + e.len() as int)[k] == e[k]);
}

/// A sub-window of an embedded sequence is the matching subrange.
proof fn lemma_subrange_of_eq(s: Seq<char>, i: int, e: Seq<char>, a: int, b: int)
    requires
        0 <= i,
        i + e.len() <= s.len(),
        s.subrange(i, i + e.len() as int) == e,
        0 <= a <= b <= e.len(),
    ensures
        s.subrange(i + a, i + b) == e.subrange(a, b),
{
    assert forall|k: int| 0 <= k < b - a implies s.subrange(i + a, i + b)[k] == e.subrange(a, b)[k] by {
        lemma_index_of_eq(s, i, e, a + k);
    }
    assert(s.subrange(i + a, i + b) =~= e.subrange(a, b));
}

/// Writing a hexadecimal digit and reading it back returns its value, and the
/// digit character is an ordinary printable character.
proof fn lemma_hex_digit_val(d: int)
    requires
        0 <= d < 16,
    ensures
        hex_char_val(hex_digit_char(d)) == d,
        0x30 <= hex_digit_char(d) as u32 <= 0x66,
{
}

/// An escaped string followed by a closing quote reads back as the string.
proof fn lemma_parse_str_escape(s: Seq<char>, i: int, t: Seq<char>)
    requires
        0 <= i,
        i + escape_str(t).len() + 1 <= s.len(),
        s.subrange(i, i + escape_str(t).len() + 1) == escape_str(t) + seq!['"'],
    ensures
        spec_parse_str_body(s, i) == Some((t, i + escape_str(t).len() + 1)),
    decreases t.len(),
{
    let e = escape_str(t) + seq!['"'];
    if t.len() == 0 {
        lemma_index_of_eq(s, i, e, 0);
        assert(s[i] == '"');
    } else {
        let c = t[0];
        let ec = escape_char(c);
        let t1 = t.drop_first();
        assert(escape_str(t) == ec + escape_str(t1));
        let m = ec.len() as int;
        // the window from the head escape's end holds the written tail
        assert(s.subrange(i + m, i + escape_str(t).len() + 1) == escape_str(t1) + seq!['"']) by {
            lemma_subrange_of_eq(s, i, e, m, e.len() as int);
            assert(e.subrange(m, e.len() as int) =~= escape_str(t1) + seq!['"']);
        }
        assert forall|k: int| 0 <= k < m implies s[i + k] == ec[k] by {
            lemma_index_of_eq(s, i, e, k);
            assert(e[k] == escape_str(t)[k]);
            assert(escape_str(t)[k] == ec[k]);
        }
        lemma_parse_str_escape(s, i + m, t1);
        if c == '"' {
            assert(s[i] == '\\' && s[i + 1] == '"');
            assert(spec_parse_str_body(s, i) == Some((seq![c] + t1, i + escape_str(t).len() + 1)));
            assert(seq![c] + t1 =~= t);
        } else if c == '\\' {
            assert(s[i] == '\\' && s[i + 1] == '\\');
            assert(seq![c] + t1 =~= t);
        } else if (c as u32) < 0x20 {
            let n = c as u32;
            let hi = n / 16;
            let lo = n % 16;
            assert(s[i] == '\\' && s[i + 1] == 'u' && s[i + 2] == '0' && s[i + 3] == '0' && s[i + 4]
                == hex_digit_char(hi as int) && s[i + 5] == hex_digit_char(lo as int));
            lemma_hex_digit_val(hi as int);
            lemma_hex_digit_val(lo as int);
            assert(hex_char_val('0') == 0);
            assert(spec_hex4(s, i + 2) == 16 * (hi as int) + lo as int);
            assert(16 * (hi as int) + lo as int == n as int);
            assert(spec_hex4(s, i + 2) == n as int);
            assert(((spec_hex4(s, i + 2) as u32) as char) == c) by {
                vstd::utf8::char_u32_cast(c, n);
            }
            assert(seq![c] + t1 =~= t);
        } else {
            assert(s[i + 0] == ec[0]);
            assert(s[i] == c);
            assert(seq![c] + t1 =~= t);
        }
    }
}

/// A run of digits followed by a boundary character scans as exactly that run.
proof fn lemma_num_token(s: Seq<char>, i: int, t: Seq<char>)
    requires
        0 <= i,
        i + t.len() <= s.len(),
        s.subrange(i, i + t.len()) == t,
        forall|k: int| 0 <= k < t.len() ==> is_digit(#[trigger] t[k]),
        value_boundary(s, i + t.len()),
    ensures
        spec_num_end(s, i) == i + t.len(),
    decreases t.len(),
{
    if t.len() == 0 {
        assert(i == s.len() || !is_num_char(s[i]));
    } else {
        lemma_index_of_eq(s, i, t, 0);
        assert(is_num_char(s[i]));
        lemma_subrange_of_eq(s, i, t, 1, t.len() as int);
        assert(t.subrange(1, t.len() as int) =~= t.drop_first());
        lemma_num_token(s, i + 1, t.drop_first());
    }
}

/// A written value, embedded in a text and followed by a boundary, reads back
/// as the value written.
pub proof fn lemma_parse_ser(s: Seq<char>, i: int, v: JsonV)
    requires
        wf_json(v),
        0 <= i,
        i + ser_val(v).len() <= s.len(),
        s.subrange(i, i + ser_val(v).len()) == ser_val(v),
        value_boundary(s, i + ser_val(v).len()),
    ensures
        spec_parse_value(s, i) == Some((v, i + ser_val(v).len())),
    decreases v,
{
    let e = ser_val(v);
    match v {
        JsonV::Num(t) => {
            lemma_index_of_eq(s, i, e, 0);
            assert(is_digit(s[i]));
            assert(!is_ws(s[i]));
            assert(spec_ws_end(s, i) == i);
            lemma_num_token(s, i, t);
            assert(s.subrange(i, spec_num_end(s, i)) == t);
            assert(spec_parse_num(s, i) == Some((t, i + t.len() as int)));
            assert(spec_parse_value(s, i) == Some((v, i + ser_val(v).len() as int)));
        },
        JsonV::Str(t) => {
            lemma_index_of_eq(s, i, e, 0);
            assert(s[i] == '"');
            assert(!is_ws(s[i]));
            assert(spec_ws_end(s, i) == i);
            assert(s.subrange(i + 1, i + 1 + escape_str(t).len() + 1) == escape_str(t) + seq!['"'])
                by {
                lemma_subrange_of_eq(s, i, e, 1, e.len() as int);
                assert(e.subrange(1, e.len() as int) =~= escape_str(t) + seq!['"']);
            }
            lemma_parse_str_escape(s, i + 1, t);
            assert(spec_parse_value(s, i) == Some((v, i + ser_val(v).len() as int)));
        },
        JsonV::Obj(ms) => {
            lemma_index_of_eq(s, i, e, 0);
            lemma_index_of_eq(s, i, e, e.len() as int - 1);
            assert(s[i] == '{');
            assert(!is_ws(s[i]));
            assert(spec_ws_end(s, i) == i);
            if ms.len() == 0 {
                assert(e =~= seq!['{', '}']);
                lemma_index_of_eq(s, i, e, 1);
                assert(s[i + 1] == '}');
                assert(!is_ws(s[i + 1]));
                assert(spec_ws_end(s, i + 1) == i + 1);
                assert(ms =~= Seq::<(Seq<char>, JsonV)>::empty());
            } else {
                let sm = ser_members(ms);
                lemma_index_of_eq(s, i, e, 1);
                assert(e[1] == sm[0]);
                assert(sm[0] == '"');
                assert(s[i + 1] == '"');
                assert(!is_ws(s[i + 1]));
                assert(spec_ws_end(s, i + 1) == i + 1);
                assert(s[i + 1] != '}');
                assert(adv(i, i + 1) == i + 1);
                assert(s.subrange(i + 1, i + 1 + sm.len() + 1) == sm + seq!['}']) by {
                    lemma_subrange_of_eq(s, i, e, 1, e.len() as int);
                    assert(e.subrange(1, e.len() as int) =~= sm + seq!['}']);
                }
                lemma_parse_ser_members(s, i + 1, ms);
            }
            assert(spec_parse_value(s, i) == Some((v, i + ser_val(v).len() as int)));
        },
        _ => {
            assert(false);
        },
    }
}

/// Written members followed by a closing brace read back as the members.
proof fn lemma_parse_ser_members(s: Seq<char>, i: int, ms: Seq<(Seq<char>, JsonV)>)
    requires
        ms.len() > 0,
        forall|k: int| 0 <= k < ms.len() ==> wf_json(#[trigger] ms[k].1),
        0 <= i,
        i + ser_members(ms).len() + 1 <= s.len(),
        s.subrange(i, i + ser_members(ms).len() + 1) == ser_members(ms) + seq!['}'],
    ensures
        spec_parse_members(s, i) == Some((ms, i + ser_members(ms).len() + 1)),
    decreases ms,
{
    let sm = ser_members(ms);
    let e = sm + seq!['}'];
    let key = ms[0].0;
    let v0 = ms[0].1;
    let head = seq!['"'] + escape_str(key) + seq!['"', ':'] + ser_val(v0);
    let hl = head.len() as int;
    lemma_index_of_eq(s, i, e, 0);
    assert(s[i] == '"');
    assert(!is_ws(s[i]));
    assert(spec_ws_end(s, i) == i);
    // the key reads back
    let el = escape_str(key).len() as int;
    assert(s.subrange(i + 1, i + 1 + el + 1) == escape_str(key) + seq!['"']) by {
        lemma_subrange_of_eq(s, i, e, 1, 1 + el + 1);
        assert(e.subrange(1, 1 + el + 1) =~= escape_str(key) + seq!['"']);
    }
    lemma_parse_str_escape(s, i + 1, key);
    let j2 = i + 1 + el + 1;
    assert(spec_parse_str_body(s, i + 1) == Some((key, j2)));
    // the colon follows
    lemma_index_of_eq(s, i, e, 1 + el + 1);
    assert(s[j2] == ':');
    assert(!is_ws(s[j2]));
    assert(spec_ws_end(s, j2) == j2);
    assert(adv(i, j2 + 1) == j2 + 1);
    // the member's value reads back
    let vl = ser_val(v0).len() as int;
    assert(s.subrange(j2 + 1, j2 + 1 + vl) == ser_val(v0)) by {
        lemma_subrange_of_eq(s, i, e, 1 + el + 2, 1 + el + 2 + vl);
        assert(e.subrange(1 + el + 2, 1 + el + 2 + vl) =~= ser_val(v0));
    }
    let j4 = j2 + 1 + vl;
    lemma_index_of_eq(s, i, e, hl);
    if ms.len() == 1 {
        assert(wf_json(v0));
        assert(s[j4] == '}');
        lemma_parse_ser(s, j2 + 1, v0);
        assert(!is_ws(s[j4]));
        assert(spec_ws_end(s, j4) == j4);
        assert(seq![(key, v0)] =~= ms);
    } else {
        assert(wf_json(v0));
        assert(s[j4] == ',');
        lemma_parse_ser(s, j2 + 1, v0);
        assert(!is_ws(s[j4]));
        assert(spec_ws_end(s, j4) == j4);
        assert(adv(i, j4 + 1) == j4 + 1);
        let rest = ms.drop_first();
        assert(forall|k: int| 0 <= k < rest.len() ==> wf_json(#[trigger] rest[k].1));
        assert(s.subrange(j4 + 1, j4 + 1 + ser_members(rest).len() + 1) == ser_members(rest)
            + seq!['}']) by {
            lemma_subrange_of_eq(s, i, e, hl + 1, e.len() as int);
            assert(e.subrange(hl + 1, e.len() as int) =~= ser_members(rest) + seq!['}']);
        }
        lemma_parse_ser_members(s, j4 + 1, rest);
        assert(seq![(key, v0)] + rest =~= ms);
    }
}

/// The writer's whole output reads back as the value written: the reader and
/// the writer are inverse on everything the codec writes.
pub proof fn lemma_parse_ser_text(v: JsonV)
    requires
        wf_json(v),
    ensures
        spec_parse_text(ser_val(v)) == Some(v),
{
    let s = ser_val(v);
    assert(s.subrange(0, s.len() as int) =~= s);
    assert(s.len() > 0) by {
        match v {
            JsonV::Num(t) => {},
            JsonV::Str(t) => {},
            JsonV::Obj(ms) => {},
            _ => {},
        }
    }
    lemma_parse_ser(s, 0, v);
    assert(spec_ws_end(s, s.len() as int) == s.len());
}

/// The whole written form of a JSON value, as one fresh string.
pub fn write_text(v: &JsonValue) -> (r: String)
    ensures
        r@ == ser_val(view_json(*v)),
{
    let mut out = String::new();
    write_json(v, &mut out);
    proof {
        assert(Seq::<char>::empty() + ser_val(view_json(*v)) =~= ser_val(view_json(*v)));
    }
    out
}

// ---------------------------------------------------------------------------
// Decimal number tokens
// ---------------------------------------------------------------------------

/// The decimal digits of a non-negative integer, most significant first.
pub open spec fn dec_digits(n: int) -> Seq<char>
    decreases n,
{
    if n < 10 {
        seq![hex_digit_char(n)]
    } else {
        dec_digits(n / 10) + seq![hex_digit_char(n % 10)]
    }
}

/// The integer a run of digits stands for.
pub open spec fn digits_val(t: Seq<char>) -> int
    decreases t.len(),
{
    if t.len() == 0 {
        0
    } else {
        digits_val(t.drop_last()) * 10 + hex_char_val(t.last())
    }
}

/// A digit run read as a `u64`: it must be non-empty, all digits, and fit.
pub open spec fn digits_to_u64(t: Seq<char>) -> Option<u64> {
    if t.len() > 0 && (forall|k: int| 0 <= k < t.len() ==> is_digit(#[trigger] t[k]))
        && digits_val(t) <= u64::MAX {
        Some(digits_val(t) as u64)
    } else {
        None
    }
}

/// The written digits of a non-negative integer are a well-formed number
/// token.
pub proof fn lemma_dec_digits_wf(n: int)
    requires
        0 <= n,
    ensures
        dec_digits(n).len() > 0,
        forall|k: int| 0 <= k < dec_digits(n).len() ==> is_digit(#[trigger] dec_digits(n)[k]),
    decreases n,
{
    if n < 10 {
        lemma_hex_digit_val(n);
        assert(is_digit(dec_digits(n)[0]));
    } else {
        lemma_dec_digits_wf(n / 10);
        lemma_hex_digit_val(n % 10);
        let t = dec_digits(n);
        let h = dec_digits(n / 10);
        assert forall|k: int| 0 <= k < t.len() implies is_digit(#[trigger] t[k]) by {
            if k < h.len() {
                assert(t[k] == h[k]);
            } else {
                assert(t[k] == hex_digit_char(n % 10));
            }
        }
    }
}

/// Writing an integer and reading the digits back returns the integer.
pub proof fn lemma_digits_val_dec(n: int)
    requires
        0 <= n,
    ensures
        digits_val(dec_digits(n)) == n,
    decreases n,
{
    if n < 10 {
        lemma_hex_digit_val(n);
        let t = dec_digits(n);
        assert(t.len() == 1);
        assert(t.drop_last() =~= Seq::<char>::empty());
        assert(t.last() == hex_digit_char(n));
        assert(digits_val(t) == digits_val(t.drop_last()) * 10 + hex_char_val(t.last()));
        assert(digits_val(t.drop_last()) == 0);
        assert(hex_char_val(t.last()) == n);
    } else {
        lemma_digits_val_dec(n / 10);
        lemma_hex_digit_val(n % 10);
        let t = dec_digits(n);
        assert(t.drop_last() =~= dec_digits(n / 10));
        assert(t.last() == hex_digit_char(n % 10));
        assert(t.len() > 0);
        assert(digits_val(t) == digits_val(t.drop_last()) * 10 + hex_char_val(t.last()));
        assert(digits_val(t) == (n / 10) * 10 + n % 10);
        assert((n / 10) * 10 + n % 10 == n) by {
            vstd::arithmetic::div_mod::lemma_fundamental_div_mod(n, 10);
        }
    }
}

/// The value of a digit run is never negative.
proof fn lemma_digits_val_nonneg(t: Seq<char>)
    requires
        forall|k: int| 0 <= k < t.len() ==> is_digit(#[trigger] t[k]),
    ensures
        digits_val(t) >= 0,
    decreases t.len(),
{
    if t.len() > 0 {
        assert(t.drop_last() =~= t.subrange(0, t.len() - 1));
        lemma_digits_val_nonneg(t.drop_last());
        assert(hex_char_val(t.last()) >= 0);
    }
}

/// Reading more digits can only grow the value.
proof fn lemma_digits_val_mono(t: Seq<char>, k: int)
    requires
        forall|j: int| 0 <= j < t.len() ==> is_digit(#[trigger] t[j]),
        0 <= k <= t.len(),
    ensures
        digits_val(t.subrange(0, k)) <= digits_val(t),
    decreases t.len() - k,
{
    if k < t.len() {
        lemma_digits_val_mono(t, k + 1);
        let a = t.subrange(0, k);
        let b = t.subrange(0, k + 1);
        assert(b.drop_last() =~= a);
        assert(b.last() == t[k]);
        lemma_digits_val_nonneg(a);
        assert(hex_char_val(t[k]) >= 0);
        assert(digits_val(b) == digits_val(a) * 10 + hex_char_val(t[k]));
    } else {
        assert(t.subrange(0, k) =~= t);
    }
}

/// Appends the decimal digits of `n`.
fn dec_append(n: u64, out: &mut String)
    ensures
        final(out)@ == old(out)@ + dec_digits(n as int),
    decreases n,
{
    let ghost out0 = out@;
    if n >= 10 {
        dec_append(n / 10, out);
    }
    push_char(out, hex_digit_of((n % 10) as u32));
    proof {
        if n >= 10 {
            assert(out@ =~= out0 + (dec_digits(n as int / 10) + seq![
                hex_digit_char(n as int % 10),
            ]));
        } else {
            assert(out@ =~= out0 + seq![hex_digit_char(n as int)]);
        }
    }
}

/// The decimal digits of `n`, as a fresh string.
pub fn u64_to_dec(n: u64) -> (r: String)
    ensures
        r@ == dec_digits(n as int),
{
    let mut out = String::new();
    dec_append(n, &mut out);
    proof {
        assert(Seq::<char>::empty() + dec_digits(n as int) =~= dec_digits(n as int));
    }
    out
}

/// A digit run read back as a `u64`, refusing anything that is not a plain
/// digit run or does not fit.
pub fn parse_u64_digits(t: &str) -> (r: Option<u64>)
    ensures
        r matches Some(n) ==> digits_to_u64(t@) == Some(n),
        r is None ==> digits_to_u64(t@) is None,
{
    let len = t.unicode_len();
    if len == 0 {
        return None;
    }
    let mut val: u64 = 0;
    let mut k: usize = 0;
    while k < len
        invariant
            t@.len() == len as int,
            0 <= k <= len,
            forall|j: int| 0 <= j < k ==> is_digit(#[trigger] t@[j]),
            val as int == digits_val(t@.subrange(0, k as int)),
        decreases len - k,
    {
        let c = t.get_char(k);
        let n = c as u32;
        if !(0x30 <= n && n <= 0x39) {
            return None;
        }
        let d = (n - 0x30) as u64;
        if val > 1844674407370955161 || (val == 1844674407370955161 && d > 5) {
            proof {
                assert(digits_val(t@.subrange(0, k as int)) * 10 + hex_char_val(t@[k as int])
                    > u64::MAX);
                if forall|j: int| 0 <= j < t@.len() ==> is_digit(#[trigger] t@[j]) {
                    lemma_digits_val_mono(t@, k as int + 1);
                    assert(t@.subrange(0, k as int + 1).drop_last() =~= t@.subrange(0, k as int));
                    assert(t@.subrange(0, k as int + 1).last() == t@[k as int]);
                }
            }
            return None;
        }
        proof {
            assert(t@.subrange(0, k as int + 1).drop_last() =~= t@.subrange(0, k as int));
            assert(t@.subrange(0, k as int + 1).last() == t@[k as int]);
            assert(hex_char_val(t@[k as int]) == d as int);
        }
        val = val * 10 + d;
        k = k + 1;
    }
    proof {
        assert(t@.subrange(0, len as int) =~= t@);
    }
    Some(val)
}

/// The whole text `s` read as one JSON value: leading and trailing whitespace
/// is allowed, anything else after the value is not.
pub fn parse_text(s: &str) -> (r: Option<JsonValue>)
    ensures
        r matches Some(v) ==> spec_parse_text(s@) == Some(view_json(v)),
        r is None ==> spec_parse_text(s@) is None,
{
    let len = s.unicode_len();
    match parse_value_at(s, len, 0) {
        Some((v, j)) => {
            let j2 = ws_end_at(s, len, j);
            if j2 == len {
                Some(v)
            } else {
                None
            }
        },
        None => None,
    }
}

} // verus!
