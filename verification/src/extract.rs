//! Targeted-field scanner: pulls one string value out of a semi-structured
//! JSON response without a full parser.
//!
//! The scanner locates a marker substring, then the literal pattern
//! `"<key>":"`, and decodes the JSON string body that follows, reversing the
//! escape table (`\"`, `\\`, `\/`, `\b`, `\f`, `\n`, `\r`, `\t`, `\uXXXX`).
//! Two lenient policies are deliberate and kept as documented behaviour, not
//! accidents: an unknown character after a backslash is copied verbatim, and
//! a `\uXXXX` escape whose digits are not hex or whose code unit is an
//! unpaired surrogate contributes no character at all while the rest of the
//! value is still decoded.
use vstd::prelude::*;

use crate::text::chars_of_str;
use crate::text::dec_char_of;
use crate::text::dec_digit_of;
use crate::text::push_all;
use crate::text::string_of_chars;

verus! {

/// Why extraction failed: the marker or the key pattern was absent, or the
/// value was malformed (no closing quote, or a truncated escape).
#[derive(Clone, Copy, Debug, PartialEq, Eq, Structural)]
pub enum ExtractError {
    NotFound,
    Malformed,
}

/// Value of a hexadecimal digit character, either case.
pub open spec fn hex_digit_of(c: char) -> Option<u32> {
    if dec_digit_of(c) is Some {
        dec_digit_of(c)
    } else if c == 'a' || c == 'A' {
        Some(10u32)
    } else if c == 'b' || c == 'B' {
        Some(11u32)
    } else if c == 'c' || c == 'C' {
        Some(12u32)
    } else if c == 'd' || c == 'D' {
        Some(13u32)
    } else if c == 'e' || c == 'E' {
        Some(14u32)
    } else if c == 'f' || c == 'F' {
        Some(15u32)
    } else {
        None
    }
}

/// Lower-case hexadecimal digit character for a value below 16.
pub open spec fn hex_char_of(v: u32) -> char
    recommends
        v < 16,
{
    if v < 10 {
        dec_char_of(v)
    } else if v == 10 {
        'a'
    } else if v == 11 {
        'b'
    } else if v == 12 {
        'c'
    } else if v == 13 {
        'd'
    } else if v == 14 {
        'e'
    } else {
        'f'
    }
}

/// Digit value used when composing a `\uXXXX` unit; non-hex counts as zero.
pub open spec fn hex_or_zero(c: char) -> u32 {
    match hex_digit_of(c) {
        Some(v) => v,
        None => 0,
    }
}

/// Whether all four characters are hexadecimal digits.
pub open spec fn all_hex4(a: char, b: char, c: char, d: char) -> bool {
    hex_digit_of(a) is Some && hex_digit_of(b) is Some && hex_digit_of(c) is Some && hex_digit_of(
        d,
    ) is Some
}

/// The UTF-16 code unit written by four hexadecimal digits.
pub open spec fn hex4_val(a: char, b: char, c: char, d: char) -> u32
    recommends
        all_hex4(a, b, c, d),
{
    (hex_or_zero(a) * 4096 + hex_or_zero(b) * 256 + hex_or_zero(c) * 16 + hex_or_zero(d)) as u32
}

/// Whether a code unit is a Unicode scalar value, i.e. maps to a standalone
/// character (not a surrogate, not beyond the Unicode range).
pub open spec fn valid_unit(v: u32) -> bool {
    v < 0xD800 || (0xE000 <= v && v <= 0x10FFFF)
}

/// Characters contributed by a `\uXXXX` escape: the encoded code unit when
/// the digits are hex and the unit is a valid standalone code point; nothing
/// otherwise (the lenient-skip policy for bad digits and unpaired
/// surrogates).
pub open spec fn unicode_escape_value(a: char, b: char, c: char, d: char) -> Seq<char> {
    if all_hex4(a, b, c, d) && valid_unit(hex4_val(a, b, c, d)) {
        seq![hex4_val(a, b, c, d) as char]
    } else {
        Seq::empty()
    }
}

/// Character produced by a simple escape `\c`. The table maps `b`, `f`, `n`,
/// `r` and `t` to control characters; `"`, `\` and `/` map to themselves, as
/// does, leniently, any other character.
pub open spec fn simple_escape_value(c: char) -> char {
    if c == 'b' {
        '\u{0008}'
    } else if c == 'f' {
        '\u{000C}'
    } else if c == 'n' {
        '\n'
    } else if c == 'r' {
        '\r'
    } else if c == 't' {
        '\t'
    } else {
        c
    }
}

/// Decoding of a JSON string body starting right after the opening quote:
/// `Some(value)` exactly when an unescaped closing quote terminates the body,
/// `None` when input ends first (including a dangling backslash or a `\u`
/// with fewer than four characters after it).
pub open spec fn decode_str(s: Seq<char>) -> Option<Seq<char>>
    decreases s.len(),
{
    if s.len() == 0 {
        None
    } else if s[0] == '"' {
        Some(Seq::empty())
    } else if s[0] == '\\' {
        if s.len() == 1 {
            None
        } else if s[1] == 'u' {
            if s.len() < 6 {
                None
            } else {
                match decode_str(s.skip(6)) {
                    Some(t) => Some(unicode_escape_value(s[2], s[3], s[4], s[5]) + t),
                    None => None,
                }
            }
        } else {
            match decode_str(s.skip(2)) {
                Some(t) => Some(seq![simple_escape_value(s[1])] + t),
                None => None,
            }
        }
    } else {
        match decode_str(s.skip(1)) {
            Some(t) => Some(seq![s[0]] + t),
            None => None,
        }
    }
}

/// Whether `pat` occurs in `s` at position `i`.
pub open spec fn matches_at(s: Seq<char>, pat: Seq<char>, i: int) -> bool {
    0 <= i && i + pat.len() <= s.len() && s.subrange(i, i + pat.len()) == pat
}

/// Position of the first occurrence of `pat` in `s` at or after `from`.
pub open spec fn find_from(s: Seq<char>, pat: Seq<char>, from: int) -> Option<int>
    recommends
        0 <= from,
    decreases s.len() - from + 1,
{
    if from < 0 || from + pat.len() > s.len() {
        None
    } else if matches_at(s, pat, from) {
        Some(from)
    } else {
        find_from(s, pat, from + 1)
    }
}

/// The literal pattern that introduces the value of `key` in a JSON object:
/// `"key":"` with no surrounding whitespace.
pub open spec fn field_pattern(key: Seq<char>) -> Seq<char> {
    seq!['"'] + key + seq!['"', ':', '"']
}

/// What [`extract`] returns: after the first occurrence of `marker`, the
/// first occurrence of the key pattern introduces the value, which is decoded
/// up to its closing quote. A missing marker or pattern is `NotFound`; an
/// unterminated value is `Malformed`.
pub open spec fn extract_spec(raw: Seq<char>, marker: Seq<char>, key: Seq<char>) -> Result<
    Seq<char>,
    ExtractError,
> {
    match find_from(raw, marker, 0) {
        None => Err(ExtractError::NotFound),
        Some(m) => match find_from(raw, field_pattern(key), m + marker.len()) {
            None => Err(ExtractError::NotFound),
            Some(p) => match decode_str(raw.skip(p + field_pattern(key).len())) {
                None => Err(ExtractError::Malformed),
                Some(v) => Ok(v),
            },
        },
    }
}

fn matches_at_exec(s: &Vec<char>, pat: &Vec<char>, i: usize) -> (r: bool)
    requires
        i <= s@.len(),
        pat@.len() <= s@.len() - i,
    ensures
        r == matches_at(s@, pat@, i as int),
{
    let n = s.len();
    let m = pat.len();
    let mut j: usize = 0;
    while j < m
        invariant
            n == s@.len(),
            m == pat@.len(),
            i + m <= n,
            j <= m,
            forall|k: int| 0 <= k < j ==> s@[i + k] == pat@[k],
        decreases m - j,
    {
        if s[i + j] != pat[j] {
            proof {
                if matches_at(s@, pat@, i as int) {
                    assert(s@.subrange(i as int, i + pat@.len())[j as int] == s@[i + j]);
                }
            }
            return false;
        }
        j = j + 1;
    }
    assert(s@.subrange(i as int, i + pat@.len()) =~= pat@);
    true
}

/// First occurrence of `pat` in `s` at or after `from`, scanning forward.
pub fn find_pattern(s: &Vec<char>, pat: &Vec<char>, from: usize) -> (r: Option<usize>)
    requires
        from <= s@.len(),
    ensures
        match r {
            Some(i) => find_from(s@, pat@, from as int) == Some(i as int) && from <= i && i
                + pat@.len() <= s@.len(),
            None => find_from(s@, pat@, from as int) is None,
        },
{
    let n = s.len();
    let mut i: usize = from;
    loop
        invariant
            n == s@.len(),
            from <= i <= n,
            find_from(s@, pat@, from as int) == find_from(s@, pat@, i as int),
        decreases n - i,
    {
        if pat.len() > n - i {
            return None;
        }
        if matches_at_exec(s, pat, i) {
            return Some(i);
        }
        proof {
            if pat@.len() == 0 {
                assert(s@.subrange(i as int, i as int) =~= pat@);
            }
        }
        assert(i < n);
        i = i + 1;
    }
}

/// Relies on `char::from_u32`: returns `Some` exactly for Unicode scalar
/// values (everything up to `0x10FFFF` except the surrogate range), and the
/// returned character has the given value.
#[verifier::external_body]
fn char_from_u32(v: u32) -> (r: Option<char>)
    ensures
        r is Some <==> valid_unit(v),
        r is Some ==> r->0 as u32 == v,
{
    char::from_u32(v)
}

fn hex_digit(c: char) -> (r: Option<u32>)
    ensures
        r == hex_digit_of(c),
{
    if c == '0' {
        Some(0u32)
    } else if c == '1' {
        Some(1u32)
    } else if c == '2' {
        Some(2u32)
    } else if c == '3' {
        Some(3u32)
    } else if c == '4' {
        Some(4u32)
    } else if c == '5' {
        Some(5u32)
    } else if c == '6' {
        Some(6u32)
    } else if c == '7' {
        Some(7u32)
    } else if c == '8' {
        Some(8u32)
    } else if c == '9' {
        Some(9u32)
    } else if c == 'a' || c == 'A' {
        Some(10u32)
    } else if c == 'b' || c == 'B' {
        Some(11u32)
    } else if c == 'c' || c == 'C' {
        Some(12u32)
    } else if c == 'd' || c == 'D' {
        Some(13u32)
    } else if c == 'e' || c == 'E' {
        Some(14u32)
    } else if c == 'f' || c == 'F' {
        Some(15u32)
    } else {
        None
    }
}

fn simple_escape(c: char) -> (r: char)
    ensures
        r == simple_escape_value(c),
{
    if c == 'b' {
        '\u{0008}'
    } else if c == 'f' {
        '\u{000C}'
    } else if c == 'n' {
        '\n'
    } else if c == 'r' {
        '\r'
    } else if c == 't' {
        '\t'
    } else {
        c
    }
}

/// How a decoded prefix combines with the decoding of the rest of the body.
pub open spec fn opt_prepend(p: Seq<char>, o: Option<Seq<char>>) -> Option<Seq<char>> {
    match o {
        Some(t) => Some(p + t),
        None => None,
    }
}

proof fn lemma_opt_prepend_assoc(p: Seq<char>, q: Seq<char>, o: Option<Seq<char>>)
    ensures
        opt_prepend(p, opt_prepend(q, o)) == opt_prepend(p + q, o),
{
    match o {
        Some(t) => {
            assert(p + (q + t) =~= (p + q) + t);
        },
        None => {},
    }
}

/// Decode the JSON string body of `s` starting at `start`, up to its closing
/// quote, per [`decode_str`].
pub fn decode_string_value(s: &Vec<char>, start: usize) -> (r: Option<Vec<char>>)
    requires
        start <= s@.len(),
    ensures
        match r {
            Some(v) => decode_str(s@.skip(start as int)) == Some(v@),
            None => decode_str(s@.skip(start as int)) is None,
        },
{
    let mut i: usize = start;
    let mut out: Vec<char> = Vec::new();
    assert(opt_prepend(out@, decode_str(s@.skip(start as int))) == decode_str(
        s@.skip(start as int),
    )) by {
        match decode_str(s@.skip(start as int)) {
            Some(t) => {
                assert(out@ + t =~= t);
            },
            None => {},
        }
    }
    loop
        invariant
            start <= i <= s@.len(),
            decode_str(s@.skip(start as int)) == opt_prepend(out@, decode_str(s@.skip(i as int))),
        decreases s@.len() - i,
    {
        let ghost rem = s@.skip(i as int);
        if i == s.len() {
            assert(rem.len() == 0);
            return None;
        }
        let c = s[i];
        assert(rem[0] == s@[i as int]);
        if c == '"' {
            assert(decode_str(rem) == Some(Seq::<char>::empty()));
            assert(out@ + Seq::<char>::empty() =~= out@);
            return Some(out);
        }
        let ghost out_pre = out@;
        if c == '\\' {
            if s.len() - i == 1 {
                assert(rem.len() == 1);
                return None;
            }
            let e = s[i + 1];
            assert(rem[1] == s@[i as int + 1]);
            if e == 'u' {
                if s.len() - i < 6 {
                    assert(rem.len() < 6);
                    return None;
                }
                let ca = s[i + 2];
                let cb = s[i + 3];
                let cc = s[i + 4];
                let cd = s[i + 5];
                assert(rem[2] == ca && rem[3] == cb && rem[4] == cc && rem[5] == cd);
                assert(rem.skip(6) =~= s@.skip(i as int + 6));
                let ghost uadd = unicode_escape_value(ca, cb, cc, cd);
                match (hex_digit(ca), hex_digit(cb), hex_digit(cc), hex_digit(cd)) {
                    (Some(va), Some(vb), Some(vc), Some(vd)) => {
                        let v: u32 = va * 4096 + vb * 256 + vc * 16 + vd;
                        assert(v == hex4_val(ca, cb, cc, cd));
                        match char_from_u32(v) {
                            Some(ch) => {
                                proof {
                                    vstd::utf8::char_u32_cast(ch, v);
                                }
                                out.push(ch);
                                assert(out@ =~= out_pre + uadd);
                            },
                            None => {
                                assert(out@ =~= out_pre + uadd);
                            },
                        }
                    },
                    _ => {
                        assert(uadd =~= Seq::<char>::empty());
                        assert(out@ =~= out_pre + uadd);
                    },
                }
                proof {
                    lemma_opt_prepend_assoc(out_pre, uadd, decode_str(s@.skip(i as int + 6)));
                }
                i = i + 6;
            } else {
                let sc = simple_escape(e);
                assert(rem.skip(2) =~= s@.skip(i as int + 2));
                out.push(sc);
                assert(out@ =~= out_pre + seq![simple_escape_value(rem[1])]);
                proof {
                    lemma_opt_prepend_assoc(
                        out_pre,
                        seq![simple_escape_value(rem[1])],
                        decode_str(s@.skip(i as int + 2)),
                    );
                }
                i = i + 2;
            }
        } else {
            assert(rem.skip(1) =~= s@.skip(i as int + 1));
            out.push(c);
            assert(out@ =~= out_pre + seq![rem[0]]);
            proof {
                lemma_opt_prepend_assoc(out_pre, seq![rem[0]], decode_str(s@.skip(i as int + 1)));
            }
            i = i + 1;
        }
    }
}

/// Extract the decoded string value of `key` from the first object
/// introduced by `marker` in `raw`, per [`extract_spec`].
pub fn extract(raw: &str, marker: &str, key: &str) -> (r: Result<String, ExtractError>)
    ensures
        match r {
            Ok(v) => extract_spec(raw@, marker@, key@) == Ok::<Seq<char>, ExtractError>(v@),
            Err(e) => extract_spec(raw@, marker@, key@) == Err::<Seq<char>, ExtractError>(e),
        },
{
    let rawc = chars_of_str(raw);
    let markerc = chars_of_str(marker);
    let keyc = chars_of_str(key);
    let rn = rawc.len();
    match find_pattern(&rawc, &markerc, 0) {
        None => Err(ExtractError::NotFound),
        Some(m) => {
            let mut pat: Vec<char> = Vec::new();
            pat.push('"');
            push_all(&mut pat, &keyc);
            pat.push('"');
            pat.push(':');
            pat.push('"');
            assert(pat@ =~= field_pattern(key@));
            assert(m + markerc@.len() <= rn);
            let rest = m + markerc.len();
            match find_pattern(&rawc, &pat, rest) {
                None => Err(ExtractError::NotFound),
                Some(p) => {
                    assert(p + pat@.len() <= rn);
                    let vstart = p + pat.len();
                    match decode_string_value(&rawc, vstart) {
                        None => Err(ExtractError::Malformed),
                        Some(v) => Ok(string_of_chars(&v)),
                    }
                },
            }
        },
    }
}

/// The decoded `content` string of the object introduced by the first
/// `"message"` marker: the chat-style response envelope.
pub fn extract_message_content(resp_json: &str) -> (r: Option<String>)
    ensures
        match r {
            Some(v) => extract_spec(resp_json@, "\"message\""@, "content"@) == Ok::<
                Seq<char>,
                ExtractError,
            >(v@),
            None => extract_spec(resp_json@, "\"message\""@, "content"@) is Err,
        },
{
    match extract(resp_json, "\"message\"", "content") {
        Ok(s) => Some(s),
        Err(_) => None,
    }
}

/// The decoded `text` string that follows the first entry whose `type` field
/// equals `output_text`: the second response envelope shape.
pub fn extract_first_output_text(resp_json: &str) -> (r: Option<String>)
    ensures
        match r {
            Some(v) => extract_spec(resp_json@, "\"type\":\"output_text\""@, "text"@) == Ok::<
                Seq<char>,
                ExtractError,
            >(v@),
            None => extract_spec(resp_json@, "\"type\":\"output_text\""@, "text"@) is Err,
        },
{
    match extract(resp_json, "\"type\":\"output_text\"", "text") {
        Ok(s) => Some(s),
        Err(_) => None,
    }
}

/// The escape sequence written for one character when embedding text in a
/// JSON string: the two-character escapes for quote, backslash, newline,
/// carriage return and tab, a `\u00XX` escape for any other control
/// character, and the character itself otherwise.
pub open spec fn escape_char_spec(c: char) -> Seq<char> {
    if c == '"' {
        seq!['\\', '"']
    } else if c == '\\' {
        seq!['\\', '\\']
    } else if c == '\n' {
        seq!['\\', 'n']
    } else if c == '\r' {
        seq!['\\', 'r']
    } else if c == '\t' {
        seq!['\\', 't']
    } else if (c as u32) < 0x20 {
        seq!['\\', 'u', '0', '0', hex_char_of((c as u32) / 16), hex_char_of((c as u32) % 16)]
    } else {
        seq![c]
    }
}

/// JSON string escaping of a whole text, character by character.
pub open spec fn json_escape_spec(s: Seq<char>) -> Seq<char>
    decreases s.len(),
{
    if s.len() == 0 {
        Seq::empty()
    } else {
        escape_char_spec(s[0]) + json_escape_spec(s.drop_first())
    }
}

proof fn lemma_escape_snoc(s: Seq<char>, c: char)
    ensures
        json_escape_spec(s.push(c)) == json_escape_spec(s) + escape_char_spec(c),
    decreases s.len(),
{
    if s.len() == 0 {
        assert(s.push(c)[0] == c);
        assert(s.push(c).drop_first() =~= Seq::<char>::empty());
        assert(json_escape_spec(s.push(c)) == escape_char_spec(c) + json_escape_spec(
            s.push(c).drop_first(),
        ));
        assert(json_escape_spec(Seq::<char>::empty()) == Seq::<char>::empty());
        assert(json_escape_spec(s.push(c)) =~= escape_char_spec(c));
        assert(json_escape_spec(s) + escape_char_spec(c) =~= escape_char_spec(c));
    } else {
        assert(s.push(c)[0] == s[0]);
        assert(s.push(c).drop_first() =~= s.drop_first().push(c));
        lemma_escape_snoc(s.drop_first(), c);
        assert(escape_char_spec(s[0]) + (json_escape_spec(s.drop_first()) + escape_char_spec(c))
            =~= (escape_char_spec(s[0]) + json_escape_spec(s.drop_first())) + escape_char_spec(c));
    }
}

fn hex_char(v: u32) -> (c: char)
    requires
        v < 16,
    ensures
        c == hex_char_of(v),
{
    if v == 0 {
        '0'
    } else if v == 1 {
        '1'
    } else if v == 2 {
        '2'
    } else if v == 3 {
        '3'
    } else if v == 4 {
        '4'
    } else if v == 5 {
        '5'
    } else if v == 6 {
        '6'
    } else if v == 7 {
        '7'
    } else if v == 8 {
        '8'
    } else if v == 9 {
        '9'
    } else if v == 10 {
        'a'
    } else if v == 11 {
        'b'
    } else if v == 12 {
        'c'
    } else if v == 13 {
        'd'
    } else if v == 14 {
        'e'
    } else {
        'f'
    }
}

/// Escape `s` for embedding between quotes in a JSON document, per
/// [`json_escape_spec`].
pub fn json_escape(s: &str) -> (r: String)
    ensures
        r@ == json_escape_spec(s@),
{
    let chars = chars_of_str(s);
    let mut out: Vec<char> = Vec::new();
    let mut i: usize = 0;
    assert(out@ =~= json_escape_spec(s@.take(0)));
    while i < chars.len()
        invariant
            chars@ == s@,
            i <= s@.len(),
            out@ == json_escape_spec(s@.take(i as int)),
        decreases s@.len() - i,
    {
        let c = chars[i];
        let ghost out_pre = out@;
        if c == '"' {
            out.push('\\');
            out.push('"');
        } else if c == '\\' {
            out.push('\\');
            out.push('\\');
        } else if c == '\n' {
            out.push('\\');
            out.push('n');
        } else if c == '\r' {
            out.push('\\');
            out.push('r');
        } else if c == '\t' {
            out.push('\\');
            out.push('t');
        } else if (c as u32) < 0x20 {
            let v = c as u32;
            out.push('\\');
            out.push('u');
            out.push('0');
            out.push('0');
            out.push(hex_char(v / 16));
            out.push(hex_char(v % 16));
        } else {
            out.push(c);
        }
        assert(out@ =~= out_pre + escape_char_spec(c));
        proof {
            lemma_escape_snoc(s@.take(i as int), c);
            assert(s@.take(i as int).push(c) =~= s@.take(i as int + 1));
        }
        i = i + 1;
    }
    assert(s@.take(i as int) =~= s@);
    string_of_chars(&out)
}

/// Law: the scanner commits to the first occurrence of a pattern — a found
/// position matches, lies at or after the scan start, and no earlier
/// position at or after the start matches.
pub proof fn lemma_find_from_first(s: Seq<char>, pat: Seq<char>, from: int, i: int)
    requires
        0 <= from,
        find_from(s, pat, from) == Some(i),
    ensures
        matches_at(s, pat, i),
        from <= i,
        forall|j: int| from <= j < i ==> !matches_at(s, pat, j),
    decreases s.len() - from + 1,
{
    if from + pat.len() > s.len() {
        assert(false);
    } else if matches_at(s, pat, from) {
    } else {
        lemma_find_from_first(s, pat, from + 1, i);
    }
}

proof fn lemma_find_from_none(s: Seq<char>, pat: Seq<char>, from: int)
    requires
        0 <= from,
        forall|j: int| from <= j ==> !matches_at(s, pat, j),
    ensures
        find_from(s, pat, from) is None,
    decreases s.len() - from + 1,
{
    if from + pat.len() > s.len() {
    } else if matches_at(s, pat, from) {
        assert(false);
    } else {
        lemma_find_from_none(s, pat, from + 1);
    }
}

/// Law: when the marker occurs nowhere in the envelope, extraction reports
/// `NotFound` — never a default or empty success.
pub proof fn lemma_missing_marker_not_found(raw: Seq<char>, marker: Seq<char>, key: Seq<char>)
    requires
        forall|j: int| !matches_at(raw, marker, j),
    ensures
        extract_spec(raw, marker, key) == Err::<Seq<char>, ExtractError>(ExtractError::NotFound),
{
    lemma_find_from_none(raw, marker, 0);
}

/// Law: a `\uXXXX` escape carrying an unpaired surrogate contributes no
/// character; the rest of the value decodes exactly as it would without the
/// escape, and decoding does not fail on its account.
pub proof fn lemma_surrogate_escape_skipped(a: char, b: char, c: char, d: char, rest: Seq<char>)
    requires
        all_hex4(a, b, c, d),
        0xD800 <= hex4_val(a, b, c, d) < 0xE000,
    ensures
        decode_str(seq!['\\', 'u', a, b, c, d] + rest) == decode_str(rest),
{
    let full = seq!['\\', 'u', a, b, c, d] + rest;
    assert(full[0] == '\\' && full[1] == 'u');
    assert(full.len() >= 6);
    assert(full.skip(6) =~= rest);
    assert(!valid_unit(hex4_val(a, b, c, d)));
    assert(unicode_escape_value(a, b, c, d) == Seq::<char>::empty());
    match decode_str(rest) {
        Some(t) => {
            assert(Seq::<char>::empty() + t =~= t);
        },
        None => {},
    }
}

/// Law: a value that never closes cannot decode: when no quote character at
/// all remains in the input, the string body is malformed, never a partial
/// or guessed value.
pub proof fn lemma_unterminated_malformed(s: Seq<char>)
    requires
        forall|i: int| 0 <= i < s.len() ==> s[i] != '"',
    ensures
        decode_str(s) is None,
    decreases s.len(),
{
    if s.len() == 0 {
    } else if s[0] == '\\' {
        if s.len() == 1 {
        } else if s[1] == 'u' {
            if s.len() < 6 {
            } else {
                assert forall|i: int| 0 <= i < s.skip(6).len() implies s.skip(6)[i] != '"' by {
                    assert(s.skip(6)[i] == s[i + 6]);
                }
                lemma_unterminated_malformed(s.skip(6));
            }
        } else {
            assert forall|i: int| 0 <= i < s.skip(2).len() implies s.skip(2)[i] != '"' by {
                assert(s.skip(2)[i] == s[i + 2]);
            }
            lemma_unterminated_malformed(s.skip(2));
        }
    } else {
        assert forall|i: int| 0 <= i < s.skip(1).len() implies s.skip(1)[i] != '"' by {
            assert(s.skip(1)[i] == s[i + 1]);
        }
        lemma_unterminated_malformed(s.skip(1));
    }
}

/// Law: decoding reverses escaping. For every text `s`, escaping it and
/// closing the value with an unescaped quote (whatever follows the quote)
/// decodes back to exactly `s`.
pub proof fn lemma_escape_decode_round_trip(s: Seq<char>, tail: Seq<char>)
    ensures
        decode_str(json_escape_spec(s) + seq!['"'] + tail) == Some(s),
    decreases s.len(),
{
    let full = json_escape_spec(s) + seq!['"'] + tail;
    if s.len() == 0 {
        assert(full[0] == '"');
        assert(decode_str(full) == Some(Seq::<char>::empty()));
        assert(Seq::<char>::empty() =~= s);
    } else {
        let c = s[0];
        let rest = s.drop_first();
        let e = escape_char_spec(c);
        let w = json_escape_spec(rest) + seq!['"'] + tail;
        lemma_escape_decode_round_trip(rest, tail);
        assert(json_escape_spec(s) == e + json_escape_spec(rest));
        assert(full =~= e + w);
        assert(s =~= seq![c] + rest);
        if c == '"' {
            assert(full[0] == '\\' && full[1] == '"');
            assert(full.skip(2) =~= w);
            assert(decode_str(full) == Some(seq![simple_escape_value('"')] + rest));
            assert(seq![simple_escape_value('"')] + rest =~= s);
        } else if c == '\\' {
            assert(full[0] == '\\' && full[1] == '\\');
            assert(full.skip(2) =~= w);
            assert(decode_str(full) == Some(seq![simple_escape_value('\\')] + rest));
            assert(seq![simple_escape_value('\\')] + rest =~= s);
        } else if c == '\n' {
            assert(full[0] == '\\' && full[1] == 'n');
            assert(full.skip(2) =~= w);
            assert(decode_str(full) == Some(seq![simple_escape_value('n')] + rest));
            assert(seq![simple_escape_value('n')] + rest =~= s);
        } else if c == '\r' {
            assert(full[0] == '\\' && full[1] == 'r');
            assert(full.skip(2) =~= w);
            assert(decode_str(full) == Some(seq![simple_escape_value('r')] + rest));
            assert(seq![simple_escape_value('r')] + rest =~= s);
        } else if c == '\t' {
            assert(full[0] == '\\' && full[1] == 't');
            assert(full.skip(2) =~= w);
            assert(decode_str(full) == Some(seq![simple_escape_value('t')] + rest));
            assert(seq![simple_escape_value('t')] + rest =~= s);
        } else if (c as u32) < 0x20 {
            let v = c as u32;
            let h1 = hex_char_of(v / 16);
            let h0 = hex_char_of(v % 16);
            assert(full[0] == '\\' && full[1] == 'u' && full[2] == '0' && full[3] == '0' && full[4]
                == h1 && full[5] == h0);
            assert(full.len() >= 6);
            assert(full.skip(6) =~= w);
            assert(hex_digit_of('0') == Some(0u32));
            assert(hex_digit_of(h1) == Some(v / 16));
            assert(hex_digit_of(h0) == Some(v % 16));
            assert(all_hex4('0', '0', h1, h0));
            vstd::arithmetic::div_mod::lemma_fundamental_div_mod(v as int, 16);
            assert(hex4_val('0', '0', h1, h0) == v);
            assert(valid_unit(v));
            assert(unicode_escape_value('0', '0', h1, h0) == seq![v as char]);
            vstd::utf8::char_u32_cast(c, v);
            assert((v as char) == c);
            assert(decode_str(full) == Some(seq![c] + rest));
        } else {
            assert(full[0] == c);
            assert(c != '"' && c != '\\');
            assert(full.skip(1) =~= w);
            assert(decode_str(full) == Some(seq![c] + rest));
        }
    }
}

/// Law: extraction reverses escaping, end to end. In an envelope whose
/// marker is first found at `m` and whose key pattern is first found at
/// `p`, if the text after the pattern is an escaped value closed by a quote
/// (whatever follows that quote), extraction returns exactly the unescaped
/// value.
pub proof fn lemma_extract_round_trip(
    raw: Seq<char>,
    marker: Seq<char>,
    key: Seq<char>,
    s: Seq<char>,
    tail: Seq<char>,
    m: int,
    p: int,
)
    requires
        find_from(raw, marker, 0) == Some(m),
        find_from(raw, field_pattern(key), m + marker.len()) == Some(p),
        raw.skip(p + field_pattern(key).len()) == json_escape_spec(s) + seq!['"'] + tail,
    ensures
        extract_spec(raw, marker, key) == Ok::<Seq<char>, ExtractError>(s),
{
    lemma_escape_decode_round_trip(s, tail);
}

} // verus!
