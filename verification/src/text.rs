//! Character-level helpers shared by the scanner, the settings parser and the
//! prompt builder: conversions between `str`/`String` and `Vec<char>`,
//! whitespace trimming, ASCII-case-insensitive comparison and decimal
//! formatting/parsing, each tied to a spec-level model over `Seq<char>`.
use vstd::prelude::*;
use vstd::string::StrSliceExecFns;

verus! {

/// Relies on `String::push`: appends exactly the given character.
#[verifier::external_body]
fn push_char(s: &mut String, c: char)
    ensures
        final(s)@ == old(s)@.push(c),
{
    s.push(c);
}

/// Relies on `String::push_str`: appends exactly the given string slice.
#[verifier::external_body]
pub fn append_str(s: &mut String, t: &str)
    ensures
        final(s)@ == old(s)@ + t@,
{
    s.push_str(t);
}

/// The characters of `s`, in order, as a vector.
pub fn chars_of_str(s: &str) -> (r: Vec<char>)
    ensures
        r@ == s@,
{
    let n = s.unicode_len();
    let mut v: Vec<char> = Vec::new();
    let mut i: usize = 0;
    while i < n
        invariant
            n == s@.len(),
            i <= n,
            v@ == s@.take(i as int),
        decreases n - i,
    {
        let c = s.get_char(i);
        v.push(c);
        assert(v@ =~= s@.take(i as int + 1));
        i = i + 1;
    }
    assert(v@ =~= s@);
    v
}

/// A string holding exactly the characters of `v`.
pub fn string_of_chars(v: &Vec<char>) -> (r: String)
    ensures
        r@ == v@,
{
    let mut s = String::new();
    let mut i: usize = 0;
    while i < v.len()
        invariant
            i <= v@.len(),
            s@ == v@.take(i as int),
        decreases v@.len() - i,
    {
        push_char(&mut s, v[i]);
        assert(s@ =~= v@.take(i as int + 1));
        i = i + 1;
    }
    assert(s@ =~= v@);
    s
}

/// Copy of the characters of `s` between `lo` (inclusive) and `hi` (exclusive).
pub fn chars_range(s: &Vec<char>, lo: usize, hi: usize) -> (r: Vec<char>)
    requires
        lo <= hi <= s@.len(),
    ensures
        r@ == s@.subrange(lo as int, hi as int),
{
    let mut v: Vec<char> = Vec::new();
    let mut i: usize = lo;
    while i < hi
        invariant
            lo <= i <= hi <= s@.len(),
            v@ == s@.subrange(lo as int, i as int),
        decreases hi - i,
    {
        v.push(s[i]);
        assert(v@ =~= s@.subrange(lo as int, i as int + 1));
        i = i + 1;
    }
    v
}

/// Append every character of `src` to `dst`, in order.
pub fn push_all(dst: &mut Vec<char>, src: &Vec<char>)
    ensures
        final(dst)@ == old(dst)@ + src@,
{
    let mut i: usize = 0;
    while i < src.len()
        invariant
            i <= src@.len(),
            dst@ == old(dst)@ + src@.take(i as int),
        decreases src@.len() - i,
    {
        dst.push(src[i]);
        assert(dst@ =~= old(dst)@ + src@.take(i as int + 1));
        i = i + 1;
    }
    assert(dst@ =~= old(dst)@ + src@);
}

/// Character-for-character string equality.
pub fn str_eq(a: &str, b: &str) -> (r: bool)
    ensures
        r == (a@ == b@),
{
    let na = a.unicode_len();
    let nb = b.unicode_len();
    if na != nb {
        assert(a@ != b@);
        return false;
    }
    let mut i: usize = 0;
    while i < na
        invariant
            na == a@.len(),
            na == b@.len(),
            i <= na,
            forall|j: int| 0 <= j < i ==> a@[j] == b@[j],
        decreases na - i,
    {
        if a.get_char(i) != b.get_char(i) {
            return false;
        }
        i = i + 1;
    }
    assert(a@ =~= b@);
    true
}

/// The whitespace characters stripped by [`trim_chars`]: the ASCII blanks
/// that occur in configuration lines and interactive input.
pub open spec fn is_ws_char(c: char) -> bool {
    c == ' ' || c == '\t' || c == '\n' || c == '\r'
}

/// `s` with leading whitespace removed.
pub open spec fn trim_start_spec(s: Seq<char>) -> Seq<char>
    decreases s.len(),
{
    if s.len() > 0 && is_ws_char(s[0]) {
        trim_start_spec(s.drop_first())
    } else {
        s
    }
}

/// `s` with trailing whitespace removed.
pub open spec fn trim_end_spec(s: Seq<char>) -> Seq<char>
    decreases s.len(),
{
    if s.len() > 0 && is_ws_char(s.last()) {
        trim_end_spec(s.drop_last())
    } else {
        s
    }
}

/// `s` with leading and trailing whitespace removed.
pub open spec fn trim_spec(s: Seq<char>) -> Seq<char> {
    trim_end_spec(trim_start_spec(s))
}

fn is_ws(c: char) -> (r: bool)
    ensures
        r == is_ws_char(c),
{
    c == ' ' || c == '\t' || c == '\n' || c == '\r'
}

/// The characters of `s` with leading and trailing whitespace removed.
pub fn trim_chars(s: &Vec<char>) -> (r: Vec<char>)
    ensures
        r@ == trim_spec(s@),
{
    let mut lo: usize = 0;
    assert(s@.skip(0) =~= s@);
    while lo < s.len() && is_ws(s[lo])
        invariant
            lo <= s@.len(),
            trim_start_spec(s@) == trim_start_spec(s@.skip(lo as int)),
        decreases s@.len() - lo,
    {
        assert(s@.skip(lo as int).drop_first() =~= s@.skip(lo as int + 1));
        lo = lo + 1;
    }
    let ghost t = s@.skip(lo as int);
    assert(trim_start_spec(s@) == t);
    let mut hi: usize = s.len();
    assert(t =~= t.take(hi - lo));
    while hi > lo && is_ws(s[hi - 1])
        invariant
            lo <= hi <= s@.len(),
            t == s@.skip(lo as int),
            trim_end_spec(t) == trim_end_spec(t.take(hi - lo)),
        decreases hi,
    {
        assert(t.take(hi - lo).last() == s@[hi - 1]);
        assert(t.take(hi - lo).drop_last() =~= t.take(hi - 1 - lo));
        hi = hi - 1;
    }
    assert(trim_end_spec(t.take(hi - lo)) == t.take(hi - lo)) by {
        if hi > lo {
            assert(t.take(hi - lo).last() == s@[hi - 1]);
        }
    }
    let r = chars_range(s, lo, hi);
    assert(r@ =~= t.take(hi - lo));
    r
}

/// Case-insensitive equality of two characters, folding only the ASCII
/// letters; all other characters must match exactly.
pub open spec fn char_ieq(x: char, y: char) -> bool {
    x == y || ('A' <= x && x <= 'Z' && (x as u32) + 32 == (y as u32)) || ('A' <= y && y <= 'Z'
        && (y as u32) + 32 == (x as u32))
}

/// ASCII-case-insensitive equality of two character sequences.
pub open spec fn seq_ieq(a: Seq<char>, b: Seq<char>) -> bool {
    a.len() == b.len() && (forall|i: int| 0 <= i < a.len() ==> char_ieq(a[i], b[i]))
}

/// ASCII-case-insensitive comparison of `a` against the characters of `lit`.
pub fn chars_ieq_str(a: &Vec<char>, lit: &str) -> (r: bool)
    ensures
        r == seq_ieq(a@, lit@),
{
    let n = lit.unicode_len();
    if a.len() != n {
        return false;
    }
    let mut i: usize = 0;
    while i < n
        invariant
            n == lit@.len(),
            n == a@.len(),
            i <= n,
            forall|j: int| 0 <= j < i ==> char_ieq(a@[j], lit@[j]),
        decreases n - i,
    {
        let x = a[i];
        let y = lit.get_char(i);
        let xv = x as u32;
        let yv = y as u32;
        let eq = x == y || ('A' <= x && x <= 'Z' && xv + 32 == yv) || ('A' <= y && y <= 'Z' && yv
            + 32 == xv);
        if !eq {
            return false;
        }
        i = i + 1;
    }
    true
}

/// Character-for-character comparison of `a` against the characters of
/// `lit`.
pub fn chars_eq_str(a: &Vec<char>, lit: &str) -> (r: bool)
    ensures
        r == (a@ == lit@),
{
    let n = lit.unicode_len();
    if a.len() != n {
        return false;
    }
    let mut i: usize = 0;
    while i < n
        invariant
            n == lit@.len(),
            n == a@.len(),
            i <= n,
            forall|j: int| 0 <= j < i ==> a@[j] == lit@[j],
        decreases n - i,
    {
        if a[i] != lit.get_char(i) {
            return false;
        }
        i = i + 1;
    }
    assert(a@ =~= lit@);
    true
}

/// The views of a vector of owned strings.
pub open spec fn strs_view(v: Seq<String>) -> Seq<Seq<char>>
    decreases v.len(),
{
    if v.len() == 0 {
        Seq::empty()
    } else {
        strs_view(v.drop_last()).push(v.last()@)
    }
}

/// The length and elements of [`strs_view`], position by position.
pub proof fn lemma_strs_view_index(v: Seq<String>, i: int)
    requires
        0 <= i < v.len(),
    ensures
        strs_view(v).len() == v.len(),
        strs_view(v)[i] == v[i]@,
    decreases v.len(),
{
    lemma_strs_view_len(v);
    if v.len() > 0 {
        if i == v.len() - 1 {
        } else {
            lemma_strs_view_index(v.drop_last(), i);
            assert(v.drop_last()[i] == v[i]);
        }
    }
}

/// [`strs_view`] keeps the length.
pub proof fn lemma_strs_view_len(v: Seq<String>)
    ensures
        strs_view(v).len() == v.len(),
    decreases v.len(),
{
    if v.len() > 0 {
        lemma_strs_view_len(v.drop_last());
    }
}

/// The views of an optional vector of owned strings.
pub open spec fn opt_strs_view(o: Option<Vec<String>>) -> Option<Seq<Seq<char>>> {
    match o {
        Some(v) => Some(strs_view(v@)),
        None => None,
    }
}

/// `s` without its trailing slashes.
pub open spec fn trim_trailing_slashes(s: Seq<char>) -> Seq<char>
    decreases s.len(),
{
    if s.len() > 0 && s.last() == '/' {
        trim_trailing_slashes(s.drop_last())
    } else {
        s
    }
}

/// `base` without its trailing slashes, then `path`.
pub fn join_url(base: &str, path: &str) -> (r: String)
    ensures
        r@ == trim_trailing_slashes(base@) + path@,
{
    let c = chars_of_str(base);
    let mut hi = c.len();
    assert(c@ =~= c@.take(hi as int));
    while hi > 0 && c[hi - 1] == '/'
        invariant
            hi <= c@.len(),
            c@ == base@,
            trim_trailing_slashes(base@) == trim_trailing_slashes(base@.take(hi as int)),
        decreases hi,
    {
        assert(base@.take(hi as int).last() == base@[hi - 1]);
        assert(base@.take(hi as int).drop_last() =~= base@.take(hi - 1));
        hi = hi - 1;
    }
    assert(trim_trailing_slashes(base@.take(hi as int)) == base@.take(hi as int)) by {
        if hi > 0 {
            assert(base@.take(hi as int).last() == base@[hi - 1]);
        }
    }
    let head = chars_range(&c, 0, hi);
    assert(head@ =~= base@.take(hi as int));
    let mut r = string_of_chars(&head);
    append_str(&mut r, path);
    r
}

/// Digit value of a decimal digit character.
pub open spec fn dec_digit_of(c: char) -> Option<u32> {
    if c == '0' {
        Some(0u32)
    } else if c == '1' {
        Some(1u32)
    } else if c == '2' {
        Some(2u32)
    } else if c == '3' {
        Some(3u32)
    } else if c == '4' {
        Some(4u32)
    } else if c == '5' {
        Some(5u32)
    } else if c == '6' {
        Some(6u32)
    } else if c == '7' {
        Some(7u32)
    } else if c == '8' {
        Some(8u32)
    } else if c == '9' {
        Some(9u32)
    } else {
        None
    }
}

/// Character for a decimal digit value.
pub open spec fn dec_char_of(v: u32) -> char
    recommends
        v < 10,
{
    if v == 0 {
        '0'
    } else if v == 1 {
        '1'
    } else if v == 2 {
        '2'
    } else if v == 3 {
        '3'
    } else if v == 4 {
        '4'
    } else if v == 5 {
        '5'
    } else if v == 6 {
        '6'
    } else if v == 7 {
        '7'
    } else if v == 8 {
        '8'
    } else {
        '9'
    }
}

fn dec_char(v: u32) -> (c: char)
    requires
        v < 10,
    ensures
        c == dec_char_of(v),
{
    if v == 0 {
        '0'
    } else if v == 1 {
        '1'
    } else if v == 2 {
        '2'
    } else if v == 3 {
        '3'
    } else if v == 4 {
        '4'
    } else if v == 5 {
        '5'
    } else if v == 6 {
        '6'
    } else if v == 7 {
        '7'
    } else if v == 8 {
        '8'
    } else {
        '9'
    }
}

/// Decimal rendering of a natural number, without sign or padding.
pub open spec fn dec_str_of(n: nat) -> Seq<char>
    decreases n,
{
    if n < 10 {
        seq![dec_char_of(n as u32)]
    } else {
        dec_str_of(n / 10) + seq![dec_char_of((n % 10) as u32)]
    }
}

/// The decimal rendering of `n`.
pub fn u64_to_string(n: u64) -> (r: String)
    ensures
        r@ == dec_str_of(n as nat),
    decreases n,
{
    if n < 10 {
        let mut s = String::new();
        push_char(&mut s, dec_char(n as u32));
        assert(s@ =~= dec_str_of(n as nat));
        s
    } else {
        let mut s = u64_to_string(n / 10);
        push_char(&mut s, dec_char((n % 10) as u32));
        assert(s@ =~= dec_str_of(n as nat));
        s
    }
}

/// Decimal rendering of a signed value: a minus sign, then the magnitude.
pub open spec fn dec_str_of_i32(n: i32) -> Seq<char> {
    if n >= 0 {
        dec_str_of(n as nat)
    } else {
        seq!['-'] + dec_str_of((-(n as int)) as nat)
    }
}

/// The decimal rendering of `n`, with a leading minus sign when negative.
pub fn i32_to_string(n: i32) -> (r: String)
    ensures
        r@ == dec_str_of_i32(n),
{
    if n >= 0 {
        u64_to_string(n as u64)
    } else {
        let mag: u64 = (-(n as i64)) as u64;
        let mut s = String::new();
        push_char(&mut s, '-');
        let tail = u64_to_string(mag);
        append_str(&mut s, tail.as_str());
        assert(s@ =~= dec_str_of_i32(n));
        s
    }
}

/// Numeric value of a digit string, most significant digit first; digits the
/// sequence does not contain count as zero.
pub open spec fn dec_val_of(s: Seq<char>) -> nat
    decreases s.len(),
{
    if s.len() == 0 {
        0
    } else {
        dec_val_of(s.drop_last()) * 10 + (match dec_digit_of(s.last()) {
            Some(v) => v as nat,
            None => 0,
        })
    }
}

/// Whether every character of `s` is a decimal digit.
pub open spec fn all_dec_digits(s: Seq<char>) -> bool {
    forall|i: int| 0 <= i < s.len() ==> dec_digit_of(s[i]) is Some
}

proof fn lemma_dec_val_prefix(s: Seq<char>, i: int)
    requires
        0 <= i <= s.len(),
    ensures
        dec_val_of(s.take(i)) <= dec_val_of(s),
    decreases s.len() - i,
{
    if i < s.len() {
        assert(s.take(i + 1).drop_last() =~= s.take(i));
        assert(s.take(i + 1).last() == s[i]);
        assert(dec_val_of(s.take(i)) <= dec_val_of(s.take(i + 1)));
        lemma_dec_val_prefix(s, i + 1);
    } else {
        assert(s.take(i) =~= s);
    }
}

fn dec_digit(c: char) -> (r: Option<u32>)
    ensures
        r == dec_digit_of(c),
{
    if c == '0' {
        Some(0u32)
    } else if c == '1' {
        Some(1u32)
    } else if c == '2' {
        Some(2u32)
    } else if c == '3' {
        Some(3u32)
    } else if c == '4' {
        Some(4u32)
    } else if c == '5' {
        Some(5u32)
    } else if c == '6' {
        Some(6u32)
    } else if c == '7' {
        Some(7u32)
    } else if c == '8' {
        Some(8u32)
    } else if c == '9' {
        Some(9u32)
    } else {
        None
    }
}

/// Parse an unsigned decimal number. Succeeds exactly on a non-empty string
/// of digits whose value fits in a `u64`.
pub fn parse_u64_chars(s: &Vec<char>) -> (r: Option<u64>)
    ensures
        r is Some <==> (s@.len() > 0 && all_dec_digits(s@) && dec_val_of(s@) <= u64::MAX),
        r is Some ==> r->0 as nat == dec_val_of(s@),
{
    if s.len() == 0 {
        return None;
    }
    let mut acc: u64 = 0;
    let mut i: usize = 0;
    while i < s.len()
        invariant
            i <= s@.len(),
            forall|j: int| 0 <= j < i ==> dec_digit_of(s@[j]) is Some,
            acc as nat == dec_val_of(s@.take(i as int)),
        decreases s@.len() - i,
    {
        match dec_digit(s[i]) {
            None => {
                return None;
            },
            Some(d) => {
                assert(s@.take(i as int + 1).drop_last() =~= s@.take(i as int));
                assert(s@.take(i as int + 1).last() == s@[i as int]);
                if acc > (u64::MAX - d as u64) / 10 {
                    proof {
                        assert(acc as nat * 10 + d as nat > u64::MAX) by (nonlinear_arith)
                            requires
                                acc as nat > ((u64::MAX - d as u64) as nat) / 10,
                                d < 10,
                        ;
                        lemma_dec_val_prefix(s@, i as int + 1);
                    }
                    return None;
                }
                acc = acc * 10 + d as u64;
                i = i + 1;
            },
        }
    }
    assert(s@.take(i as int) =~= s@);
    Some(acc)
}

} // verus!
