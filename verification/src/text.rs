//! Character-level text utilities with exact specifications: building
//! strings, decimal numbers, whitespace trimming, line splitting and the
//! ASCII classifications that identifiers and counters rely on.

use vstd::prelude::*;

verus! {

/// Appends one character to a string (std `String::push`).
#[verifier::external_body]
pub(crate) fn push_char(s: &mut String, c: char)
    ensures
        final(s)@ == old(s)@.push(c),
{
    s.push(c)
}

/// The characters of a string slice, in order.
pub fn chars_of(s: &str) -> (v: Vec<char>)
    ensures
        v@ == s@,
{
    let mut v: Vec<char> = Vec::new();
    for c in it: s.chars()
        invariant
            v@ == it.seq().take(it.index()),
            it.seq() == s@,
    {
        v.push(c);
    }
    v
}

/// Appends a sequence of characters to a string.
pub fn push_chars(s: &mut String, cs: &[char])
    ensures
        final(s)@ == old(s)@ + cs@,
{
    let ghost start = s@;
    let mut i: usize = 0;
    while i < cs.len()
        invariant
            i <= cs@.len(),
            s@ == start + cs@.take(i as int),
        decreases cs@.len() - i,
    {
        push_char(s, cs[i]);
        i = i + 1;
        assert(cs@.take(i as int) =~= cs@.take(i - 1).push(cs@[i - 1]));
    }
    assert(cs@.take(cs@.len() as int) =~= cs@);
}

/// A new string holding exactly the given characters.
pub fn string_from_chars(cs: &[char]) -> (s: String)
    ensures
        s@ == cs@,
{
    let mut s = String::new();
    push_chars(&mut s, cs);
    s
}

/// Appends a string slice to a string.
pub fn push_str(s: &mut String, t: &str)
    ensures
        final(s)@ == old(s)@ + t@,
{
    s.append(t);
}

/// Whether two character sequences are equal.
pub fn chars_eq(a: &[char], b: &[char]) -> (r: bool)
    ensures
        r == (a@ == b@),
{
    if a.len() != b.len() {
        return false;
    }
    let mut i: usize = 0;
    while i < a.len()
        invariant
            a@.len() == b@.len(),
            i <= a@.len(),
            forall|j: int| 0 <= j < i ==> a@[j] == b@[j],
        decreases a@.len() - i,
    {
        if a[i] != b[i] {
            return false;
        }
        i = i + 1;
    }
    assert(a@ =~= b@);
    true
}

/// Whether two string slices hold the same characters.
pub fn str_eq(a: &str, b: &str) -> (r: bool)
    ensures
        r == (a@ == b@),
{
    let ca = chars_of(a);
    let cb = chars_of(b);
    chars_eq(ca.as_slice(), cb.as_slice())
}

// ---------------------------------------------------------------------
// ASCII classification
// ---------------------------------------------------------------------

pub open spec fn is_digit(c: char) -> bool {
    '0' <= c && c <= '9'
}

pub open spec fn is_ascii_alphanumeric(c: char) -> bool {
    ||| is_digit(c)
    ||| ('a' <= c && c <= 'z')
    ||| ('A' <= c && c <= 'Z')
}

pub open spec fn is_lower_hex_digit(c: char) -> bool {
    is_digit(c) || ('a' <= c && c <= 'f')
}

/// ASCII lower-casing; every other character is unchanged.
pub open spec fn ascii_lower(c: char) -> char {
    if 'A' <= c && c <= 'Z' {
        ((c as u32) + 32) as char
    } else {
        c
    }
}

pub fn is_digit_exec(c: char) -> (r: bool)
    ensures
        r == is_digit(c),
{
    '0' <= c && c <= '9'
}

pub fn is_ascii_alphanumeric_exec(c: char) -> (r: bool)
    ensures
        r == is_ascii_alphanumeric(c),
{
    ('0' <= c && c <= '9') || ('a' <= c && c <= 'z') || ('A' <= c && c <= 'Z')
}

pub fn ascii_lower_exec(c: char) -> (r: char)
    ensures
        r == ascii_lower(c),
{
    if 'A' <= c && c <= 'Z' {
        let code: u32 = c as u32 + 32;
        let lowered = (code as u8) as char;
        assert(lowered == ((c as u32) + 32) as char) by {
            assert(code < 128);
        }
        lowered
    } else {
        c
    }
}

// ---------------------------------------------------------------------
// Decimal numbers
// ---------------------------------------------------------------------

pub open spec fn digit_char(d: nat) -> char {
    ((d + 48) as u32) as char
}

/// The decimal rendering of `n`, without sign or leading zeros.
pub open spec fn decimal(n: nat) -> Seq<char>
    decreases n,
{
    if n < 10 {
        seq![digit_char(n)]
    } else {
        decimal(n / 10).push(digit_char(n % 10))
    }
}

fn digit_char_exec(d: u8) -> (c: char)
    requires
        d < 10,
    ensures
        c == digit_char(d as nat),
{
    ((d + 48) as u8) as char
}

/// Appends the decimal rendering of `n`.
pub fn push_decimal(s: &mut String, n: u128)
    ensures
        final(s)@ == old(s)@ + decimal(n as nat),
    decreases n,
{
    if n >= 10 {
        push_decimal(s, n / 10);
    }
    let d = (n % 10) as u8;
    push_char(s, digit_char_exec(d));
    assert(n < 10 ==> decimal(n as nat) == seq![digit_char(n as nat)]);
}

/// The decimal value of a sequence of digits.
pub open spec fn digits_value(s: Seq<char>) -> nat
    decreases s.len(),
{
    if s.len() == 0 {
        0
    } else {
        digits_value(s.drop_last()) * 10 + ((s.last() as u32) - 48) as nat
    }
}

pub open spec fn all_digits(s: Seq<char>) -> bool {
    forall|i: int| 0 <= i < s.len() ==> is_digit(#[trigger] s[i])
}

/// What std's `from_str` gives for an unsigned integer type whose largest
/// value is `max`: an optional `+`, then at least one ASCII digit, and the
/// value may not exceed `max`.
pub open spec fn parse_unsigned_spec(s: Seq<char>, max: nat) -> Option<nat> {
    let body = if s.len() > 0 && s[0] == '+' { s.drop_first() } else { s };
    if body.len() > 0 && all_digits(body) && digits_value(body) <= max {
        Some(digits_value(body))
    } else {
        None
    }
}

/// What std's `from_str` gives for a signed integer type with range
/// `[min, max]`: an optional sign, then at least one ASCII digit.
pub open spec fn parse_signed_spec(s: Seq<char>, min: int, max: int) -> Option<int> {
    if s.len() > 0 && s[0] == '-' {
        let body = s.drop_first();
        if body.len() > 0 && all_digits(body) && -(digits_value(body) as int) >= min {
            Some(-(digits_value(body) as int))
        } else {
            None
        }
    } else {
        match parse_unsigned_spec(s, max as nat) {
            Some(v) => if max >= 0 { Some(v as int) } else { None },
            None => None,
        }
    }
}

proof fn lemma_digits_value_step(s: Seq<char>, i: int)
    requires
        0 <= i < s.len(),
    ensures
        digits_value(s.take(i + 1)) == digits_value(s.take(i)) * 10 + ((s[i] as u32) - 48) as nat,
{
    assert(s.take(i + 1).drop_last() =~= s.take(i));
}

/// Reads the digits `cs[from..]` as a number no larger than `max`.
fn read_digits(cs: &[char], from: usize, max: u128) -> (r: Option<u128>)
    requires
        from <= cs@.len(),
    ensures
        ({
            let body = cs@.subrange(from as int, cs@.len() as int);
            match r {
                Some(v) => body.len() > 0 && all_digits(body) && digits_value(body) <= max
                    && v == digits_value(body),
                None => !(body.len() > 0 && all_digits(body) && digits_value(body) <= max),
            }
        }),
{
    let ghost body = cs@.subrange(from as int, cs@.len() as int);
    if from == cs.len() {
        return None;
    }
    let mut acc: u128 = 0;
    let mut i: usize = from;
    while i < cs.len()
        invariant
            from <= i <= cs@.len(),
            body == cs@.subrange(from as int, cs@.len() as int),
            all_digits(body.take(i - from)),
            acc == digits_value(body.take(i - from)),
            acc <= max,
        decreases cs@.len() - i,
    {
        let c = cs[i];
        proof {
            lemma_digits_value_step(body, i - from);
            assert(body[i - from] == c);
        }
        if !is_digit_exec(c) {
            assert(!all_digits(body)) by {
                assert(!is_digit(body[i - from]));
            }
            return None;
        }
        let d: u128 = (c as u32 - 48) as u128;
        if d > max || acc > (max - d) / 10 {
            proof {
                if all_digits(body) {
                    lemma_digits_prefix_bound(body, (i - from + 1) as int);
                }
            }
            return None;
        }
        assert(acc * 10 + d <= max) by (nonlinear_arith)
            requires
                acc <= (max - d) / 10,
                d <= max,
        ;
        acc = acc * 10 + d;
        i = i + 1;
        assert(all_digits(body.take(i - from))) by {
            assert forall|j: int| 0 <= j < body.take(i - from).len() implies is_digit(
                #[trigger] body.take(i - from)[j],
            ) by {
                if j < i - from - 1 {
                    assert(body.take(i - from)[j] == body.take(i - from - 1)[j]);
                }
            }
        }
    }
    assert(body.take(cs@.len() - from) =~= body);
    Some(acc)
}

/// The value of a digit sequence is at least the value of any prefix.
proof fn lemma_digits_prefix_bound(s: Seq<char>, k: int)
    requires
        0 <= k <= s.len(),
        all_digits(s),
    ensures
        digits_value(s) >= digits_value(s.take(k)),
    decreases s.len(),
{
    if k == s.len() {
        assert(s.take(k) =~= s);
    } else {
        lemma_digits_prefix_bound(s.drop_last(), k);
        assert(s.drop_last().take(k) =~= s.take(k));
        assert(all_digits(s.drop_last())) by {
            assert forall|i: int| 0 <= i < s.drop_last().len() implies is_digit(
                #[trigger] s.drop_last()[i],
            ) by {
                assert(s.drop_last()[i] == s[i]);
            }
        }
        assert(digits_value(s) >= digits_value(s.drop_last())) by {
            assert(digits_value(s) == digits_value(s.drop_last()) * 10 + ((s.last() as u32)
                - 48) as nat);
        }
    }
}

/// Parses an unsigned integer as std's `from_str` does, up to `max`.
pub fn parse_unsigned(cs: &[char], max: u128) -> (r: Option<u128>)
    ensures
        match parse_unsigned_spec(cs@, max as nat) {
            Some(v) => r == Some(v as u128),
            None => r is None,
        },
{
    let from: usize = if cs.len() > 0 && cs[0] == '+' {
        1
    } else {
        0
    };
    let r = read_digits(cs, from, max);
    proof {
        let body = if cs@.len() > 0 && cs@[0] == '+' {
            cs@.drop_first()
        } else {
            cs@
        };
        assert(body =~= cs@.subrange(from as int, cs@.len() as int));
    }
    r
}

/// Parses a `u64` as std's `from_str` does.
pub fn parse_u64(s: &str) -> (r: Option<u64>)
    ensures
        match parse_unsigned_spec(s@, u64::MAX as nat) {
            Some(v) => r == Some(v as u64),
            None => r is None,
        },
{
    let cs = chars_of(s);
    match parse_unsigned(cs.as_slice(), u64::MAX as u128) {
        Some(v) => Some(v as u64),
        None => None,
    }
}

/// Parses a `usize` as std's `from_str` does.
pub fn parse_usize(s: &str) -> (r: Option<usize>)
    ensures
        match parse_unsigned_spec(s@, usize::MAX as nat) {
            Some(v) => r == Some(v as usize),
            None => r is None,
        },
{
    let cs = chars_of(s);
    match parse_unsigned(cs.as_slice(), usize::MAX as u128) {
        Some(v) => Some(v as usize),
        None => None,
    }
}

/// Parses an `i32` as std's `from_str` does.
pub fn parse_i32_chars(cs: &[char]) -> (r: Option<i32>)
    ensures
        match parse_signed_spec(cs@, i32::MIN as int, i32::MAX as int) {
            Some(v) => r == Some(v as i32),
            None => r is None,
        },
{
    if cs.len() > 0 && cs[0] == '-' {
        let r = read_digits(cs, 1, 2147483648u128);
        proof {
            assert(cs@.drop_first() =~= cs@.subrange(1, cs@.len() as int));
        }
        match r {
            Some(v) => {
                let neg: i128 = 0i128 - (v as i128);
                Some(neg as i32)
            },
            None => None,
        }
    } else {
        match parse_unsigned(cs, 2147483647u128) {
            Some(v) => Some(v as i32),
            None => None,
        }
    }
}

/// Parses a `u64` from characters as std's `from_str` does.
pub fn parse_u64_chars(cs: &[char]) -> (r: Option<u64>)
    ensures
        match parse_unsigned_spec(cs@, u64::MAX as nat) {
            Some(v) => r == Some(v as u64),
            None => r is None,
        },
{
    match parse_unsigned(cs, u64::MAX as u128) {
        Some(v) => Some(v as u64),
        None => None,
    }
}

// ---------------------------------------------------------------------
// Whitespace and trimming
// ---------------------------------------------------------------------

/// Unicode `White_Space`, the property std's `char::is_whitespace` and
/// `str::trim` go by.
pub open spec fn is_white_space(c: char) -> bool {
    let u = c as u32;
    ||| (0x09 <= u && u <= 0x0d)
    ||| u == 0x20
    ||| u == 0x85
    ||| u == 0xa0
    ||| u == 0x1680
    ||| (0x2000 <= u && u <= 0x200a)
    ||| u == 0x2028
    ||| u == 0x2029
    ||| u == 0x202f
    ||| u == 0x205f
    ||| u == 0x3000
}

pub fn is_white_space_exec(c: char) -> (r: bool)
    ensures
        r == is_white_space(c),
{
    let u = c as u32;
    (0x09 <= u && u <= 0x0d) || u == 0x20 || u == 0x85 || u == 0xa0 || u == 0x1680 || (0x2000
        <= u && u <= 0x200a) || u == 0x2028 || u == 0x2029 || u == 0x202f || u == 0x205f || u
        == 0x3000
}

pub open spec fn trim_start(s: Seq<char>) -> Seq<char>
    decreases s.len(),
{
    if s.len() > 0 && is_white_space(s[0]) {
        trim_start(s.drop_first())
    } else {
        s
    }
}

pub open spec fn trim_end(s: Seq<char>) -> Seq<char>
    decreases s.len(),
{
    if s.len() > 0 && is_white_space(s.last()) {
        trim_end(s.drop_last())
    } else {
        s
    }
}

/// `str::trim`: both ends stripped of white space.
pub open spec fn trim(s: Seq<char>) -> Seq<char> {
    trim_end(trim_start(s))
}

/// The characters `cs[from..to]` as a new vector.
pub fn sub_chars(cs: &[char], from: usize, to: usize) -> (r: Vec<char>)
    requires
        from <= to <= cs@.len(),
    ensures
        r@ == cs@.subrange(from as int, to as int),
{
    let mut r: Vec<char> = Vec::new();
    let mut i: usize = from;
    while i < to
        invariant
            from <= i <= to <= cs@.len(),
            r@ == cs@.subrange(from as int, i as int),
        decreases to - i,
    {
        r.push(cs[i]);
        i = i + 1;
        assert(r@ =~= cs@.subrange(from as int, i as int));
    }
    r
}

/// Index of the first non-white-space character at or after `from`.
fn skip_white_forward(cs: &[char], from: usize) -> (i: usize)
    requires
        from <= cs@.len(),
    ensures
        from <= i <= cs@.len(),
        trim_start(cs@.subrange(from as int, cs@.len() as int)) == cs@.subrange(
            i as int,
            cs@.len() as int,
        ),
{
    let mut i = from;
    while i < cs.len() && is_white_space_exec(cs[i])
        invariant
            from <= i <= cs@.len(),
            trim_start(cs@.subrange(from as int, cs@.len() as int)) == trim_start(
                cs@.subrange(i as int, cs@.len() as int),
            ),
        decreases cs@.len() - i,
    {
        assert(cs@.subrange(i as int, cs@.len() as int).drop_first() =~= cs@.subrange(
            i + 1,
            cs@.len() as int,
        ));
        i = i + 1;
    }
    i
}

/// Index just past the last non-white-space character of `cs[from..to]`.
fn skip_white_backward(cs: &[char], from: usize, to: usize) -> (j: usize)
    requires
        from <= to <= cs@.len(),
    ensures
        from <= j <= to,
        trim_end(cs@.subrange(from as int, to as int)) == cs@.subrange(from as int, j as int),
{
    let mut j = to;
    while j > from && is_white_space_exec(cs[j - 1])
        invariant
            from <= j <= to <= cs@.len(),
            trim_end(cs@.subrange(from as int, to as int)) == trim_end(
                cs@.subrange(from as int, j as int),
            ),
        decreases j - from,
    {
        assert(cs@.subrange(from as int, j as int).drop_last() =~= cs@.subrange(
            from as int,
            j - 1,
        ));
        j = j - 1;
    }
    j
}

/// `str::trim` on a character sequence.
pub fn trim_chars(cs: &[char]) -> (r: Vec<char>)
    ensures
        r@ == trim(cs@),
{
    let i = skip_white_forward(cs, 0);
    let j = skip_white_backward(cs, i, cs.len());
    assert(cs@.subrange(0, cs@.len() as int) =~= cs@);
    sub_chars(cs, i, j)
}

/// `str::trim_end` on a character sequence.
pub fn trim_end_chars(cs: &[char]) -> (r: Vec<char>)
    ensures
        r@ == trim_end(cs@),
{
    let j = skip_white_backward(cs, 0, cs.len());
    assert(cs@.subrange(0, cs@.len() as int) =~= cs@);
    sub_chars(cs, 0, j)
}

// ---------------------------------------------------------------------
// Searching and splitting
// ---------------------------------------------------------------------

/// The first index at or after `from` holding `c`, or `s.len()`.
pub open spec fn find_char(s: Seq<char>, c: char, from: int) -> int
    decreases s.len() - from,
{
    if from >= s.len() {
        s.len() as int
    } else if s[from] == c {
        from
    } else {
        find_char(s, c, from + 1)
    }
}

pub proof fn lemma_find_char_bounds(s: Seq<char>, c: char, from: int)
    requires
        0 <= from <= s.len(),
    ensures
        from <= find_char(s, c, from) <= s.len(),
        find_char(s, c, from) < s.len() ==> s[find_char(s, c, from)] == c,
        forall|k: int| from <= k < find_char(s, c, from) ==> s[k] != c,
    decreases s.len() - from,
{
    if from < s.len() && s[from] != c {
        lemma_find_char_bounds(s, c, from + 1);
    }
}

pub fn find_char_exec(cs: &[char], c: char, from: usize) -> (k: usize)
    requires
        from <= cs@.len(),
    ensures
        k == find_char(cs@, c, from as int),
{
    let mut k = from;
    while k < cs.len() && cs[k] != c
        invariant
            from <= k <= cs@.len(),
            find_char(cs@, c, from as int) == find_char(cs@, c, k as int),
        decreases cs@.len() - k,
    {
        k = k + 1;
    }
    k
}

/// A line without its `\r` before the `\n` that ended it.
pub open spec fn strip_cr(l: Seq<char>) -> Seq<char> {
    if l.len() > 0 && l.last() == '\r' {
        l.drop_last()
    } else {
        l
    }
}

/// The lines of `s` from index `from` on, as `str::lines` yields them.
pub open spec fn lines_from(s: Seq<char>, from: int) -> Seq<Seq<char>>
    decreases s.len() - from,
{
    if from < 0 || from >= s.len() {
        seq![]
    } else {
        let k = find_char(s, '\n', from);
        if k >= s.len() || k < from {
            seq![s.subrange(from, s.len() as int)]
        } else {
            seq![strip_cr(s.subrange(from, k))] + lines_from(s, k + 1)
        }
    }
}

/// `str::lines`: split at `\n`, drop a `\r` before it, and yield no empty
/// line after a final line ending.
pub open spec fn lines(s: Seq<char>) -> Seq<Seq<char>> {
    lines_from(s, 0)
}

fn strip_cr_exec(l: Vec<char>) -> (r: Vec<char>)
    ensures
        r@ == strip_cr(l@),
{
    let mut l = l;
    if l.len() > 0 && l[l.len() - 1] == '\r' {
        l.pop();
    }
    l
}

/// The views of a sequence of character vectors.
pub open spec fn views(v: Seq<Vec<char>>) -> Seq<Seq<char>> {
    Seq::new(v.len(), |i: int| v[i]@)
}

/// `str::lines` on a character sequence.
pub fn split_lines(cs: &[char]) -> (r: Vec<Vec<char>>)
    ensures
        views(r@) == lines(cs@),
{
    let mut r: Vec<Vec<char>> = Vec::new();
    let mut pos: usize = 0;
    while pos < cs.len()
        invariant
            pos <= cs@.len(),
            lines(cs@) == views(r@) + lines_from(cs@, pos as int),
        decreases cs@.len() - pos,
    {
        let k = find_char_exec(cs, '\n', pos);
        proof {
            lemma_find_char_bounds(cs@, '\n', pos as int);
        }
        let ghost before = views(r@);
        if k == cs.len() {
            let line = sub_chars(cs, pos, k);
            r.push(line);
            proof {
                assert(views(r@) =~= before.push(cs@.subrange(pos as int, k as int)));
                assert(lines_from(cs@, k as int) =~= seq![]);
                assert(lines_from(cs@, pos as int) == seq![cs@.subrange(pos as int, cs@.len() as int)]);
            }
            pos = k;
        } else {
            let line = strip_cr_exec(sub_chars(cs, pos, k));
            r.push(line);
            proof {
                assert(views(r@) =~= before.push(strip_cr(cs@.subrange(pos as int, k as int))));
                assert(lines_from(cs@, pos as int) == seq![strip_cr(cs@.subrange(pos as int, k as int))] + lines_from(cs@, k + 1));
            }
            pos = k + 1;
        }
    }
    proof {
        assert(lines_from(cs@, pos as int) =~= seq![]);
    }
    r
}

/// The first index at or after `from` where `pat` occurs in `s`, or `s.len()`.
pub open spec fn find_pattern(s: Seq<char>, pat: Seq<char>, from: int) -> int
    decreases s.len() - from,
{
    if from < 0 || from >= s.len() || from + pat.len() > s.len() {
        s.len() as int
    } else if s.subrange(from, from + pat.len()) == pat {
        from
    } else {
        find_pattern(s, pat, from + 1)
    }
}

fn matches_at(cs: &[char], pat: &[char], at: usize) -> (r: bool)
    requires
        at + pat@.len() <= cs@.len(),
    ensures
        r == (cs@.subrange(at as int, at + pat@.len()) == pat@),
{
    let mut i: usize = 0;
    while i < pat.len()
        invariant
            at + pat@.len() <= cs@.len(),
            cs@.len() == cs.len(),
            i <= pat@.len(),
            forall|j: int| 0 <= j < i ==> cs@[at + j] == pat@[j],
        decreases pat@.len() - i,
    {
        if cs[at + i] != pat[i] {
            assert(cs@.subrange(at as int, at + pat@.len())[i as int] != pat@[i as int]);
            return false;
        }
        i = i + 1;
    }
    assert(cs@.subrange(at as int, at + pat@.len()) =~= pat@);
    true
}

/// The first occurrence of `pat` in `cs`, as `str::find` reports it.
pub fn find_pattern_exec(cs: &[char], pat: &[char]) -> (k: usize)
    ensures
        k == find_pattern(cs@, pat@, 0),
{
    if pat.len() > cs.len() {
        return cs.len();
    }
    let mut k: usize = 0;
    let last = cs.len() - pat.len();
    while k <= last
        invariant
            pat@.len() <= cs@.len(),
            last == cs@.len() - pat@.len(),
            k <= last + 1,
            find_pattern(cs@, pat@, 0) == find_pattern(cs@, pat@, k as int),
        decreases cs@.len() + 1 - k,
    {
        if matches_at(cs, pat, k) {
            return k;
        }
        if k == last {
            assert(find_pattern(cs@, pat@, k + 1) == cs@.len());
            return cs.len();
        }
        k = k + 1;
    }
    cs.len()
}

// ---------------------------------------------------------------------
// Normalised labels
// ---------------------------------------------------------------------

/// The ASCII letters and digits of `s`, lower-cased.
pub open spec fn normalized_spec(s: Seq<char>) -> Seq<char>
    decreases s.len(),
{
    if s.len() == 0 {
        seq![]
    } else if is_ascii_alphanumeric(s.last()) {
        normalized_spec(s.drop_last()).push(ascii_lower(s.last()))
    } else {
        normalized_spec(s.drop_last())
    }
}

/// Keeps the ASCII letters and digits of a label, lower-cased, so that
/// `Build Cache Hits` and `buildCacheHits` compare equal.
pub fn normalized_chars(cs: &[char]) -> (r: Vec<char>)
    ensures
        r@ == normalized_spec(cs@),
{
    let mut r: Vec<char> = Vec::new();
    let mut i: usize = 0;
    while i < cs.len()
        invariant
            i <= cs@.len(),
            r@ == normalized_spec(cs@.take(i as int)),
        decreases cs@.len() - i,
    {
        let c = cs[i];
        assert(cs@.take(i + 1).drop_last() =~= cs@.take(i as int));
        if is_ascii_alphanumeric_exec(c) {
            r.push(ascii_lower_exec(c));
        }
        i = i + 1;
    }
    assert(cs@.take(cs@.len() as int) =~= cs@);
    r
}

/// `normalized` on a string slice.
pub fn normalized(name: &str) -> (r: String)
    ensures
        r@ == normalized_spec(name@),
{
    let cs = chars_of(name);
    let n = normalized_chars(cs.as_slice());
    string_from_chars(n.as_slice())
}

/// A decimal rendering is a non-empty run of digits that reads back as the
/// number it renders.
pub proof fn lemma_decimal_reads_back(n: nat)
    ensures
        decimal(n).len() > 0,
        all_digits(decimal(n)),
        digits_value(decimal(n)) == n,
    decreases n,
{
    let d = digit_char(n % 10);
    assert((((n % 10) + 48) as u32) as char as u32 == (n % 10) + 48);
    if n >= 10 {
        lemma_decimal_reads_back(n / 10);
        let s = decimal(n);
        assert(s.drop_last() == decimal(n / 10));
        assert(s.last() == d);
        assert forall|i: int| 0 <= i < s.len() implies is_digit(#[trigger] s[i]) by {
            if i < s.len() - 1 {
                assert(s[i] == decimal(n / 10)[i]);
            }
        }
        assert(digits_value(s) == digits_value(s.drop_last()) * 10 + ((s.last() as u32) - 48) as nat);
        assert((n / 10) * 10 + n % 10 == n);
    } else {
        let s = decimal(n);
        assert(s == seq![d]);
        assert(s.drop_last() =~= Seq::<char>::empty());
        assert(digits_value(s.drop_last()) == 0);
        assert(digits_value(s) == digits_value(s.drop_last()) * 10 + ((s.last() as u32) - 48) as nat);
    }
}

} // verus!
