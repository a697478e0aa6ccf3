//! Reading the evidence a benchmark sample is made of: the counters of the
//! cache-statistics tool and the transcripts of cache-clearing operations.
//! Every value is read out of the text; nothing is defaulted or inferred.

use vstd::prelude::*;
use crate::receipt::{CacheClear, CacheScope, ReceiptError};
use crate::text::{
    chars_of, chars_eq, lines, normalized_chars, normalized_spec, parse_u64_chars, parse_unsigned_spec,
    split_lines, sub_chars, trim, trim_chars, views, find_char, find_char_exec, find_pattern,
    find_pattern_exec, lemma_find_char_bounds, trim_end, trim_end_chars, trim_start, is_white_space,
    is_white_space_exec, parse_signed_spec, parse_i32_chars, string_from_chars, decimal,
    lemma_decimal_reads_back, strip_cr, lines_from, digits_value, all_digits, is_digit,
};

verus! {

// ---------------------------------------------------------------------
// Cache-statistics counters
// ---------------------------------------------------------------------

/// The first index at or after `from` holding `:` or `=`, or `l.len()`.
pub open spec fn find_sep(l: Seq<char>, from: int) -> int
    decreases l.len() - from,
{
    if from < 0 || from >= l.len() {
        l.len() as int
    } else if l[from] == ':' || l[from] == '=' {
        from
    } else {
        find_sep(l, from + 1)
    }
}

/// The normalised labels a counter may carry: `hits`, `cache hits`,
/// `build cache hits`, `total hits`, `total cache hits` or
/// `total build cache hits` (and likewise for misses).
pub open spec fn counter_label_ok(label: Seq<char>, wanted: Seq<char>) -> bool {
    ||| label == wanted
    ||| label == "cache"@ + wanted
    ||| label == "buildcache"@ + wanted
    ||| label == "total"@ + wanted
    ||| label == "totalcache"@ + wanted
    ||| label == "totalbuildcache"@ + wanted
}

/// The counter value a line reports: the line is split at its first `:` or
/// `=`; the label must be an accepted one and the value, trimmed, an
/// unsigned integer.
pub open spec fn line_counter(l: Seq<char>, wanted: Seq<char>) -> Option<nat> {
    let k = find_sep(l, 0);
    if k >= l.len() {
        None
    } else if counter_label_ok(normalized_spec(l.take(k)), wanted) {
        parse_unsigned_spec(trim(l.skip(k + 1)), u64::MAX as nat)
    } else {
        None
    }
}

/// Every value reported for the counter, in line order.
pub open spec fn counter_values(ls: Seq<Seq<char>>, wanted: Seq<char>) -> Seq<nat>
    decreases ls.len(),
{
    if ls.len() == 0 {
        seq![]
    } else {
        let vs = counter_values(ls.drop_last(), wanted);
        match line_counter(ls.last(), wanted) {
            Some(v) => vs.push(v),
            None => vs,
        }
    }
}

/// The value, if every report agrees on exactly one.
pub open spec fn single_value(vs: Seq<nat>) -> Option<nat> {
    if vs.len() > 0 && forall|i: int| 0 <= i < vs.len() ==> #[trigger] vs[i] == vs[0] {
        Some(vs[0])
    } else {
        None
    }
}

pub open spec fn strictly_sorted(v: Seq<u64>) -> bool {
    forall|i: int, j: int| 0 <= i < j < v.len() ==> #[trigger] v[i] < #[trigger] v[j]
}

/// The outcome of reading one counter: its value, or the ambiguity error
/// listing every distinct value reported, in increasing order.
pub open spec fn counter_outcome(text: Seq<char>, wanted: &'static str, r: Result<u64, ReceiptError>) -> bool {
    let vs = counter_values(lines(text), wanted@);
    match single_value(vs) {
        Some(v) => r == Ok::<u64, ReceiptError>(v as u64),
        None => r matches Err(ReceiptError::CounterAmbiguous { wanted: w, values }) && w == wanted
            && strictly_sorted(values@) && forall|x: u64| #[trigger]
            values@.contains(x) <==> vs.contains(x as nat),
    }
}

fn find_sep_exec(l: &[char]) -> (k: usize)
    ensures
        k == find_sep(l@, 0),
{
    let mut k: usize = 0;
    while k < l.len() && l[k] != ':' && l[k] != '='
        invariant
            k <= l@.len(),
            find_sep(l@, 0) == find_sep(l@, k as int),
        decreases l@.len() - k,
    {
        k = k + 1;
    }
    k
}

fn concat_chars(a: &str, b: &[char]) -> (r: Vec<char>)
    ensures
        r@ == a@ + b@,
{
    let mut r = chars_of(a);
    let mut i: usize = 0;
    let ghost start = r@;
    while i < b.len()
        invariant
            i <= b@.len(),
            r@ == start + b@.take(i as int),
        decreases b@.len() - i,
    {
        r.push(b[i]);
        i = i + 1;
        assert(r@ =~= start + b@.take(i as int));
    }
    assert(b@.take(b@.len() as int) =~= b@);
    r
}

fn line_counter_exec(l: &[char], wanted: &[char]) -> (r: Option<u64>)
    ensures
        match line_counter(l@, wanted@) {
            Some(v) => r == Some(v as u64),
            None => r is None,
        },
{
    let k = find_sep_exec(l);
    if k >= l.len() {
        return None;
    }
    let label_chars = sub_chars(l, 0, k);
    let label = normalized_chars(label_chars.as_slice());
    assert(l@.take(k as int) =~= l@.subrange(0, k as int));
    let w0 = concat_chars("", wanted);
    let w1 = concat_chars("cache", wanted);
    let w2 = concat_chars("buildcache", wanted);
    let w3 = concat_chars("total", wanted);
    let w4 = concat_chars("totalcache", wanted);
    let w5 = concat_chars("totalbuildcache", wanted);
    proof {
        reveal_strlit("");
        assert(""@ + wanted@ =~= wanted@);
    }
    let ok = chars_eq(label.as_slice(), w0.as_slice()) || chars_eq(label.as_slice(), w1.as_slice())
        || chars_eq(label.as_slice(), w2.as_slice()) || chars_eq(label.as_slice(), w3.as_slice())
        || chars_eq(label.as_slice(), w4.as_slice()) || chars_eq(label.as_slice(), w5.as_slice());
    if !ok {
        return None;
    }
    let value = sub_chars(l, k + 1, l.len());
    assert(l@.skip(k + 1) =~= l@.subrange(k + 1, l@.len() as int));
    let trimmed = trim_chars(value.as_slice());
    parse_u64_chars(trimmed.as_slice())
}

/// Inserts `x` into a strictly increasing vector unless it is present.
fn insert_distinct(values: &mut Vec<u64>, x: u64)
    requires
        strictly_sorted(old(values)@),
    ensures
        strictly_sorted(final(values)@),
        forall|y: u64| #[trigger]
            final(values)@.contains(y) <==> (old(values)@.contains(y) || y == x),
{
    let mut pos: usize = 0;
    while pos < values.len() && values[pos] < x
        invariant
            pos <= values@.len(),
            forall|k: int| 0 <= k < pos ==> #[trigger] values@[k] < x,
        decreases values@.len() - pos,
    {
        pos = pos + 1;
    }
    if pos < values.len() && values[pos] == x {
        return ;
    }
    let ghost old_v = values@;
    values.insert(pos, x);
    assert(values@ == old_v.insert(pos as int, x));
    assert(strictly_sorted(values@)) by {
        assert forall|a: int, b: int| 0 <= a < b < values@.len() implies #[trigger] values@[a]
            < #[trigger] values@[b] by {
            if a < pos && b < pos {
                assert(values@[a] == old_v[a] && values@[b] == old_v[b]);
            } else if a < pos && b == pos {
                assert(values@[a] == old_v[a]);
            } else if a < pos && b > pos {
                assert(values@[a] == old_v[a] && values@[b] == old_v[b - 1]);
            } else if a == pos {
                assert(values@[b] == old_v[b - 1]);
                assert(old_v[pos as int] > x);
                assert(old_v[pos as int] <= old_v[b - 1]);
            } else {
                assert(values@[a] == old_v[a - 1] && values@[b] == old_v[b - 1]);
            }
        }
    }
    assert forall|y: u64| #[trigger] values@.contains(y) <==> (old_v.contains(y) || y == x) by {
        if values@.contains(y) {
            let j = choose|j: int| 0 <= j < values@.len() && values@[j] == y;
            if j < pos {
                assert(old_v[j] == y);
            } else if j > pos {
                assert(old_v[j - 1] == y);
            }
        }
        if old_v.contains(y) {
            let j = choose|j: int| 0 <= j < old_v.len() && old_v[j] == y;
            if j < pos {
                assert(values@[j] == y);
            } else {
                assert(values@[j + 1] == y);
            }
        }
        if y == x {
            assert(values@[pos as int] == x);
        }
    }
}

/// Reads one counter out of the lines of a cache-statistics output.
fn counter(ls: &Vec<Vec<char>>, wanted: &'static str) -> (r: Result<u64, ReceiptError>)
    ensures
        ({
            let vs = counter_values(views(ls@), wanted@);
            match single_value(vs) {
                Some(v) => r == Ok::<u64, ReceiptError>(v as u64),
                None => r matches Err(ReceiptError::CounterAmbiguous { wanted: w, values }) && w
                    == wanted && strictly_sorted(values@) && forall|x: u64| #[trigger]
                    values@.contains(x) <==> vs.contains(x as nat),
            }
        }),
{
    let w = chars_of(wanted);
    let mut values: Vec<u64> = Vec::new();
    let ghost mut vs: Seq<nat> = seq![];
    let mut i: usize = 0;
    while i < ls.len()
        invariant
            i <= ls@.len(),
            w@ == wanted@,
            vs == counter_values(views(ls@).take(i as int), wanted@),
            strictly_sorted(values@),
            forall|x: u64| #[trigger] values@.contains(x) <==> vs.contains(x as nat),
            forall|k: int| 0 <= k < vs.len() ==> vs[k] <= u64::MAX,
        decreases ls@.len() - i,
    {
        assert(views(ls@).take(i + 1).drop_last() =~= views(ls@).take(i as int));
        assert(views(ls@).take(i + 1).last() == ls@[i as int]@);
        match line_counter_exec(ls[i].as_slice(), w.as_slice()) {
            Some(v) => {
                let ghost old_vs = vs;
                let ghost old_values = values@;
                insert_distinct(&mut values, v);
                proof {
                    vs = vs.push(v as nat);
                    assert forall|x: u64| #[trigger] values@.contains(x) <==> vs.contains(x as nat) by {
                        assert(values@.contains(x) == (old_values.contains(x) || x == v));
                        assert(old_values.contains(x) == old_vs.contains(x as nat));
                        if vs.contains(x as nat) {
                            let j = choose|j: int| 0 <= j < vs.len() && vs[j] == x as nat;
                            if j < old_vs.len() {
                                assert(old_vs[j] == vs[j]);
                                assert(old_vs.contains(x as nat));
                            } else {
                                assert(x == v);
                            }
                        }
                        if old_vs.contains(x as nat) {
                            let j = choose|j: int| 0 <= j < old_vs.len() && old_vs[j] == x as nat;
                            assert(vs[j] == x as nat);
                        }
                        if x == v {
                            assert(vs[vs.len() - 1] == x as nat);
                        }
                    }
                }
            },
            None => {},
        }
        i = i + 1;
    }
    assert(views(ls@).take(ls@.len() as int) =~= views(ls@));
    if values.len() == 1 {
        let v = values[0];
        proof {
            assert(values@.contains(v));
            assert(vs.contains(v as nat));
            assert forall|i: int| 0 <= i < vs.len() implies #[trigger] vs[i] == vs[0] by {
                assert(vs.contains(vs[i]));
                assert(vs.contains(vs[0]));
                assert(values@.contains(vs[i] as u64));
                assert(values@.contains(vs[0] as u64));
            }
            assert(vs.contains(v as nat));
            let j = choose|j: int| 0 <= j < vs.len() && vs[j] == v as nat;
            assert(vs[0] == vs[j]);
        }
        Ok(v)
    } else {
        proof {
            if single_value(vs) is Some {
                assert(vs.contains(vs[0]));
                assert(values@.contains(vs[0] as u64));
                assert(values@.len() != 1);
                if values@.len() == 0 {
                    assert(false);
                } else {
                    let a = values@[0];
                    let b = values@[1];
                    assert(values@.contains(a) && values@.contains(b));
                    assert(a < b);
                    let ja = choose|j: int| 0 <= j < vs.len() && vs[j] == a as nat;
                    let jb = choose|j: int| 0 <= j < vs.len() && vs[j] == b as nat;
                    assert(vs[ja] == vs[0] && vs[jb] == vs[0]);
                }
            }
        }
        Err(ReceiptError::CounterAmbiguous { wanted, values })
    }
}

/// Reads the cache hits and misses out of a cache-statistics output. Each
/// counter must be reported at least once and every report must agree.
pub fn parse_cache_counters(text: &str) -> (r: Result<(u64, u64), ReceiptError>)
    ensures
        match (
            single_value(counter_values(lines(text@), "hits"@)),
            single_value(counter_values(lines(text@), "misses"@)),
        ) {
            (Some(h), Some(m)) => r == Ok::<(u64, u64), ReceiptError>((h as u64, m as u64)),
            (None, _) => r matches Err(e) && counter_outcome(text@, "hits", Err(e)),
            (Some(_), None) => r matches Err(e) && counter_outcome(text@, "misses", Err(e)),
        },
{
    let cs = chars_of(text);
    let ls = split_lines(cs.as_slice());
    let hits = match counter(&ls, "hits") {
        Ok(h) => h,
        Err(e) => {
            return Err(e);
        },
    };
    let misses = match counter(&ls, "misses") {
        Ok(m) => m,
        Err(e) => {
            return Err(e);
        },
    };
    Ok((hits, misses))
}

// ---------------------------------------------------------------------
// Cache-clear transcripts
// ---------------------------------------------------------------------

/// Header line every cache-clear transcript must start with.
pub open spec fn cache_clear_marker() -> Seq<char> {
    "# swf-cache-clear v1"@
}

/// What separates the headers of a transcript from the tool's output.
pub open spec fn transcript_separator() -> Seq<char> {
    "\n--- transcript ---"@
}

/// One `key=value` header, both trimmed.
pub struct HeaderEntry {
    pub key: Vec<char>,
    pub value: Vec<char>,
}

pub open spec fn entry_views(es: Seq<HeaderEntry>) -> Seq<(Seq<char>, Seq<char>)> {
    Seq::new(es.len(), |i: int| (es[i].key@, es[i].value@))
}

/// One more header line: blank lines are skipped; any other line must hold
/// a `=`, which splits it into a trimmed key and a trimmed value.
pub open spec fn header_step(es: Seq<(Seq<char>, Seq<char>)>, l: Seq<char>) -> Result<
    Seq<(Seq<char>, Seq<char>)>,
    Seq<char>,
> {
    if trim(l).len() == 0 {
        Ok(es)
    } else {
        let k = find_char(l, '=', 0);
        if k >= l.len() {
            Err(l)
        } else {
            Ok(es.push((trim(l.take(k)), trim(l.skip(k + 1)))))
        }
    }
}

/// The headers of a sequence of lines, or the first line that is no header.
pub open spec fn header_fold(ls: Seq<Seq<char>>) -> Result<Seq<(Seq<char>, Seq<char>)>, Seq<char>>
    decreases ls.len(),
{
    if ls.len() == 0 {
        Ok(seq![])
    } else {
        match header_fold(ls.drop_last()) {
            Err(l) => Err(l),
            Ok(es) => header_step(es, ls.last()),
        }
    }
}

/// Every value given for `key`, in order.
pub open spec fn header_values(es: Seq<(Seq<char>, Seq<char>)>, key: Seq<char>) -> Seq<Seq<char>>
    decreases es.len(),
{
    if es.len() == 0 {
        seq![]
    } else if es.last().0 == key {
        header_values(es.drop_last(), key).push(es.last().1)
    } else {
        header_values(es.drop_last(), key)
    }
}

/// A header must be given exactly once: neither the first nor the last of
/// several is taken.
pub open spec fn header_result(es: Seq<(Seq<char>, Seq<char>)>, key: &'static str) -> Result<
    Seq<char>,
    ReceiptError,
> {
    let vs = header_values(es, key@);
    if vs.len() == 1 {
        Ok(vs[0])
    } else if vs.len() == 0 {
        Err(ReceiptError::MissingHeader { key })
    } else {
        Err(ReceiptError::RepeatedHeader { key, count: vs.len() as usize })
    }
}

/// The first white-space-separated word of `s`.
pub open spec fn first_word(s: Seq<char>) -> Seq<char> {
    let t = trim_start(s);
    t.take(find_white(t, 0))
}

/// The first index at or after `from` holding white space, or `s.len()`.
pub open spec fn find_white(s: Seq<char>, from: int) -> int
    decreases s.len() - from,
{
    if from < 0 || from >= s.len() {
        s.len() as int
    } else if is_white_space(s[from]) {
        from
    } else {
        find_white(s, from + 1)
    }
}

/// The cache scope follows from the arguments the runner passed to the
/// cache tool: `user` is the invoking user's cache; `shared`, `service`,
/// `all` and `global` act on a shared cache; anything else is unknown.
pub open spec fn scope_of_argv(argv: Seq<char>) -> CacheScope {
    let w = first_word(argv);
    if w == "user"@ {
        CacheScope::LocalUser
    } else if w == "shared"@ || w == "service"@ || w == "all"@ || w == "global"@ {
        CacheScope::Shared
    } else {
        CacheScope::Unknown
    }
}

/// What reading a transcript yields.
pub enum ClearParse {
    /// Refused with an error that carries no text of the transcript.
    Refused(ReceiptError),
    NonHeaderLine(Seq<char>),
    Failed { argv: Seq<char>, exit_code: i32 },
    BadTimeRange { argv: Seq<char> },
    Parsed {
        scope: CacheScope,
        argv: Seq<char>,
        started_at_ms: u64,
        completed_at_ms: u64,
    },
}

/// Reading a cache-clear transcript: a header block that starts with the
/// marker line, then `key=value` headers up to the separator. `argv`,
/// `exit_code`, `started_at_ms` and `completed_at_ms` are each required
/// exactly once; a clear that did not exit 0 is never recorded as a clear,
/// and its start must be a real instant no later than its completion.
pub open spec fn parse_clear_spec(text: Seq<char>) -> ClearParse {
    let k = find_pattern(text, transcript_separator(), 0);
    if k >= text.len() {
        ClearParse::Refused(ReceiptError::NoSeparator)
    } else {
        let ls = lines(text.take(k));
        if ls.len() == 0 || trim_end(ls[0]) != cache_clear_marker() {
            ClearParse::Refused(ReceiptError::NoMarker)
        } else {
            match header_fold(ls.skip(1)) {
                Err(l) => ClearParse::NonHeaderLine(l),
                Ok(es) => match header_result(es, "argv") {
                    Err(e) => ClearParse::Refused(e),
                    Ok(argv) => match header_result(es, "exit_code") {
                        Err(e) => ClearParse::Refused(e),
                        Ok(ev) => match parse_signed_spec(ev, i32::MIN as int, i32::MAX as int) {
                            None => ClearParse::Refused(ReceiptError::ExitCodeNotInteger),
                            Some(code) => if code != 0 {
                                ClearParse::Failed { argv, exit_code: code as i32 }
                            } else {
                                match header_result(es, "started_at_ms") {
                                    Err(e) => ClearParse::Refused(e),
                                    Ok(sv) => match parse_unsigned_spec(sv, u64::MAX as nat) {
                                        None => ClearParse::Refused(ReceiptError::StartNotInteger),
                                        Some(st) => match header_result(es, "completed_at_ms") {
                                            Err(e) => ClearParse::Refused(e),
                                            Ok(cv) => match parse_unsigned_spec(cv, u64::MAX as nat) {
                                                None => ClearParse::Refused(
                                                    ReceiptError::CompletedNotInteger,
                                                ),
                                                Some(ct) => if ct < st || st == 0 {
                                                    ClearParse::BadTimeRange { argv }
                                                } else {
                                                    ClearParse::Parsed {
                                                        scope: scope_of_argv(argv),
                                                        argv,
                                                        started_at_ms: st as u64,
                                                        completed_at_ms: ct as u64,
                                                    }
                                                },
                                            },
                                        },
                                    },
                                }
                            },
                        },
                    },
                },
            }
        }
    }
}

fn collect_headers(ls: &Vec<Vec<char>>) -> (r: Result<Vec<HeaderEntry>, Vec<char>>)
    requires
        ls@.len() > 0,
    ensures
        match header_fold(views(ls@).skip(1)) {
            Ok(es) => r matches Ok(v) && entry_views(v@) == es,
            Err(l) => r matches Err(x) && x@ == l,
        },
{
    let mut entries: Vec<HeaderEntry> = Vec::new();
    let mut i: usize = 1;
    let ghost all = views(ls@);
    assert(all.subrange(1, 1) =~= seq![]);
    assert(entry_views(entries@) =~= seq![]);
    while i < ls.len()
        invariant
            1 <= i <= ls@.len(),
            all == views(ls@),
            header_fold(all.subrange(1, i as int)) == Ok::<Seq<(Seq<char>, Seq<char>)>, Seq<char>>(
                entry_views(entries@),
            ),
        decreases ls@.len() - i,
    {
        let l = &ls[i];
        assert(all.subrange(1, i + 1).drop_last() =~= all.subrange(1, i as int));
        assert(all.subrange(1, i + 1).last() == l@);
        let t = trim_chars(l.as_slice());
        if t.len() != 0 {
            let k = find_char_exec(l.as_slice(), '=', 0);
            if k >= l.len() {
                proof {
                    lemma_header_fold_err_persists(all.skip(1), (i - 1) as int + 1);
                    assert(all.skip(1).take(i as int) =~= all.subrange(1, i + 1));
                }
                let mut bad: Vec<char> = Vec::new();
                let mut j: usize = 0;
                while j < l.len()
                    invariant
                        j <= l@.len(),
                        bad@ == l@.take(j as int),
                    decreases l@.len() - j,
                {
                    bad.push(l[j]);
                    j = j + 1;
                    assert(bad@ =~= l@.take(j as int));
                }
                assert(l@.take(l@.len() as int) =~= l@);
                return Err(bad);
            }
            let key_raw = sub_chars(l.as_slice(), 0, k);
            let value_raw = sub_chars(l.as_slice(), k + 1, l.len());
            assert(l@.take(k as int) =~= l@.subrange(0, k as int));
            assert(l@.skip(k + 1) =~= l@.subrange(k + 1, l@.len() as int));
            let key = trim_chars(key_raw.as_slice());
            let value = trim_chars(value_raw.as_slice());
            let ghost before = entry_views(entries@);
            entries.push(HeaderEntry { key, value });
            assert(entry_views(entries@) =~= before.push((key@, value@)));
        }
        i = i + 1;
    }
    assert(all.subrange(1, ls@.len() as int) =~= all.skip(1));
    Ok(entries)
}

proof fn lemma_header_fold_err_persists(ls: Seq<Seq<char>>, k: int)
    requires
        0 <= k <= ls.len(),
        header_fold(ls.take(k)) is Err,
    ensures
        header_fold(ls) == header_fold(ls.take(k)),
    decreases ls.len() - k,
{
    if k == ls.len() {
        assert(ls.take(k) =~= ls);
    } else {
        assert(ls.take(k + 1).drop_last() =~= ls.take(k));
        lemma_header_fold_err_persists(ls, k + 1);
    }
}

/// Reads one header out of a transcript's headers, refusing a missing or
/// repeated key rather than taking the first or the last.
pub fn clear_header(entries: &Vec<HeaderEntry>, key: &'static str) -> (r: Result<Vec<char>, ReceiptError>)
    ensures
        match header_result(entry_views(entries@), key) {
            Ok(v) => r matches Ok(x) && x@ == v,
            Err(e) => r == Err::<Vec<char>, ReceiptError>(e),
        },
{
    let k = chars_of(key);
    let mut count: usize = 0;
    let mut first: Vec<char> = Vec::new();
    let mut i: usize = 0;
    let ghost es = entry_views(entries@);
    while i < entries.len()
        invariant
            i <= entries@.len(),
            k@ == key@,
            es == entry_views(entries@),
            count == header_values(es.take(i as int), key@).len(),
            count <= i,
            count > 0 ==> first@ == header_values(es.take(i as int), key@)[0],
        decreases entries@.len() - i,
    {
        assert(es.take(i + 1).drop_last() =~= es.take(i as int));
        assert(es.take(i + 1).last() == (entries@[i as int].key@, entries@[i as int].value@));
        if chars_eq(entries[i].key.as_slice(), k.as_slice()) {
            if count == 0 {
                first = sub_chars(entries[i].value.as_slice(), 0, entries[i].value.len());
                assert(entries@[i as int].value@.subrange(0, entries@[i as int].value@.len() as int)
                    =~= entries@[i as int].value@);
            }
            assert(header_values(es.take(i + 1), key@) == header_values(es.take(i as int), key@).push(
                entries@[i as int].value@,
            ));
            count = count + 1;
        }
        i = i + 1;
    }
    assert(es.take(entries@.len() as int) =~= es);
    if count == 1 {
        Ok(first)
    } else if count == 0 {
        Err(ReceiptError::MissingHeader { key })
    } else {
        Err(ReceiptError::RepeatedHeader { key, count })
    }
}

fn first_word_exec(cs: &[char]) -> (w: Vec<char>)
    ensures
        w@ == first_word(cs@),
{
    let mut i: usize = 0;
    assert(cs@.subrange(0, cs@.len() as int) =~= cs@);
    while i < cs.len() && is_white_space_exec(cs[i])
        invariant
            i <= cs@.len(),
            trim_start(cs@) == trim_start(cs@.subrange(i as int, cs@.len() as int)),
        decreases cs@.len() - i,
    {
        assert(cs@.subrange(i as int, cs@.len() as int).drop_first() =~= cs@.subrange(
            i + 1,
            cs@.len() as int,
        ));
        i = i + 1;
    }
    assert(cs@.subrange(0, cs@.len() as int) =~= cs@);
    let ghost t = cs@.subrange(i as int, cs@.len() as int);
    assert(trim_start(t) == t);
    let mut j: usize = i;
    while j < cs.len() && !is_white_space_exec(cs[j])
        invariant
            i <= j <= cs@.len(),
            t == cs@.subrange(i as int, cs@.len() as int),
            find_white(t, 0) == find_white(t, j - i),
        decreases cs@.len() - j,
    {
        j = j + 1;
    }
    let w = sub_chars(cs, i, j);
    assert(w@ =~= t.take(j - i));
    w
}

fn scope_of_argv_exec(argv: &[char]) -> (s: CacheScope)
    ensures
        s == scope_of_argv(argv@),
{
    let w = first_word_exec(argv);
    let word = string_from_chars(w.as_slice());
    let ws = word.as_str();
    if crate::text::str_eq(ws, "user") {
        CacheScope::LocalUser
    } else if crate::text::str_eq(ws, "shared") || crate::text::str_eq(ws, "service")
        || crate::text::str_eq(ws, "all") || crate::text::str_eq(ws, "global") {
        CacheScope::Shared
    } else {
        CacheScope::Unknown
    }
}

/// Parse a cache-clear transcript. This is the only way a `CacheClear`
/// comes into existence: every field is read out of the transcript, except
/// the transcript's own path and digest, which the caller supplies.
pub fn parse_cache_clear(text: &str, path: &str, sha256: String) -> (r: Result<CacheClear, ReceiptError>)
    ensures
        match parse_clear_spec(text@) {
            ClearParse::Refused(e) => r == Err::<CacheClear, ReceiptError>(e),
            ClearParse::NonHeaderLine(l) => r matches Err(ReceiptError::NonHeaderLine { line })
                && line@ == l,
            ClearParse::Failed { argv, exit_code } => r matches Err(
                ReceiptError::ClearFailed { argv: a, exit_code: c },
            ) && a@ == argv && c == exit_code,
            ClearParse::BadTimeRange { argv } => r matches Err(
                ReceiptError::NonsensicalTimeRange { argv: a },
            ) && a@ == argv,
            ClearParse::Parsed { scope, argv, started_at_ms, completed_at_ms } => r matches Ok(c)
                && c.scope == scope && c.argv@ == argv && c.exit_code == 0 && c.started_at_ms
                == started_at_ms && c.completed_at_ms == completed_at_ms && c.transcript_path@
                == path@ && c.transcript_sha256 == sha256,
        },
{
    let cs = chars_of(text);
    let sep = chars_of("\n--- transcript ---");
    let k = find_pattern_exec(cs.as_slice(), sep.as_slice());
    if k >= cs.len() {
        return Err(ReceiptError::NoSeparator);
    }
    let header_block = sub_chars(cs.as_slice(), 0, k);
    assert(cs@.take(k as int) =~= cs@.subrange(0, k as int));
    let ls = split_lines(header_block.as_slice());
    if ls.len() == 0 {
        return Err(ReceiptError::NoMarker);
    }
    let first = trim_end_chars(ls[0].as_slice());
    let marker = chars_of("# swf-cache-clear v1");
    assert(views(ls@)[0] == ls@[0]@);
    if !chars_eq(first.as_slice(), marker.as_slice()) {
        return Err(ReceiptError::NoMarker);
    }
    let entries = match collect_headers(&ls) {
        Err(l) => {
            return Err(ReceiptError::NonHeaderLine { line: string_from_chars(l.as_slice()) });
        },
        Ok(es) => es,
    };
    let argv = match clear_header(&entries, "argv") {
        Err(e) => {
            return Err(e);
        },
        Ok(v) => v,
    };
    let exit_text = match clear_header(&entries, "exit_code") {
        Err(e) => {
            return Err(e);
        },
        Ok(v) => v,
    };
    let exit_code = match parse_i32_chars(exit_text.as_slice()) {
        None => {
            return Err(ReceiptError::ExitCodeNotInteger);
        },
        Some(c) => c,
    };
    if exit_code != 0 {
        return Err(ReceiptError::ClearFailed { argv: string_from_chars(argv.as_slice()), exit_code });
    }
    let start_text = match clear_header(&entries, "started_at_ms") {
        Err(e) => {
            return Err(e);
        },
        Ok(v) => v,
    };
    let started_at_ms = match parse_u64_chars(start_text.as_slice()) {
        None => {
            return Err(ReceiptError::StartNotInteger);
        },
        Some(v) => v,
    };
    let completed_text = match clear_header(&entries, "completed_at_ms") {
        Err(e) => {
            return Err(e);
        },
        Ok(v) => v,
    };
    let completed_at_ms = match parse_u64_chars(completed_text.as_slice()) {
        None => {
            return Err(ReceiptError::CompletedNotInteger);
        },
        Some(v) => v,
    };
    if completed_at_ms < started_at_ms || started_at_ms == 0 {
        return Err(ReceiptError::NonsensicalTimeRange { argv: string_from_chars(argv.as_slice()) });
    }
    let scope = scope_of_argv_exec(argv.as_slice());
    Ok(
        CacheClear {
            scope,
            argv: string_from_chars(argv.as_slice()),
            exit_code,
            started_at_ms,
            completed_at_ms,
            transcript_path: String::from_str(path),
            transcript_sha256: sha256,
        },
    )
}

// ---------------------------------------------------------------------
// Laws of the cache scope
// ---------------------------------------------------------------------

/// `w` is the first word of `argv`: it follows only white space, is not
/// empty, holds no white space, and ends the text or is followed by white
/// space.
pub open spec fn leads_with_word(argv: Seq<char>, k: int, w: Seq<char>) -> bool {
    &&& 0 <= k
    &&& k + w.len() <= argv.len()
    &&& w.len() > 0
    &&& forall|i: int| 0 <= i < k ==> is_white_space(#[trigger] argv[i])
    &&& forall|i: int| 0 <= i < w.len() ==> !is_white_space(#[trigger] w[i])
    &&& argv.subrange(k, k + w.len()) == w
    &&& (k + w.len() == argv.len() || is_white_space(argv[k + w.len()]))
}

proof fn lemma_trim_start_skips(s: Seq<char>, k: int)
    requires
        0 <= k <= s.len(),
        forall|i: int| 0 <= i < k ==> is_white_space(#[trigger] s[i]),
        k == s.len() || !is_white_space(s[k]),
    ensures
        trim_start(s) == s.skip(k),
    decreases k,
{
    if k == 0 {
        assert(s.skip(0) =~= s);
    } else {
        let t = s.drop_first();
        assert forall|i: int| 0 <= i < k - 1 implies is_white_space(#[trigger] t[i]) by {
            assert(t[i] == s[i + 1]);
        }
        assert(k - 1 == t.len() || t[k - 1] == s[k]);
        lemma_trim_start_skips(t, k - 1);
        assert(t.skip(k - 1) =~= s.skip(k));
    }
}

proof fn lemma_find_white_at(t: Seq<char>, from: int, n: int)
    requires
        0 <= from <= n <= t.len(),
        forall|i: int| from <= i < n ==> !is_white_space(#[trigger] t[i]),
        n == t.len() || is_white_space(t[n]),
    ensures
        find_white(t, from) == n,
    decreases n - from,
{
    if from < n {
        lemma_find_white_at(t, from + 1, n);
    }
}

/// The first word of an `argv` that leads with `w` is `w`.
proof fn lemma_first_word(argv: Seq<char>, k: int, w: Seq<char>)
    requires
        leads_with_word(argv, k, w),
    ensures
        first_word(argv) == w,
{
    assert(argv[k] == w[0]);
    lemma_trim_start_skips(argv, k);
    let t = argv.skip(k);
    assert forall|i: int| 0 <= i < w.len() implies !is_white_space(#[trigger] t[i]) by {
        assert(t[i] == w[i]);
    }
    assert(w.len() == t.len() || t[w.len() as int] == argv[k + w.len()]);
    lemma_find_white_at(t, 0, w.len() as int);
    assert(t.take(w.len() as int) =~= w);
}

/// The scope a parsed cache clear carries is decided by the first word of
/// its `argv`: `user` is the invoking user's own cache; `shared`,
/// `service`, `all` and `global` are a shared cache; any other word, or no
/// word at all, is an unknown scope.
pub proof fn law_clear_scope_follows_first_word(text: Seq<char>, k: int, w: Seq<char>)
    ensures
        parse_clear_spec(text) matches ClearParse::Parsed { scope, argv, .. } ==> {
            &&& leads_with_word(argv, k, w) ==> {
                &&& (scope == CacheScope::LocalUser <==> w == "user"@)
                &&& (scope == CacheScope::Shared <==> (w == "shared"@ || w == "service"@
                    || w == "all"@ || w == "global"@))
                &&& (scope == CacheScope::Unknown <==> !(w == "user"@ || w == "shared"@
                    || w == "service"@ || w == "all"@ || w == "global"@))
            }
            &&& (forall|i: int| 0 <= i < argv.len() ==> is_white_space(#[trigger] argv[i]))
                ==> scope == CacheScope::Unknown
        },
{
    reveal_strlit("user");
    reveal_strlit("shared");
    reveal_strlit("service");
    reveal_strlit("all");
    reveal_strlit("global");
    if let ClearParse::Parsed { scope, argv, .. } = parse_clear_spec(text) {
        assert(scope == scope_of_argv(argv));
        if leads_with_word(argv, k, w) {
            lemma_first_word(argv, k, w);
        }
        if forall|i: int| 0 <= i < argv.len() ==> is_white_space(#[trigger] argv[i]) {
            lemma_trim_start_skips(argv, argv.len() as int);
            assert(argv.skip(argv.len() as int) =~= seq![]);
            assert(first_word(argv).len() == 0);
        }
    }
}

// ---------------------------------------------------------------------
// Laws of the cache counters
// ---------------------------------------------------------------------

/// The prefixes a counter's label may carry once normalized: none, `cache`,
/// `buildcache`, `total`, `totalcache` and `totalbuildcache`.
pub open spec fn counter_forms() -> Seq<Seq<char>> {
    seq![""@, "cache"@, "buildcache"@, "total"@, "totalcache"@, "totalbuildcache"@]
}

/// The line a cache-statistics tool writes for a counter: `<label>: <value>`.
pub open spec fn counter_line(label: Seq<char>, value: nat) -> Seq<char> {
    label + seq![':', ' '] + decimal(value)
}

/// A label the counter line can carry: no separator and no line break.
pub open spec fn plain_label(label: Seq<char>) -> bool {
    forall|k: int| 0 <= k < label.len() ==> #[trigger] label[k] != ':' && label[k] != '='
        && label[k] != '\n'
}

proof fn lemma_find_sep_at(l: Seq<char>, from: int, k: int)
    requires
        0 <= from <= k < l.len(),
        forall|i: int| from <= i < k ==> #[trigger] l[i] != ':' && l[i] != '=',
        l[k] == ':',
    ensures
        find_sep(l, from) == k,
    decreases k - from,
{
    if from < k {
        lemma_find_sep_at(l, from + 1, k);
    }
}

proof fn lemma_find_char_at(s: Seq<char>, c: char, from: int, k: int)
    requires
        0 <= from <= k < s.len(),
        forall|i: int| from <= i < k ==> #[trigger] s[i] != c,
        s[k] == c,
    ensures
        find_char(s, c, from) == k,
    decreases k - from,
{
    if from < k {
        lemma_find_char_at(s, c, from + 1, k);
    }
}

/// A counter line whose normalized label is one of the accepted forms of
/// `wanted` reports its value.
proof fn lemma_counter_line_reads(label: Seq<char>, i: int, wanted: Seq<char>, v: nat)
    requires
        0 <= i < 6,
        plain_label(label),
        normalized_spec(label) == counter_forms()[i] + wanted,
        v <= u64::MAX,
    ensures
        line_counter(counter_line(label, v), wanted) == Some(v),
{
    let l = counter_line(label, v);
    let d = decimal(v);
    lemma_decimal_reads_back(v);
    assert forall|k: int| 0 <= k < label.len() implies #[trigger] l[k] != ':' && l[k] != '=' by {
        assert(l[k] == label[k]);
    }
    lemma_find_sep_at(l, 0, label.len() as int);
    assert(l.take(label.len() as int) =~= label);
    reveal_strlit("");
    reveal_strlit("cache");
    reveal_strlit("buildcache");
    reveal_strlit("total");
    reveal_strlit("totalcache");
    reveal_strlit("totalbuildcache");
    let f = counter_forms()[i];
    if i == 0 {
        assert(f + wanted =~= wanted);
    }
    assert(counter_label_ok(normalized_spec(label), wanted));
    let rest = l.skip(label.len() as int + 1);
    assert(rest =~= seq![' '] + d);
    assert(is_digit(d[0]) && is_digit(d.last()));
    assert(rest.drop_first() =~= d);
    assert(trim_start(rest) == trim_start(d));
    assert(trim_start(d) == d);
    assert(trim_end(d) == d);
    assert(trim(rest) == d);
    assert(d[0] != '+');
}

/// A label ending in `other` is no accepted label of `wanted` when the two
/// words differ in their next-to-last letter (`hits` and `misses`).
proof fn lemma_other_counter_label(x: Seq<char>, a: Seq<char>, other: Seq<char>, wanted: Seq<char>)
    requires
        x == a + other,
        other.len() >= 2,
        wanted.len() >= 2,
        other[other.len() - 2] != wanted[wanted.len() - 2],
    ensures
        !counter_label_ok(x, wanted),
{
    reveal_strlit("cache");
    reveal_strlit("buildcache");
    reveal_strlit("total");
    reveal_strlit("totalcache");
    reveal_strlit("totalbuildcache");
    let c = x[x.len() - 2];
    assert(c == other[other.len() - 2]);
    assert forall|p: Seq<char>| x != p + wanted by {
        if x == p + wanted {
            assert((p + wanted)[x.len() - 2] == wanted[wanted.len() - 2]);
        }
    }
    assert(x != wanted) by {
        if x == wanted {
            assert(x[x.len() - 2] == wanted[wanted.len() - 2]);
        }
    }
}

proof fn lemma_two_lines(a: Seq<char>, b: Seq<char>)
    requires
        a.len() > 0,
        b.len() > 0,
        a.last() != '\r',
        b.last() != '\r',
        forall|k: int| 0 <= k < a.len() ==> #[trigger] a[k] != '\n',
        forall|k: int| 0 <= k < b.len() ==> #[trigger] b[k] != '\n',
    ensures
        lines(a + seq!['\n'] + b + seq!['\n']) == seq![a, b],
{
    let s = a + seq!['\n'] + b + seq!['\n'];
    let ka = a.len() as int;
    let kb = ka + 1 + b.len();
    assert forall|i: int| 0 <= i < ka implies #[trigger] s[i] != '\n' by {
        assert(s[i] == a[i]);
    }
    lemma_find_char_at(s, '\n', 0, ka);
    assert forall|i: int| ka + 1 <= i < kb implies #[trigger] s[i] != '\n' by {
        assert(s[i] == b[i - ka - 1]);
    }
    lemma_find_char_at(s, '\n', ka + 1, kb);
    assert(s.subrange(0, ka) =~= a);
    assert(s.subrange(ka + 1, kb) =~= b);
    assert(lines_from(s, kb + 1) == Seq::<Seq<char>>::empty());
    assert(lines_from(s, ka + 1) =~= seq![b]);
    assert(lines_from(s, 0) =~= seq![a, b]);
}

/// Every accepted form of the counter labels is read: a cache-statistics
/// output whose only hits line and only misses line carry labels of those
/// forms (for example `Total Build Cache Hits` and `Cache Misses`) reports
/// exactly the values on those lines, so the parse yields them.
pub proof fn law_counter_forms_are_read(
    hits_label: Seq<char>,
    i: int,
    misses_label: Seq<char>,
    j: int,
    h: u64,
    m: u64,
)
    requires
        0 <= i < 6,
        0 <= j < 6,
        normalized_spec(hits_label) == counter_forms()[i] + "hits"@,
        normalized_spec(misses_label) == counter_forms()[j] + "misses"@,
        plain_label(hits_label),
        plain_label(misses_label),
    ensures
        single_value(
            counter_values(
                lines(
                    counter_line(hits_label, h as nat) + seq!['\n'] + counter_line(
                        misses_label,
                        m as nat,
                    ) + seq!['\n'],
                ),
                "hits"@,
            ),
        ) == Some(h as nat),
        single_value(
            counter_values(
                lines(
                    counter_line(hits_label, h as nat) + seq!['\n'] + counter_line(
                        misses_label,
                        m as nat,
                    ) + seq!['\n'],
                ),
                "misses"@,
            ),
        ) == Some(m as nat),
{
    reveal_strlit("hits");
    reveal_strlit("misses");
    let a = counter_line(hits_label, h as nat);
    let b = counter_line(misses_label, m as nat);
    lemma_decimal_reads_back(h as nat);
    lemma_decimal_reads_back(m as nat);
    assert(a.last() == decimal(h as nat).last());
    assert(b.last() == decimal(m as nat).last());
    assert(is_digit(decimal(h as nat).last()) && is_digit(decimal(m as nat).last()));
    assert forall|k: int| 0 <= k < a.len() implies #[trigger] a[k] != '\n' by {
        if k < hits_label.len() {
            assert(a[k] == hits_label[k]);
        } else if k >= hits_label.len() + 2 {
            assert(a[k] == decimal(h as nat)[k - hits_label.len() - 2]);
            assert(is_digit(decimal(h as nat)[k - hits_label.len() - 2]));
        }
    }
    assert forall|k: int| 0 <= k < b.len() implies #[trigger] b[k] != '\n' by {
        if k < misses_label.len() {
            assert(b[k] == misses_label[k]);
        } else if k >= misses_label.len() + 2 {
            assert(b[k] == decimal(m as nat)[k - misses_label.len() - 2]);
            assert(is_digit(decimal(m as nat)[k - misses_label.len() - 2]));
        }
    }
    lemma_two_lines(a, b);
    let ls = seq![a, b];
    lemma_counter_line_reads(hits_label, i, "hits"@, h as nat);
    lemma_counter_line_reads(misses_label, j, "misses"@, m as nat);
    // The hits line is not a misses line, and the other way round.
    assert(find_sep(b, 0) == misses_label.len()) by {
        assert forall|k: int| 0 <= k < misses_label.len() implies #[trigger] b[k] != ':' && b[k]
            != '=' by {
            assert(b[k] == misses_label[k]);
        }
        lemma_find_sep_at(b, 0, misses_label.len() as int);
    }
    assert(find_sep(a, 0) == hits_label.len()) by {
        assert forall|k: int| 0 <= k < hits_label.len() implies #[trigger] a[k] != ':' && a[k]
            != '=' by {
            assert(a[k] == hits_label[k]);
        }
        lemma_find_sep_at(a, 0, hits_label.len() as int);
    }
    assert(b.take(misses_label.len() as int) =~= misses_label);
    assert(a.take(hits_label.len() as int) =~= hits_label);
    lemma_other_counter_label(normalized_spec(misses_label), counter_forms()[j], "misses"@, "hits"@);
    lemma_other_counter_label(normalized_spec(hits_label), counter_forms()[i], "hits"@, "misses"@);
    assert(line_counter(b, "hits"@) is None);
    assert(line_counter(a, "misses"@) is None);
    assert(ls.drop_last() =~= seq![a]);
    assert(seq![a].drop_last() =~= Seq::<Seq<char>>::empty());
    assert(seq![a].last() == a);
    assert(ls.last() == b);
    assert(counter_values(Seq::<Seq<char>>::empty(), "hits"@) =~= Seq::<nat>::empty());
    assert(counter_values(Seq::<Seq<char>>::empty(), "misses"@) =~= Seq::<nat>::empty());
    assert(line_counter(a, "hits"@) == Some(h as nat));
    assert(line_counter(b, "misses"@) == Some(m as nat));
    assert(counter_values(seq![a], "hits"@) =~= seq![h as nat]);
    assert(counter_values(ls, "hits"@) =~= seq![h as nat]);
    assert(counter_values(seq![a], "misses"@) =~= Seq::<nat>::empty());
    assert(counter_values(ls, "misses"@) =~= seq![m as nat]);
}

} // verus!
