//! Values that the command-line front end checks and derives: identifiers
//! that may name evidence and scenario files, positive counts, default run
//! ids, and the generated scenarios of the coverage matrix.

use vstd::prelude::*;
use crate::gate::DEFAULT_MAX_OBSERVATION_AGE_MS;
use crate::text::{
    chars_of, decimal, is_ascii_alphanumeric, is_ascii_alphanumeric_exec, parse_unsigned_spec,
    parse_usize, push_decimal, push_str,
};

verus! {

/// A character an identifier may hold: an ASCII letter or digit, `.`, `_`
/// or `-`.
pub open spec fn identifier_char(c: char) -> bool {
    is_ascii_alphanumeric(c) || c == '.' || c == '_' || c == '-'
}

/// An identifier that cannot escape the evidence or scenario directories:
/// 1 to 128 characters from `identifier_char`, starting with a letter or
/// digit (so `.`, `..`, paths and spaces are refused).
pub open spec fn identifier_ok(s: Seq<char>) -> bool {
    &&& 0 < s.len() <= 128
    &&& is_ascii_alphanumeric(s[0])
    &&& forall|i: int| 0 <= i < s.len() ==> identifier_char(#[trigger] s[i])
}

pub open spec fn identifier_error() -> Seq<char> {
    "use 1–128 ASCII letters, digits, '.', '_' or '-', starting with a letter or digit"@
}

pub fn parse_identifier(value: &str) -> (r: Result<String, String>)
    ensures
        match r {
            Ok(s) => identifier_ok(value@) && s@ == value@,
            Err(m) => !identifier_ok(value@) && m@ == identifier_error(),
        },
{
    let cs = chars_of(value);
    let mut ok = cs.len() > 0 && cs.len() <= 128 && is_ascii_alphanumeric_exec(cs[0]);
    let mut i: usize = 0;
    while ok && i < cs.len()
        invariant
            i <= cs@.len(),
            cs@ == value@,
            ok ==> 0 < cs@.len() <= 128 && is_ascii_alphanumeric(cs@[0]),
            ok ==> forall|j: int| 0 <= j < i ==> identifier_char(#[trigger] cs@[j]),
            !ok ==> !identifier_ok(value@),
        decreases cs@.len() - i,
    {
        let c = cs[i];
        if !(is_ascii_alphanumeric_exec(c) || c == '.' || c == '_' || c == '-') {
            ok = false;
        }
        i = i + 1;
    }
    if ok {
        Ok(String::from_str(value))
    } else {
        Err(String::from_str("use 1–128 ASCII letters, digits, '.', '_' or '-', starting with a letter or digit"))
    }
}

pub fn parse_positive_usize(value: &str) -> (r: Result<usize, String>)
    ensures
        match parse_unsigned_spec(value@, usize::MAX as nat) {
            Some(v) => if v > 0 {
                r == Ok::<usize, String>(v as usize)
            } else {
                r matches Err(m) && m@ == "must be a positive integer"@
            },
            None => r matches Err(m) && m@ == "must be a positive integer"@,
        },
{
    match parse_usize(value) {
        Some(v) => if v > 0 {
            Ok(v)
        } else {
            Err(String::from_str("must be a positive integer"))
        },
        None => Err(String::from_str("must be a positive integer")),
    }
}

/// The default run id for a run started at `ms` milliseconds since the
/// epoch: `run-<ms>`.
pub fn run_id_for_time(ms: u128) -> (id: String)
    ensures
        id@ == "run-"@ + decimal(ms as nat),
{
    let mut id = String::from_str("run-");
    push_decimal(&mut id, ms);
    id
}

pub open spec fn matrix_expectation_spec(freshness_ms: u64) -> Seq<char> {
    if freshness_ms > DEFAULT_MAX_OBSERVATION_AGE_MS {
        "rejected_stale"@
    } else {
        "cube_lifted"@
    }
}

/// The outcome a coverage-matrix scenario expects: an observation older
/// than the default threshold is rejected as stale, a fresh one lifts the
/// cube.
pub fn matrix_expectation(freshness_ms: u64) -> (e: &'static str)
    ensures
        e@ == matrix_expectation_spec(freshness_ms),
{
    if freshness_ms > DEFAULT_MAX_OBSERVATION_AGE_MS {
        "rejected_stale"
    } else {
        "cube_lifted"
    }
}

/// The name of a generated coverage-matrix scenario: `<placement>-f<ms>`.
pub fn matrix_scenario_name(placement_id: &str, freshness_ms: u64) -> (n: String)
    ensures
        n@ == placement_id@ + "-f"@ + decimal(freshness_ms as nat),
{
    let mut n = String::from_str(placement_id);
    push_str(&mut n, "-f");
    push_decimal(&mut n, freshness_ms as u128);
    n
}

/// One generated scenario of the coverage matrix: the placement it uses (an
/// index into the matrix's placements), its observation staleness, its name
/// and the outcome it expects.
#[derive(Debug, Clone)]
pub struct MatrixEntry {
    pub placement: usize,
    pub freshness_ms: u64,
    pub name: String,
    pub expect: &'static str,
}

/// A generated scenario as plain values: placement, staleness, name and
/// expected outcome.
pub open spec fn planned(placement: int, id: Seq<char>, freshness_ms: u64) -> (
    int,
    u64,
    Seq<char>,
    Seq<char>,
) {
    (
        placement,
        freshness_ms,
        id + "-f"@ + decimal(freshness_ms as nat),
        matrix_expectation_spec(freshness_ms),
    )
}

/// The scenarios of one placement, one per staleness in order.
pub open spec fn matrix_row(placement: int, id: Seq<char>, fresh: Seq<u64>) -> Seq<
    (int, u64, Seq<char>, Seq<char>),
> {
    fresh.map_values(|f: u64| planned(placement, id, f))
}

/// The generated scenarios of the matrix, placement by placement.
pub open spec fn matrix_plan_spec(ids: Seq<Seq<char>>, fresh: Seq<u64>) -> Seq<
    (int, u64, Seq<char>, Seq<char>),
>
    decreases ids.len(),
{
    if ids.len() == 0 {
        seq![]
    } else {
        matrix_plan_spec(ids.drop_last(), fresh) + matrix_row(ids.len() - 1, ids.last(), fresh)
    }
}

pub open spec fn entry_views(es: Seq<MatrixEntry>) -> Seq<(int, u64, Seq<char>, Seq<char>)> {
    es.map_values(|e: MatrixEntry| (e.placement as int, e.freshness_ms, e.name@, e.expect@))
}

pub open spec fn id_views(ids: Seq<String>) -> Seq<Seq<char>> {
    ids.map_values(|s: String| s@)
}

/// The generated scenarios of the coverage matrix, in the order they run:
/// for each placement in turn, one scenario per staleness value.
pub fn matrix_plan(placement_ids: &[String], freshness_ms: &[u64]) -> (plan: Vec<MatrixEntry>)
    ensures
        entry_views(plan@) == matrix_plan_spec(id_views(placement_ids@), freshness_ms@),
{
    let ghost ids = id_views(placement_ids@);
    let ghost fresh = freshness_ms@;
    let mut plan: Vec<MatrixEntry> = Vec::new();
    let mut i: usize = 0;
    assert(ids.take(0) =~= seq![]);
    assert(entry_views(plan@) =~= seq![]);
    while i < placement_ids.len()
        invariant
            i <= placement_ids@.len(),
            ids == id_views(placement_ids@),
            fresh == freshness_ms@,
            entry_views(plan@) == matrix_plan_spec(ids.take(i as int), fresh),
        decreases placement_ids@.len() - i,
    {
        let ghost before = entry_views(plan@);
        let mut j: usize = 0;
        while j < freshness_ms.len()
            invariant
                i < placement_ids@.len(),
                j <= freshness_ms@.len(),
                ids == id_views(placement_ids@),
                fresh == freshness_ms@,
                entry_views(plan@) == before + matrix_row(i as int, ids[i as int], fresh.take(
                    j as int,
                )),
            decreases freshness_ms@.len() - j,
        {
            let f = freshness_ms[j];
            let ghost prior = plan@;
            assert(ids[i as int] == placement_ids@[i as int]@);
            let entry = MatrixEntry {
                placement: i,
                freshness_ms: f,
                name: matrix_scenario_name(placement_ids[i].as_str(), f),
                expect: matrix_expectation(f),
            };
            plan.push(entry);
            assert(entry_views(plan@) =~= entry_views(prior).push(planned(i as int, ids[i as int], f)));
            assert(matrix_row(i as int, ids[i as int], fresh.take(j + 1)) =~= matrix_row(
                i as int,
                ids[i as int],
                fresh.take(j as int),
            ).push(planned(i as int, ids[i as int], f)));
            j = j + 1;
            assert(entry_views(plan@) =~= before + matrix_row(i as int, ids[i as int], fresh.take(
                j as int,
            )));
        }
        assert(fresh.take(fresh.len() as int) =~= fresh);
        assert(ids.take(i + 1).drop_last() =~= ids.take(i as int));
        i = i + 1;
    }
    assert(ids.take(ids.len() as int) =~= ids);
    plan
}

/// The matrix plan is the product of placements and staleness values in
/// placement-major order: scenario `k` uses placement `k / F` and staleness
/// `k % F`, where `F` is the number of staleness values.
pub proof fn law_matrix_plan_is_the_product(ids: Seq<Seq<char>>, fresh: Seq<u64>)
    ensures
        matrix_plan_spec(ids, fresh).len() == ids.len() * fresh.len(),
        forall|k: int|
            0 <= k < ids.len() * fresh.len() ==> #[trigger] matrix_plan_spec(ids, fresh)[k]
                == planned(k / fresh.len() as int, ids[k / fresh.len() as int], fresh[k % fresh.len() as int]),
    decreases ids.len(),
{
    if ids.len() > 0 {
        let n = ids.len() - 1;
        let f = fresh.len() as int;
        law_matrix_plan_is_the_product(ids.drop_last(), fresh);
        assert(n * f + f == ids.len() * f) by (nonlinear_arith)
            requires
                n == ids.len() - 1,
        ;
        assert forall|k: int| 0 <= k < ids.len() * fresh.len() implies #[trigger] matrix_plan_spec(
            ids,
            fresh,
        )[k] == planned(k / f, ids[k / f], fresh[k % f]) by {
            if k < n * f {
                assert(f > 0) by (nonlinear_arith)
                    requires
                        0 <= k < n * f,
                        n >= 0,
                        f >= 0,
                ;
                assert(k / f < n) by (nonlinear_arith)
                    requires
                        0 <= k < n * f,
                        f > 0,
                ;
                assert(ids.drop_last()[k / f] == ids[k / f]);
            } else {
                let j = k - n * f;
                assert(0 <= j < f);
                assert(k / f == n && k % f == j) by (nonlinear_arith)
                    requires
                        k == n * f + j,
                        0 <= j < f,
                ;
            }
        }
    }
}

} // verus!
