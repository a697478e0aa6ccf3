//! Benchmark receipts: native, cold-cache and parent-warmed Incredibuild
//! build samples, and the consistency check over them.
//!
//! Cache state is never asserted by the receipt. Every sample carries the
//! cache-clearing operations the runner actually performed, transcribed from
//! the cache tool's own output, and the parent-seed build that warmed the
//! cache; the validator checks the ordering of these records against the
//! timestamps taken around each build.

use vstd::prelude::*;
use crate::text::{decimal, is_lower_hex_digit, str_eq};

verus! {

/// Version 1 of the receipt carried top-level booleans that asserted the
/// cache scope and the clearing procedure; nothing observed them. Version 2
/// carries cache state per sample, transcribed from real operations.
pub const BUILD_PROOF_SCHEMA_VERSION: u32 = 2;

/// The cache namespace a clearing operation acted on. There is deliberately
/// no default: an invocation that is not recognized yields `Unknown`, and
/// `Unknown` never validates.
#[derive(Debug, Clone, Copy, PartialEq, Eq, Structural)]
pub enum CacheScope {
    LocalUser,
    Shared,
    Unknown,
}

pub open spec fn scope_text(s: CacheScope) -> Seq<char> {
    match s {
        CacheScope::LocalUser => "local-user"@,
        CacheScope::Shared => "shared"@,
        CacheScope::Unknown => "unknown"@,
    }
}

impl CacheScope {
    /// The scope's name as it appears in receipts and messages.
    pub fn as_str(&self) -> (s: &'static str)
        ensures
            s@ == scope_text(*self),
    {
        match self {
            CacheScope::LocalUser => "local-user",
            CacheScope::Shared => "shared",
            CacheScope::Unknown => "unknown",
        }
    }
}

/// One cache-clearing operation the runner performed, transcribed from the
/// cache tool's own output and exit status.
#[derive(Debug, Clone)]
pub struct CacheClear {
    pub scope: CacheScope,
    pub argv: String,
    pub exit_code: i32,
    pub started_at_ms: u64,
    pub completed_at_ms: u64,
    pub transcript_path: String,
    pub transcript_sha256: String,
}

/// The parent-revision build that warmed the cache for an `ib-parent-warm`
/// sample, with counters from the same tools as a measured sample's.
#[derive(Debug, Clone)]
pub struct ParentSeed {
    pub build_caption: String,
    pub source_revision: String,
    pub started_at_ms: u64,
    pub remote_tasks: u64,
    pub cache_hits: u64,
    pub cache_misses: u64,
}

/// One timed build. `remote_core_time_bits` holds the remote core time in
/// seconds as the bits of an IEEE-754 double (`f64::to_bits`).
#[derive(Debug, Clone)]
pub struct BuildSample {
    pub mode: String,
    pub repetition: usize,
    pub wall_ms: u64,
    pub build_caption: String,
    pub source_revision: String,
    /// Wall clock at which the timed build started, ms since the epoch.
    pub started_at_ms: u64,
    /// Cache clears the runner performed for this sample, in order. Empty
    /// means "nothing was observed", not "nothing happened".
    pub cache_clears: Vec<CacheClear>,
    /// Present only for `ib-parent-warm`.
    pub parent_seed: Option<ParentSeed>,
    pub remote_tasks: Option<u64>,
    pub local_tasks: Option<u64>,
    pub remote_core_time_bits: Option<u64>,
    pub cache_hits: Option<u64>,
    pub cache_misses: Option<u64>,
}

#[derive(Debug, Clone)]
pub struct BuildProof {
    pub schema_version: u32,
    pub run_id: String,
    pub candidate_revision: String,
    pub parent_revision: String,
    pub samples: Vec<BuildSample>,
}

/// What a cache-using build in a receipt is: a measured sample or the
/// parent seed that warmed one.
#[derive(Debug, Clone)]
pub enum BuildLabel {
    Sample { mode: String, repetition: usize },
    ParentSeed { caption: String },
}

/// A cache-using build in a receipt, used to prove that nothing ran between
/// a cache clear and the build it is claimed to have prepared.
#[derive(Debug, Clone)]
pub struct CacheBuild {
    pub started_at_ms: u64,
    pub label: BuildLabel,
}

/// The build whose cache had to be empty: a cold sample's own build, or
/// the parent seed of a warm sample.
#[derive(Debug, Clone)]
pub enum ClearTarget {
    Sample { mode: String, repetition: usize },
    SeedFor { mode: String, repetition: usize },
}

/// What the receipt's own records support about cache handling.
#[derive(Debug, Clone)]
pub struct CacheEvidence {
    pub scope: CacheScope,
    pub clears: u128,
    pub warm_seeds: usize,
}

/// Why a receipt, a transcript or a sample request is refused.
#[derive(Debug, Clone)]
pub enum ReceiptError {
    // cache-statistics counters
    CounterAmbiguous { wanted: &'static str, values: Vec<u64> },
    // cache-clear transcripts
    NoSeparator,
    NoMarker,
    NonHeaderLine { line: String },
    RepeatedHeader { key: &'static str, count: usize },
    MissingHeader { key: &'static str },
    ExitCodeNotInteger,
    ClearFailed { argv: String, exit_code: i32 },
    StartNotInteger,
    CompletedNotInteger,
    NonsensicalTimeRange { argv: String },
    // usability of a clear
    ClearExited { target: ClearTarget, argv: String, exit_code: i32 },
    SharedScope { target: ClearTarget, argv: String },
    UnknownScope { target: ClearTarget, argv: String },
    NoDigest { target: ClearTarget, argv: String },
    NoTranscript { target: ClearTarget, argv: String },
    // the cache chain
    SameStartTime { first: BuildLabel, second: BuildLabel, start_ms: u64 },
    NoClear { mode: String, repetition: usize },
    ScopeDisagreement {
        mode: String,
        repetition: usize,
        previous: CacheScope,
        current: CacheScope,
    },
    SeedWrongRevision { mode: String, repetition: usize, built: String, expected: String },
    SeedNotBefore { mode: String, repetition: usize },
    SeedNoRemoteTasks { mode: String, repetition: usize },
    SeedCacheHits { mode: String, repetition: usize, hits: u64 },
    SeedNoMisses { mode: String, repetition: usize },
    InterveningAfterSeed { mode: String, repetition: usize, between: BuildLabel },
    NoParentSeed { mode: String, repetition: usize },
    UnknownMode { mode: String },
    NoClearBefore { target: ClearTarget },
    InterveningAfterClear { target: ClearTarget, between: BuildLabel },
    ScopeNotLocal { scope: CacheScope },
    // the receipt as a whole
    SchemaOne,
    UnsupportedSchema { version: u32 },
    BadRunId,
    MissingRevisions,
    SameRevisions,
    NoWallTimeOrCaption { mode: String, repetition: usize },
    NoStartTime { mode: String, repetition: usize },
    WrongRevision { mode: String, repetition: usize, built: String, expected: String },
    NativeTelemetry { repetition: usize },
    NoRemoteTasks { mode: String, repetition: usize },
    NoCoreTime { mode: String, repetition: usize },
    IncompleteTelemetry { mode: String, repetition: usize },
    ColdNotEmpty { repetition: usize, hits: Option<u64> },
    WarmNoHits { repetition: usize },
    MissingMode { mode: &'static str },
    TooFewSamples { mode: &'static str, count: usize, min_samples: usize },
    DuplicateRepetitions { mode: &'static str },
    // sample requests
    NoStartedAt,
    NativeWithTelemetry,
    NativeWithClear,
    IbWithoutClear { mode: String, repetition: usize },
    WarmWithoutSeed { repetition: usize },
    ColdWithSeed { repetition: usize },
    MissingHistory,
    MissingCache,
    SeedNoStart { caption: String },
}

// ---------------------------------------------------------------------
// Copies with exact contracts
// ---------------------------------------------------------------------

fn copy_string(s: &String) -> (r: String)
    ensures
        r == *s,
{
    s.clone()
}

fn copy_label(l: &BuildLabel) -> (r: BuildLabel)
    ensures
        r == *l,
{
    match l {
        BuildLabel::Sample { mode, repetition } => BuildLabel::Sample {
            mode: copy_string(mode),
            repetition: *repetition,
        },
        BuildLabel::ParentSeed { caption } => BuildLabel::ParentSeed { caption: copy_string(caption) },
    }
}

fn copy_target(t: &ClearTarget) -> (r: ClearTarget)
    ensures
        r == *t,
{
    match t {
        ClearTarget::Sample { mode, repetition } => ClearTarget::Sample {
            mode: copy_string(mode),
            repetition: *repetition,
        },
        ClearTarget::SeedFor { mode, repetition } => ClearTarget::SeedFor {
            mode: copy_string(mode),
            repetition: *repetition,
        },
    }
}

// ---------------------------------------------------------------------
// Clears
// ---------------------------------------------------------------------

/// The index of the latest clear that finished at or before `before_ms`;
/// among clears that finished at the same instant, the last one listed.
pub open spec fn latest_clear(clears: Seq<CacheClear>, before_ms: u64) -> Option<int>
    decreases clears.len(),
{
    if clears.len() == 0 {
        None
    } else {
        let prev = latest_clear(clears.drop_last(), before_ms);
        let c = clears.last();
        if c.completed_at_ms <= before_ms && (prev matches Some(k) ==> clears[k].completed_at_ms
            <= c.completed_at_ms) {
            Some(clears.len() - 1)
        } else {
            prev
        }
    }
}

proof fn lemma_latest_clear_prefix(clears: Seq<CacheClear>, before_ms: u64)
    ensures
        latest_clear(clears, before_ms) matches Some(k) ==> 0 <= k < clears.len()
            && clears[k].completed_at_ms <= before_ms,
    decreases clears.len(),
{
    if clears.len() > 0 {
        lemma_latest_clear_prefix(clears.drop_last(), before_ms);
    }
}

/// The latest clear that finished at or before `before_ms`.
pub fn effective_clear(clears: &[CacheClear], before_ms: u64) -> (r: Option<&CacheClear>)
    ensures
        match latest_clear(clears@, before_ms) {
            Some(k) => r is Some && *r->0 == clears@[k],
            None => r is None,
        },
{
    let mut best: Option<usize> = None;
    let mut i: usize = 0;
    while i < clears.len()
        invariant
            i <= clears@.len(),
            best == (match latest_clear(clears@.take(i as int), before_ms) {
                Some(k) => Some(k as usize),
                None => None::<usize>,
            }),
            latest_clear(clears@.take(i as int), before_ms) matches Some(k) ==> 0 <= k < i,
        decreases clears@.len() - i,
    {
        proof {
            assert(clears@.take(i + 1).drop_last() =~= clears@.take(i as int));
            lemma_latest_clear_prefix(clears@.take(i as int), before_ms);
        }
        let c = &clears[i];
        let take = c.completed_at_ms <= before_ms && match best {
            Some(k) => clears[k].completed_at_ms <= c.completed_at_ms,
            None => true,
        };
        if take {
            best = Some(i);
        }
        i = i + 1;
    }
    assert(clears@.take(clears@.len() as int) =~= clears@);
    match best {
        Some(k) => Some(&clears[k]),
        None => None,
    }
}

// ---------------------------------------------------------------------
// Cache-using builds
// ---------------------------------------------------------------------

pub open spec fn is_mode(s: BuildSample, m: Seq<char>) -> bool {
    s.mode@ == m
}

/// The cache-using builds of one sample: none for a native sample; the
/// sample itself, then its parent seed if it has one, otherwise.
pub open spec fn sample_builds(s: BuildSample) -> Seq<CacheBuild> {
    if is_mode(s, "native"@) {
        seq![]
    } else {
        let b = CacheBuild {
            started_at_ms: s.started_at_ms,
            label: BuildLabel::Sample { mode: s.mode, repetition: s.repetition },
        };
        match s.parent_seed {
            Some(seed) => seq![
                b,
                CacheBuild {
                    started_at_ms: seed.started_at_ms,
                    label: BuildLabel::ParentSeed { caption: seed.build_caption },
                },
            ],
            None => seq![b],
        }
    }
}

/// All cache-using builds of a receipt, in sample order.
pub open spec fn cache_builds(samples: Seq<BuildSample>) -> Seq<CacheBuild>
    decreases samples.len(),
{
    if samples.len() == 0 {
        seq![]
    } else {
        cache_builds(samples.drop_last()) + sample_builds(samples.last())
    }
}

fn collect_cache_builds(samples: &Vec<BuildSample>) -> (r: Vec<CacheBuild>)
    ensures
        r@ == cache_builds(samples@),
{
    let mut r: Vec<CacheBuild> = Vec::new();
    let mut i: usize = 0;
    while i < samples.len()
        invariant
            i <= samples@.len(),
            r@ == cache_builds(samples@.take(i as int)),
        decreases samples@.len() - i,
    {
        let s = &samples[i];
        let ghost before = r@;
        proof {
            assert(samples@.take(i + 1).drop_last() =~= samples@.take(i as int));
        }
        if !str_eq(s.mode.as_str(), "native") {
            r.push(
                CacheBuild {
                    started_at_ms: s.started_at_ms,
                    label: BuildLabel::Sample { mode: copy_string(&s.mode), repetition: s.repetition },
                },
            );
            match &s.parent_seed {
                Some(seed) => {
                    r.push(
                        CacheBuild {
                            started_at_ms: seed.started_at_ms,
                            label: BuildLabel::ParentSeed { caption: copy_string(&seed.build_caption) },
                        },
                    );
                },
                None => {},
            }
        }
        i = i + 1;
        assert(r@ =~= before + sample_builds(samples@[i - 1]));
    }
    assert(samples@.take(samples@.len() as int) =~= samples@);
    r
}

/// The first build at or after index `k` that started strictly between
/// `after_ms` and `before_ms`.
pub open spec fn intervening_from(builds: Seq<CacheBuild>, after_ms: u64, before_ms: u64, k: int) -> Option<int>
    decreases builds.len() - k,
{
    if k < 0 || k >= builds.len() {
        None
    } else if after_ms < builds[k].started_at_ms && builds[k].started_at_ms < before_ms {
        Some(k)
    } else {
        intervening_from(builds, after_ms, before_ms, k + 1)
    }
}

proof fn lemma_intervening_from(builds: Seq<CacheBuild>, after_ms: u64, before_ms: u64, k: int)
    requires
        0 <= k,
    ensures
        match intervening_from(builds, after_ms, before_ms, k) {
            Some(m) => k <= m < builds.len() && after_ms < builds[m].started_at_ms
                && builds[m].started_at_ms < before_ms,
            None => forall|m: int| k <= m < builds.len() ==> !(after_ms < #[trigger] builds[m].started_at_ms
                && builds[m].started_at_ms < before_ms),
        },
    decreases builds.len() - k,
{
    if k < builds.len() {
        lemma_intervening_from(builds, after_ms, before_ms, k + 1);
    }
}

/// Any cache-using build that started strictly between the two instants.
pub fn intervening_build(builds: &[CacheBuild], after_ms: u64, before_ms: u64) -> (r: Option<
    &CacheBuild,
>)
    ensures
        match intervening_from(builds@, after_ms, before_ms, 0) {
            Some(m) => r is Some && *r->0 == builds@[m],
            None => r is None,
        },
{
    let mut k: usize = 0;
    while k < builds.len()
        invariant
            k <= builds@.len(),
            intervening_from(builds@, after_ms, before_ms, 0) == intervening_from(
                builds@,
                after_ms,
                before_ms,
                k as int,
            ),
        decreases builds@.len() - k,
    {
        if builds[k].started_at_ms > after_ms && builds[k].started_at_ms < before_ms {
            return Some(&builds[k]);
        }
        k = k + 1;
    }
    None
}

/// The smallest index below `j`, from `i` on, of a build that started at the
/// same instant as build `j`.
pub open spec fn same_start_from(builds: Seq<CacheBuild>, j: int, i: int) -> Option<int>
    decreases j - i,
{
    if i < 0 || i >= j || j >= builds.len() {
        None
    } else if builds[i].started_at_ms == builds[j].started_at_ms {
        Some(i)
    } else {
        same_start_from(builds, j, i + 1)
    }
}

/// The first build, from index `j` on, that repeats an earlier start time,
/// with the earlier build it repeats.
pub open spec fn first_repeat_from(builds: Seq<CacheBuild>, j: int) -> Option<(int, int)>
    decreases builds.len() - j,
{
    if j < 0 || j >= builds.len() {
        None
    } else {
        match same_start_from(builds, j, 0) {
            Some(i) => Some((i, j)),
            None => first_repeat_from(builds, j + 1),
        }
    }
}

proof fn lemma_same_start_from(builds: Seq<CacheBuild>, j: int, i: int)
    requires
        0 <= i,
    ensures
        match same_start_from(builds, j, i) {
            Some(m) => i <= m < j < builds.len() && builds[m].started_at_ms
                == builds[j].started_at_ms,
            None => forall|m: int|
                i <= m < j && j < builds.len() ==> #[trigger] builds[m].started_at_ms
                    != builds[j].started_at_ms,
        },
    decreases j - i,
{
    if i < j && j < builds.len() && builds[i].started_at_ms != builds[j].started_at_ms {
        lemma_same_start_from(builds, j, i + 1);
    }
}

proof fn lemma_first_repeat_from(builds: Seq<CacheBuild>, j: int)
    requires
        0 <= j,
    ensures
        first_repeat_from(builds, j) is None ==> forall|a: int, b: int|
            0 <= a < b < builds.len() && j <= b ==> #[trigger] builds[a].started_at_ms
                != #[trigger] builds[b].started_at_ms,
        first_repeat_from(builds, j) matches Some((a, b)) ==> 0 <= a < b < builds.len()
            && builds[a].started_at_ms == builds[b].started_at_ms,
    decreases builds.len() - j,
{
    if 0 <= j < builds.len() {
        lemma_same_start_from(builds, j, 0);
        lemma_first_repeat_from(builds, j + 1);
        if same_start_from(builds, j, 0) is None && first_repeat_from(builds, j + 1) is None {
            assert forall|a: int, b: int|
                0 <= a < b < builds.len() && j <= b implies #[trigger] builds[a].started_at_ms
                != #[trigger] builds[b].started_at_ms by {
                if b == j {
                    assert(builds[a].started_at_ms != builds[j].started_at_ms);
                }
            }
        }
    }
}

/// Whether no two cache-using builds report the same start time.
pub open spec fn starts_distinct(builds: Seq<CacheBuild>) -> bool {
    forall|a: int, b: int|
        0 <= a < b < builds.len() ==> #[trigger] builds[a].started_at_ms
            != #[trigger] builds[b].started_at_ms
}

pub open spec fn distinct_starts_result(builds: Seq<CacheBuild>) -> Result<(), ReceiptError> {
    match first_repeat_from(builds, 0) {
        Some((i, j)) => Err(
            ReceiptError::SameStartTime {
                first: builds[i].label,
                second: builds[j].label,
                start_ms: builds[j].started_at_ms,
            },
        ),
        None => Ok(()),
    }
}

fn check_distinct_starts(builds: &Vec<CacheBuild>) -> (r: Result<(), ReceiptError>)
    ensures
        r == distinct_starts_result(builds@),
        r is Ok <==> starts_distinct(builds@),
{
    proof {
        lemma_first_repeat_from(builds@, 0);
    }
    let mut j: usize = 0;
    while j < builds.len()
        invariant
            j <= builds@.len(),
            first_repeat_from(builds@, 0) == first_repeat_from(builds@, j as int),
        decreases builds@.len() - j,
    {
        let mut i: usize = 0;
        while i < j
            invariant
                i <= j < builds@.len(),
                first_repeat_from(builds@, 0) == first_repeat_from(builds@, j as int),
                same_start_from(builds@, j as int, 0) == same_start_from(builds@, j as int, i as int),
            decreases j - i,
        {
            if builds[i].started_at_ms == builds[j].started_at_ms {
                assert(same_start_from(builds@, j as int, i as int) == Some(i as int));
                assert(first_repeat_from(builds@, j as int) == Some((i as int, j as int)));
                let first = copy_label(&builds[i].label);
                let second = copy_label(&builds[j].label);
                let e = ReceiptError::SameStartTime {
                    first,
                    second,
                    start_ms: builds[j].started_at_ms,
                };
                return Err(e);
            }
            i = i + 1;
        }
        j = j + 1;
    }
    Ok(())
}

// ---------------------------------------------------------------------
// Usability of a clear
// ---------------------------------------------------------------------

/// A transcript digest as sha256 writes it: 64 lower-case hex characters.
pub open spec fn digest_ok(d: Seq<char>) -> bool {
    d.len() == 64 && forall|i: int| 0 <= i < d.len() ==> is_lower_hex_digit(#[trigger] d[i])
}

fn digest_ok_exec(d: &str) -> (r: bool)
    ensures
        r == digest_ok(d@),
{
    let cs = crate::text::chars_of(d);
    if cs.len() != 64 {
        return false;
    }
    let mut i: usize = 0;
    while i < cs.len()
        invariant
            i <= cs@.len(),
            cs@ == d@,
            forall|j: int| 0 <= j < i ==> is_lower_hex_digit(#[trigger] cs@[j]),
        decreases cs@.len() - i,
    {
        let c = cs[i];
        if !(('0' <= c && c <= '9') || ('a' <= c && c <= 'f')) {
            return false;
        }
        i = i + 1;
    }
    true
}

/// A clear may prepare a build only if it exited 0, acted on the invoking
/// user's own cache, and left a retained transcript with its digest.
pub open spec fn clear_usable_result(c: CacheClear, target: ClearTarget) -> Result<(), ReceiptError> {
    if c.exit_code != 0 {
        Err(ReceiptError::ClearExited { target, argv: c.argv, exit_code: c.exit_code })
    } else if c.scope == CacheScope::Shared {
        Err(ReceiptError::SharedScope { target, argv: c.argv })
    } else if c.scope == CacheScope::Unknown {
        Err(ReceiptError::UnknownScope { target, argv: c.argv })
    } else if !digest_ok(c.transcript_sha256@) {
        Err(ReceiptError::NoDigest { target, argv: c.argv })
    } else if c.transcript_path@.len() == 0 {
        Err(ReceiptError::NoTranscript { target, argv: c.argv })
    } else {
        Ok(())
    }
}

pub fn check_clear_usable(clear: &CacheClear, target: &ClearTarget) -> (r: Result<
    (),
    ReceiptError,
>)
    ensures
        r == clear_usable_result(*clear, *target),
{
    if clear.exit_code != 0 {
        return Err(
            ReceiptError::ClearExited {
                target: copy_target(target),
                argv: copy_string(&clear.argv),
                exit_code: clear.exit_code,
            },
        );
    }
    match clear.scope {
        CacheScope::LocalUser => {},
        CacheScope::Shared => {
            return Err(
                ReceiptError::SharedScope { target: copy_target(target), argv: copy_string(&clear.argv) },
            );
        },
        CacheScope::Unknown => {
            return Err(
                ReceiptError::UnknownScope { target: copy_target(target), argv: copy_string(&clear.argv) },
            );
        },
    }
    if !digest_ok_exec(clear.transcript_sha256.as_str()) {
        return Err(
            ReceiptError::NoDigest { target: copy_target(target), argv: copy_string(&clear.argv) },
        );
    }
    if clear.transcript_path.as_str().is_empty() {
        return Err(
            ReceiptError::NoTranscript { target: copy_target(target), argv: copy_string(&clear.argv) },
        );
    }
    Ok(())
}

// ---------------------------------------------------------------------
// The cache chain
// ---------------------------------------------------------------------

/// The scope seen so far after one more clear of sample `mode`/`repetition`.
pub open spec fn scope_step(
    mode: String,
    repetition: usize,
    seen: Option<CacheScope>,
    c: CacheClear,
) -> Result<Option<CacheScope>, ReceiptError> {
    match seen {
        None => Ok(Some(c.scope)),
        Some(previous) => if previous == c.scope {
            Ok(Some(previous))
        } else {
            Err(
                ReceiptError::ScopeDisagreement { mode, repetition, previous, current: c.scope },
            )
        },
    }
}

/// All clears of a receipt must agree about the cache scope they acted on.
pub open spec fn clears_scope(
    mode: String,
    repetition: usize,
    clears: Seq<CacheClear>,
    seen: Option<CacheScope>,
) -> Result<Option<CacheScope>, ReceiptError>
    decreases clears.len(),
{
    if clears.len() == 0 {
        Ok(seen)
    } else {
        match clears_scope(mode, repetition, clears.drop_last(), seen) {
            Err(e) => Err(e),
            Ok(sc) => scope_step(mode, repetition, sc, clears.last()),
        }
    }
}

/// The instant at which the cache had to be empty for an IB sample, the
/// build it names, and whether a parent seed was attributed: for a cold
/// sample its own build; for a warm sample the parent seed that warmed it,
/// which must have built the parent revision, started before the measured
/// build, done remote work, found an empty cache, filled it, and had no
/// other cache-using build between it and the measured build.
pub open spec fn sample_target(proof: BuildProof, builds: Seq<CacheBuild>, s: BuildSample) -> Result<
    (u64, ClearTarget, bool),
    ReceiptError,
> {
    if is_mode(s, "ib-cold"@) {
        Ok((s.started_at_ms, ClearTarget::Sample { mode: s.mode, repetition: s.repetition }, false))
    } else if is_mode(s, "ib-parent-warm"@) {
        match s.parent_seed {
            Some(seed) => if seed.source_revision@ != proof.parent_revision@ {
                Err(
                    ReceiptError::SeedWrongRevision {
                        mode: s.mode,
                        repetition: s.repetition,
                        built: seed.source_revision,
                        expected: proof.parent_revision,
                    },
                )
            } else if seed.started_at_ms >= s.started_at_ms {
                Err(ReceiptError::SeedNotBefore { mode: s.mode, repetition: s.repetition })
            } else if seed.remote_tasks == 0 {
                Err(ReceiptError::SeedNoRemoteTasks { mode: s.mode, repetition: s.repetition })
            } else if seed.cache_hits != 0 {
                Err(
                    ReceiptError::SeedCacheHits {
                        mode: s.mode,
                        repetition: s.repetition,
                        hits: seed.cache_hits,
                    },
                )
            } else if seed.cache_misses == 0 {
                Err(ReceiptError::SeedNoMisses { mode: s.mode, repetition: s.repetition })
            } else {
                match intervening_from(builds, seed.started_at_ms, s.started_at_ms, 0) {
                    Some(m) => Err(
                        ReceiptError::InterveningAfterSeed {
                            mode: s.mode,
                            repetition: s.repetition,
                            between: builds[m].label,
                        },
                    ),
                    None => Ok(
                        (
                            seed.started_at_ms,
                            ClearTarget::SeedFor { mode: s.mode, repetition: s.repetition },
                            true,
                        ),
                    ),
                }
            },
            None => Err(ReceiptError::NoParentSeed { mode: s.mode, repetition: s.repetition }),
        }
    } else {
        Err(ReceiptError::UnknownMode { mode: s.mode })
    }
}

/// The clear that prepared the target: the latest one finished by then,
/// usable, with no cache-using build between it and the target.
pub open spec fn clear_check(
    builds: Seq<CacheBuild>,
    s: BuildSample,
    target_ms: u64,
    target: ClearTarget,
) -> Result<(), ReceiptError> {
    match latest_clear(s.cache_clears@, target_ms) {
        None => Err(ReceiptError::NoClearBefore { target }),
        Some(k) => {
            let c = s.cache_clears@[k];
            match clear_usable_result(c, target) {
                Err(e) => Err(e),
                Ok(_) => match intervening_from(builds, c.completed_at_ms, target_ms, 0) {
                    Some(m) => Err(
                        ReceiptError::InterveningAfterClear { target, between: builds[m].label },
                    ),
                    None => Ok(()),
                },
            }
        },
    }
}

/// Running totals of the cache-chain check.
pub struct ChainTally {
    pub scope: Option<CacheScope>,
    pub clears: nat,
    pub warm_seeds: nat,
}

/// One sample's part of the cache chain.
pub open spec fn sample_chain(proof: BuildProof, builds: Seq<CacheBuild>, s: BuildSample, t: ChainTally) -> Result<
    ChainTally,
    ReceiptError,
> {
    if is_mode(s, "native"@) {
        Ok(t)
    } else if s.cache_clears@.len() == 0 {
        Err(ReceiptError::NoClear { mode: s.mode, repetition: s.repetition })
    } else {
        match clears_scope(s.mode, s.repetition, s.cache_clears@, t.scope) {
            Err(e) => Err(e),
            Ok(sc) => match sample_target(proof, builds, s) {
                Err(e) => Err(e),
                Ok((target_ms, target, warm)) => match clear_check(builds, s, target_ms, target) {
                    Err(e) => Err(e),
                    Ok(_) => Ok(
                        ChainTally {
                            scope: sc,
                            clears: t.clears + s.cache_clears@.len(),
                            warm_seeds: t.warm_seeds + if warm {
                                1nat
                            } else {
                                0nat
                            },
                        },
                    ),
                },
            },
        }
    }
}

/// The cache chain over a prefix of the samples.
pub open spec fn chain_fold(proof: BuildProof, builds: Seq<CacheBuild>, samples: Seq<BuildSample>) -> Result<
    ChainTally,
    ReceiptError,
>
    decreases samples.len(),
{
    if samples.len() == 0 {
        Ok(ChainTally { scope: None, clears: 0, warm_seeds: 0 })
    } else {
        match chain_fold(proof, builds, samples.drop_last()) {
            Err(e) => Err(e),
            Ok(t) => sample_chain(proof, builds, samples.last(), t),
        }
    }
}

/// The result of checking a receipt's cache chain.
pub open spec fn cache_chain_result(proof: BuildProof) -> Result<(CacheScope, nat, nat), ReceiptError> {
    let builds = cache_builds(proof.samples@);
    match distinct_starts_result(builds) {
        Err(e) => Err(e),
        Ok(_) => match chain_fold(proof, builds, proof.samples@) {
            Err(e) => Err(e),
            Ok(t) => {
                let scope = match t.scope {
                    Some(sc) => sc,
                    None => CacheScope::Unknown,
                };
                if scope != CacheScope::LocalUser {
                    Err(ReceiptError::ScopeNotLocal { scope })
                } else {
                    Ok((scope, t.clears, t.warm_seeds))
                }
            },
        },
    }
}

fn clears_scope_exec(sample: &BuildSample, seen: Option<CacheScope>) -> (r: Result<
    Option<CacheScope>,
    ReceiptError,
>)
    ensures
        r == clears_scope(sample.mode, sample.repetition, sample.cache_clears@, seen),
{
    let clears = &sample.cache_clears;
    let mut sc = seen;
    let mut i: usize = 0;
    while i < clears.len()
        invariant
            i <= clears@.len(),
            clears@ == sample.cache_clears@,
            clears_scope(sample.mode, sample.repetition, clears@.take(i as int), seen) == Ok::<
                Option<CacheScope>,
                ReceiptError,
            >(sc),
        decreases clears@.len() - i,
    {
        assert(clears@.take(i + 1).drop_last() =~= clears@.take(i as int));
        let c = &clears[i];
        match sc {
            None => {
                sc = Some(c.scope);
            },
            Some(previous) => {
                if previous != c.scope {
                    proof {
                        lemma_clears_scope_err_persists(
                            sample.mode,
                            sample.repetition,
                            clears@,
                            seen,
                            i + 1,
                        );
                    }
                    return Err(
                        ReceiptError::ScopeDisagreement {
                            mode: copy_string(&sample.mode),
                            repetition: sample.repetition,
                            previous,
                            current: c.scope,
                        },
                    );
                }
            },
        }
        i = i + 1;
    }
    assert(clears@.take(clears@.len() as int) =~= clears@);
    Ok(sc)
}

/// Once the scope check over a prefix fails, it fails with the same error
/// over every longer prefix.
proof fn lemma_clears_scope_err_persists(
    mode: String,
    repetition: usize,
    clears: Seq<CacheClear>,
    seen: Option<CacheScope>,
    k: int,
)
    requires
        0 <= k <= clears.len(),
        clears_scope(mode, repetition, clears.take(k), seen) is Err,
    ensures
        clears_scope(mode, repetition, clears, seen) == clears_scope(
            mode,
            repetition,
            clears.take(k),
            seen,
        ),
    decreases clears.len() - k,
{
    if k == clears.len() {
        assert(clears.take(k) =~= clears);
    } else {
        assert(clears.take(k + 1).drop_last() =~= clears.take(k));
        lemma_clears_scope_err_persists(mode, repetition, clears, seen, k + 1);
    }
}

fn sample_target_exec(proof: &BuildProof, builds: &Vec<CacheBuild>, s: &BuildSample) -> (r: Result<
    (u64, ClearTarget, bool),
    ReceiptError,
>)
    ensures
        r == sample_target(*proof, builds@, *s),
{
    if str_eq(s.mode.as_str(), "ib-cold") {
        return Ok(
            (
                s.started_at_ms,
                ClearTarget::Sample { mode: copy_string(&s.mode), repetition: s.repetition },
                false,
            ),
        );
    }
    if !str_eq(s.mode.as_str(), "ib-parent-warm") {
        return Err(ReceiptError::UnknownMode { mode: copy_string(&s.mode) });
    }
    match &s.parent_seed {
        None => Err(ReceiptError::NoParentSeed { mode: copy_string(&s.mode), repetition: s.repetition }),
        Some(seed) => {
            if seed.source_revision != proof.parent_revision {
                return Err(
                    ReceiptError::SeedWrongRevision {
                        mode: copy_string(&s.mode),
                        repetition: s.repetition,
                        built: copy_string(&seed.source_revision),
                        expected: copy_string(&proof.parent_revision),
                    },
                );
            }
            if seed.started_at_ms >= s.started_at_ms {
                return Err(
                    ReceiptError::SeedNotBefore { mode: copy_string(&s.mode), repetition: s.repetition },
                );
            }
            if seed.remote_tasks == 0 {
                return Err(
                    ReceiptError::SeedNoRemoteTasks {
                        mode: copy_string(&s.mode),
                        repetition: s.repetition,
                    },
                );
            }
            if seed.cache_hits != 0 {
                return Err(
                    ReceiptError::SeedCacheHits {
                        mode: copy_string(&s.mode),
                        repetition: s.repetition,
                        hits: seed.cache_hits,
                    },
                );
            }
            if seed.cache_misses == 0 {
                return Err(
                    ReceiptError::SeedNoMisses { mode: copy_string(&s.mode), repetition: s.repetition },
                );
            }
            match intervening_build(builds.as_slice(), seed.started_at_ms, s.started_at_ms) {
                Some(between) => Err(
                    ReceiptError::InterveningAfterSeed {
                        mode: copy_string(&s.mode),
                        repetition: s.repetition,
                        between: copy_label(&between.label),
                    },
                ),
                None => Ok(
                    (
                        seed.started_at_ms,
                        ClearTarget::SeedFor { mode: copy_string(&s.mode), repetition: s.repetition },
                        true,
                    ),
                ),
            }
        },
    }
}

fn clear_check_exec(
    builds: &Vec<CacheBuild>,
    s: &BuildSample,
    target_ms: u64,
    target: &ClearTarget,
) -> (r: Result<(), ReceiptError>)
    ensures
        r == clear_check(builds@, *s, target_ms, *target),
{
    match effective_clear(s.cache_clears.as_slice(), target_ms) {
        None => Err(ReceiptError::NoClearBefore { target: copy_target(target) }),
        Some(clear) => {
            match check_clear_usable(clear, target) {
                Err(e) => Err(e),
                Ok(()) => {
                    match intervening_build(builds.as_slice(), clear.completed_at_ms, target_ms) {
                        Some(between) => Err(
                            ReceiptError::InterveningAfterClear {
                                target: copy_target(target),
                                between: copy_label(&between.label),
                            },
                        ),
                        None => Ok(()),
                    }
                },
            }
        },
    }
}

proof fn lemma_chain_fold_err_persists(
    proof: BuildProof,
    builds: Seq<CacheBuild>,
    samples: Seq<BuildSample>,
    k: int,
)
    requires
        0 <= k <= samples.len(),
        chain_fold(proof, builds, samples.take(k)) is Err,
    ensures
        chain_fold(proof, builds, samples) == chain_fold(proof, builds, samples.take(k)),
    decreases samples.len() - k,
{
    if k == samples.len() {
        assert(samples.take(k) =~= samples);
    } else {
        assert(samples.take(k + 1).drop_last() =~= samples.take(k));
        lemma_chain_fold_err_persists(proof, builds, samples, k + 1);
    }
}

/// Verify, from records only, that every Incredibuild sample ran against the
/// cache state it claims.
pub fn verify_cache_chain(proof: &BuildProof) -> (r: Result<CacheEvidence, ReceiptError>)
    ensures
        match cache_chain_result(*proof) {
            Ok((scope, clears, warm_seeds)) => r matches Ok(ev) && ev.scope == scope && ev.clears
                == clears && ev.warm_seeds == warm_seeds,
            Err(e) => r == Err::<CacheEvidence, ReceiptError>(e),
        },
{
    let builds = collect_cache_builds(&proof.samples);
    match check_distinct_starts(&builds) {
        Err(e) => {
            return Err(e);
        },
        Ok(()) => {},
    }
    let samples = &proof.samples;
    let mut scope: Option<CacheScope> = None;
    let mut clears: u128 = 0;
    let mut warm_seeds: usize = 0;
    let mut i: usize = 0;
    while i < samples.len()
        invariant
            i <= samples@.len(),
            samples@ == proof.samples@,
            builds@ == cache_builds(proof.samples@),
            distinct_starts_result(builds@) == Ok::<(), ReceiptError>(()),
            chain_fold(*proof, builds@, samples@.take(i as int)) == Ok::<ChainTally, ReceiptError>(
                ChainTally { scope, clears: clears as nat, warm_seeds: warm_seeds as nat },
            ),
            clears <= i * 0xffff_ffff_ffff_ffffu128,
            warm_seeds <= i,
        decreases samples@.len() - i,
    {
        assert(samples@.take(i + 1).drop_last() =~= samples@.take(i as int));
        assert(samples@.take(i + 1).last() == samples@[i as int]);
        let s = &samples[i];
        if !str_eq(s.mode.as_str(), "native") {
            if s.cache_clears.len() == 0 {
                proof {
                    lemma_chain_fold_err_persists(*proof, builds@, samples@, i + 1);
                }
                return Err(ReceiptError::NoClear { mode: copy_string(&s.mode), repetition: s.repetition });
            }
            let sc = match clears_scope_exec(s, scope) {
                Err(e) => {
                    proof {
                        lemma_chain_fold_err_persists(*proof, builds@, samples@, i + 1);
                    }
                    return Err(e);
                },
                Ok(sc) => sc,
            };
            let (target_ms, target, warm) = match sample_target_exec(proof, &builds, s) {
                Err(e) => {
                    proof {
                        lemma_chain_fold_err_persists(*proof, builds@, samples@, i + 1);
                    }
                    return Err(e);
                },
                Ok(t) => t,
            };
            match clear_check_exec(&builds, s, target_ms, &target) {
                Err(e) => {
                    proof {
                        lemma_chain_fold_err_persists(*proof, builds@, samples@, i + 1);
                    }
                    return Err(e);
                },
                Ok(()) => {},
            }
            assert(s.cache_clears@.len() <= 0xffff_ffff_ffff_ffffu128);
            assert(clears + s.cache_clears.len() as u128 <= (i + 1) * 0xffff_ffff_ffff_ffffu128) by (nonlinear_arith)
                requires
                    clears <= i * 0xffff_ffff_ffff_ffffu128,
                    s.cache_clears@.len() <= 0xffff_ffff_ffff_ffffu128,
            ;
            clears = clears + s.cache_clears.len() as u128;
            scope = sc;
            if warm {
                warm_seeds = warm_seeds + 1;
            }
        }
        i = i + 1;
    }
    assert(samples@.take(samples@.len() as int) =~= samples@);
    let scope = match scope {
        Some(sc) => sc,
        None => CacheScope::Unknown,
    };
    match scope {
        CacheScope::LocalUser => {},
        _ => {
            return Err(ReceiptError::ScopeNotLocal { scope });
        },
    }
    Ok(CacheEvidence { scope, clears, warm_seeds })
}

// ---------------------------------------------------------------------
// Wall-time statistics
// ---------------------------------------------------------------------

/// Median, minimum and maximum wall time of a mode's samples. The median is
/// kept doubled, so that the mean of the two middle samples of an even
/// count stays exact: the median is `median_twice_ms / 2`.
#[derive(Debug, Clone, Copy, PartialEq, Eq, Structural)]
pub struct ModeStats {
    pub median_twice_ms: u128,
    pub min_ms: u64,
    pub max_ms: u64,
}

pub open spec fn sorted_u64(t: Seq<u64>) -> bool {
    forall|i: int, j: int| 0 <= i <= j < t.len() ==> #[trigger] t[i] <= #[trigger] t[j]
}

/// The statistics of a non-empty sorted sequence of wall times.
pub open spec fn stats_of_sorted(t: Seq<u64>) -> ModeStats {
    let m = (t.len() / 2) as int;
    ModeStats {
        median_twice_ms: if t.len() % 2 == 0 {
            (t[m - 1] + t[m]) as u128
        } else {
            (2 * t[m]) as u128
        },
        min_ms: t[0],
        max_ms: t[t.len() - 1],
    }
}

/// `st` are the statistics of the wall times `ws`: those of `ws` sorted.
pub open spec fn is_mode_stats(ws: Seq<u64>, st: ModeStats) -> bool {
    exists|t: Seq<u64>|
        sorted_u64(t) && t.to_multiset() == ws.to_multiset() && st == stats_of_sorted(t)
}

fn sort_walls(ws: &[u64]) -> (t: Vec<u64>)
    ensures
        sorted_u64(t@),
        t@.to_multiset() == ws@.to_multiset(),
{
    broadcast use vstd::seq_lib::group_to_multiset_ensures;

    let mut t: Vec<u64> = Vec::new();
    let mut i: usize = 0;
    while i < ws.len()
        invariant
            i <= ws@.len(),
            sorted_u64(t@),
            t@.to_multiset() == ws@.take(i as int).to_multiset(),
        decreases ws@.len() - i,
    {
        let x = ws[i];
        let mut pos: usize = 0;
        while pos < t.len() && t[pos] <= x
            invariant
                pos <= t@.len(),
                forall|k: int| 0 <= k < pos ==> #[trigger] t@[k] <= x,
            decreases t@.len() - pos,
        {
            pos = pos + 1;
        }
        let ghost old_t = t@;
        t.insert(pos, x);
        assert(t@ == old_t.insert(pos as int, x));
        assert(ws@.take(i + 1) =~= ws@.take(i as int).push(x));
        proof {
            vstd::seq_lib::to_multiset_insert(old_t, pos as int, x);
            vstd::seq_lib::to_multiset_build(ws@.take(i as int), x);
        }
        assert(sorted_u64(t@)) by {
            assert forall|a: int, b: int| 0 <= a <= b < t@.len() implies #[trigger] t@[a]
                <= #[trigger] t@[b] by {
                if a < pos && b < pos {
                    assert(t@[a] == old_t[a] && t@[b] == old_t[b]);
                } else if a < pos && b == pos {
                    assert(t@[a] == old_t[a]);
                } else if a < pos && b > pos {
                    assert(t@[a] == old_t[a] && t@[b] == old_t[b - 1]);
                } else if a == pos && b == pos {
                } else if a == pos && b > pos {
                    assert(t@[b] == old_t[b - 1]);
                    assert(old_t[pos as int] > x);
                    assert(old_t[pos as int] <= old_t[b - 1]);
                } else {
                    assert(t@[a] == old_t[a - 1] && t@[b] == old_t[b - 1]);
                }
            }
        }
        i = i + 1;
    }
    assert(ws@.take(ws@.len() as int) =~= ws@);
    t
}

/// The wall-time statistics of a mode's samples.
pub fn mode_stats(walls: &[u64]) -> (st: ModeStats)
    requires
        walls@.len() > 0,
    ensures
        is_mode_stats(walls@, st),
{
    broadcast use vstd::seq_lib::group_to_multiset_ensures;

    let t = sort_walls(walls);
    assert(t@.len() == walls@.len()) by {
        assert(t@.to_multiset().len() == walls@.to_multiset().len());
    }
    let n = t.len();
    let m = n / 2;
    let median_twice_ms: u128 = if n % 2 == 0 {
        t[m - 1] as u128 + t[m] as u128
    } else {
        2 * (t[m] as u128)
    };
    let st = ModeStats { median_twice_ms, min_ms: t[0], max_ms: t[n - 1] };
    assert(st == stats_of_sorted(t@));
    st
}

/// Two sorted orders of the same wall times are the same sequence, so the
/// statistics of a mode are determined by its wall times alone.
pub proof fn law_mode_stats_determined(ws: Seq<u64>, a: ModeStats, b: ModeStats)
    requires
        is_mode_stats(ws, a),
        is_mode_stats(ws, b),
    ensures
        a == b,
{
    let ta = choose|t: Seq<u64>|
        sorted_u64(t) && t.to_multiset() == ws.to_multiset() && a == stats_of_sorted(t);
    let tb = choose|t: Seq<u64>|
        sorted_u64(t) && t.to_multiset() == ws.to_multiset() && b == stats_of_sorted(t);
    let leq = |x: u64, y: u64| x <= y;
    assert(vstd::relations::total_ordering(leq));
    assert(vstd::relations::sorted_by(ta, leq)) by {
        assert forall|i: int, j: int| 0 <= i < j < ta.len() implies leq(ta[i], ta[j]) by {
            assert(ta[i] <= ta[j]);
        }
    }
    assert(vstd::relations::sorted_by(tb, leq)) by {
        assert forall|i: int, j: int| 0 <= i < j < tb.len() implies leq(tb[i], tb[j]) by {
            assert(tb[i] <= tb[j]);
        }
    }
    vstd::seq_lib::lemma_sorted_unique(ta, tb, leq);
}

// ---------------------------------------------------------------------
// The receipt as a whole
// ---------------------------------------------------------------------

/// `x <= 0.0` for the IEEE-754 double whose bits are `bits`: true for both
/// zeros and for every negative number down to negative infinity, false
/// for positive numbers and for every NaN.
pub open spec fn f64_bits_le_zero(bits: u64) -> bool {
    bits == 0 || (0x8000_0000_0000_0000u64 <= bits && bits <= 0xfff0_0000_0000_0000u64)
}

pub open spec fn is_known_mode(s: BuildSample) -> bool {
    is_mode(s, "native"@) || is_mode(s, "ib-cold"@) || is_mode(s, "ib-parent-warm"@)
}

pub open spec fn unwrap_or_zero(o: Option<u64>) -> u64 {
    match o {
        Some(v) => v,
        None => 0,
    }
}

/// The per-sample record checks, in the order they are made.
pub open spec fn sample_record_check(proof: BuildProof, s: BuildSample) -> Result<(), ReceiptError> {
    if !is_known_mode(s) {
        Err(ReceiptError::UnknownMode { mode: s.mode })
    } else if s.wall_ms == 0 || s.build_caption@.len() == 0 {
        Err(ReceiptError::NoWallTimeOrCaption { mode: s.mode, repetition: s.repetition })
    } else if s.started_at_ms == 0 {
        Err(ReceiptError::NoStartTime { mode: s.mode, repetition: s.repetition })
    } else if s.source_revision@ != proof.candidate_revision@ {
        Err(
            ReceiptError::WrongRevision {
                mode: s.mode,
                repetition: s.repetition,
                built: s.source_revision,
                expected: proof.candidate_revision,
            },
        )
    } else if is_mode(s, "native"@) && (s.remote_tasks is Some || s.remote_core_time_bits is Some
        || s.cache_hits is Some || s.parent_seed is Some || s.cache_clears@.len() != 0) {
        Err(ReceiptError::NativeTelemetry { repetition: s.repetition })
    } else if !is_mode(s, "native"@) && unwrap_or_zero(s.remote_tasks) == 0 {
        Err(ReceiptError::NoRemoteTasks { mode: s.mode, repetition: s.repetition })
    } else if !is_mode(s, "native"@) && f64_bits_le_zero(unwrap_or_zero(s.remote_core_time_bits)) {
        Err(ReceiptError::NoCoreTime { mode: s.mode, repetition: s.repetition })
    } else if !is_mode(s, "native"@) && (s.local_tasks is None || s.cache_misses is None) {
        Err(ReceiptError::IncompleteTelemetry { mode: s.mode, repetition: s.repetition })
    } else if is_mode(s, "ib-cold"@) && s.cache_hits != Some(0u64) {
        Err(ReceiptError::ColdNotEmpty { repetition: s.repetition, hits: s.cache_hits })
    } else if is_mode(s, "ib-parent-warm"@) && unwrap_or_zero(s.cache_hits) == 0 {
        Err(ReceiptError::WarmNoHits { repetition: s.repetition })
    } else {
        Ok(())
    }
}

/// The first failing record check over a prefix of the samples.
pub open spec fn records_fold(proof: BuildProof, samples: Seq<BuildSample>) -> Result<(), ReceiptError>
    decreases samples.len(),
{
    if samples.len() == 0 {
        Ok(())
    } else {
        match records_fold(proof, samples.drop_last()) {
            Err(e) => Err(e),
            Ok(_) => sample_record_check(proof, samples.last()),
        }
    }
}

/// The samples of one mode, in receipt order.
pub open spec fn mode_samples(samples: Seq<BuildSample>, mode: Seq<char>) -> Seq<BuildSample>
    decreases samples.len(),
{
    if samples.len() == 0 {
        seq![]
    } else if is_mode(samples.last(), mode) {
        mode_samples(samples.drop_last(), mode).push(samples.last())
    } else {
        mode_samples(samples.drop_last(), mode)
    }
}

pub open spec fn walls_of(samples: Seq<BuildSample>) -> Seq<u64> {
    Seq::new(samples.len(), |i: int| samples[i].wall_ms)
}

pub open spec fn repetitions_distinct(samples: Seq<BuildSample>) -> bool {
    forall|i: int, j: int|
        0 <= i < j < samples.len() ==> #[trigger] samples[i].repetition
            != #[trigger] samples[j].repetition
}

/// A mode needs at least `min_samples` samples with distinct repetition
/// numbers.
pub open spec fn mode_count_check(proof: BuildProof, mode: &'static str, min_samples: usize) -> Result<
    (),
    ReceiptError,
> {
    let ms = mode_samples(proof.samples@, mode@);
    if ms.len() == 0 {
        Err(ReceiptError::MissingMode { mode })
    } else if ms.len() < min_samples {
        Err(ReceiptError::TooFewSamples { mode, count: ms.len() as usize, min_samples })
    } else if !repetitions_distinct(ms) {
        Err(ReceiptError::DuplicateRepetitions { mode })
    } else {
        Ok(())
    }
}

/// Every check of a receipt before its cache chain, in order.
pub open spec fn receipt_checks(proof: BuildProof, min_samples: usize) -> Result<(), ReceiptError> {
    if proof.schema_version != BUILD_PROOF_SCHEMA_VERSION {
        if proof.schema_version == 1 {
            Err(ReceiptError::SchemaOne)
        } else {
            Err(ReceiptError::UnsupportedSchema { version: proof.schema_version })
        }
    } else if !crate::commands::identifier_ok(proof.run_id@) {
        Err(ReceiptError::BadRunId)
    } else if proof.candidate_revision@.len() == 0 || proof.parent_revision@.len() == 0 {
        Err(ReceiptError::MissingRevisions)
    } else if proof.candidate_revision@ == proof.parent_revision@ {
        Err(ReceiptError::SameRevisions)
    } else {
        match records_fold(proof, proof.samples@) {
            Err(e) => Err(e),
            Ok(_) => match mode_count_check(proof, "native", min_samples) {
                Err(e) => Err(e),
                Ok(_) => match mode_count_check(proof, "ib-cold", min_samples) {
                    Err(e) => Err(e),
                    Ok(_) => mode_count_check(proof, "ib-parent-warm", min_samples),
                },
            },
        }
    }
}

/// A validated receipt: statistics per mode and the cache evidence.
#[derive(Debug, Clone)]
pub struct ProofSummary {
    pub native: ModeStats,
    pub ib_cold: ModeStats,
    pub ib_parent_warm: ModeStats,
    pub cache: CacheEvidence,
}

fn f64_bits_le_zero_exec(bits: u64) -> (r: bool)
    ensures
        r == f64_bits_le_zero(bits),
{
    bits == 0 || (0x8000_0000_0000_0000u64 <= bits && bits <= 0xfff0_0000_0000_0000u64)
}

fn unwrap_or_zero_exec(o: Option<u64>) -> (v: u64)
    ensures
        v == unwrap_or_zero(o),
{
    match o {
        Some(v) => v,
        None => 0,
    }
}

fn sample_record_check_exec(proof: &BuildProof, s: &BuildSample) -> (r: Result<(), ReceiptError>)
    ensures
        r == sample_record_check(*proof, *s),
{
    let native = str_eq(s.mode.as_str(), "native");
    let cold = str_eq(s.mode.as_str(), "ib-cold");
    let warm = str_eq(s.mode.as_str(), "ib-parent-warm");
    if !(native || cold || warm) {
        return Err(ReceiptError::UnknownMode { mode: copy_string(&s.mode) });
    }
    if s.wall_ms == 0 || s.build_caption.as_str().is_empty() {
        return Err(
            ReceiptError::NoWallTimeOrCaption { mode: copy_string(&s.mode), repetition: s.repetition },
        );
    }
    if s.started_at_ms == 0 {
        return Err(ReceiptError::NoStartTime { mode: copy_string(&s.mode), repetition: s.repetition });
    }
    if s.source_revision != proof.candidate_revision {
        return Err(
            ReceiptError::WrongRevision {
                mode: copy_string(&s.mode),
                repetition: s.repetition,
                built: copy_string(&s.source_revision),
                expected: copy_string(&proof.candidate_revision),
            },
        );
    }
    if native {
        if s.remote_tasks.is_some() || s.remote_core_time_bits.is_some() || s.cache_hits.is_some()
            || s.parent_seed.is_some() || s.cache_clears.len() != 0 {
            return Err(ReceiptError::NativeTelemetry { repetition: s.repetition });
        }
    } else {
        if unwrap_or_zero_exec(s.remote_tasks) == 0 {
            return Err(
                ReceiptError::NoRemoteTasks { mode: copy_string(&s.mode), repetition: s.repetition },
            );
        }
        if f64_bits_le_zero_exec(unwrap_or_zero_exec(s.remote_core_time_bits)) {
            return Err(ReceiptError::NoCoreTime { mode: copy_string(&s.mode), repetition: s.repetition });
        }
        if s.local_tasks.is_none() || s.cache_misses.is_none() {
            return Err(
                ReceiptError::IncompleteTelemetry {
                    mode: copy_string(&s.mode),
                    repetition: s.repetition,
                },
            );
        }
    }
    if cold {
        let empty = match s.cache_hits {
            Some(h) => h == 0,
            None => false,
        };
        if !empty {
            return Err(ReceiptError::ColdNotEmpty { repetition: s.repetition, hits: s.cache_hits });
        }
    }
    if warm && unwrap_or_zero_exec(s.cache_hits) == 0 {
        return Err(ReceiptError::WarmNoHits { repetition: s.repetition });
    }
    Ok(())
}

proof fn lemma_records_fold_err_persists(proof: BuildProof, samples: Seq<BuildSample>, k: int)
    requires
        0 <= k <= samples.len(),
        records_fold(proof, samples.take(k)) is Err,
    ensures
        records_fold(proof, samples) == records_fold(proof, samples.take(k)),
    decreases samples.len() - k,
{
    if k == samples.len() {
        assert(samples.take(k) =~= samples);
    } else {
        assert(samples.take(k + 1).drop_last() =~= samples.take(k));
        lemma_records_fold_err_persists(proof, samples, k + 1);
    }
}

fn check_records(proof: &BuildProof) -> (r: Result<(), ReceiptError>)
    ensures
        r == records_fold(*proof, proof.samples@),
{
    let samples = &proof.samples;
    let mut i: usize = 0;
    while i < samples.len()
        invariant
            i <= samples@.len(),
            samples@ == proof.samples@,
            records_fold(*proof, samples@.take(i as int)) == Ok::<(), ReceiptError>(()),
        decreases samples@.len() - i,
    {
        assert(samples@.take(i + 1).drop_last() =~= samples@.take(i as int));
        assert(samples@.take(i + 1).last() == samples@[i as int]);
        match sample_record_check_exec(proof, &samples[i]) {
            Err(e) => {
                proof {
                    lemma_records_fold_err_persists(*proof, samples@, i + 1);
                }
                return Err(e);
            },
            Ok(()) => {},
        }
        i = i + 1;
    }
    assert(samples@.take(samples@.len() as int) =~= samples@);
    Ok(())
}

/// The wall times and repetitions of one mode's samples.
fn collect_mode(samples: &Vec<BuildSample>, mode: &str) -> (r: (Vec<u64>, Vec<usize>))
    ensures
        r.0@ == walls_of(mode_samples(samples@, mode@)),
        r.1@.len() == mode_samples(samples@, mode@).len(),
        forall|k: int|
            0 <= k < r.1@.len() ==> r.1@[k] == #[trigger] mode_samples(samples@, mode@)[k].repetition,
{
    let mut walls: Vec<u64> = Vec::new();
    let mut reps: Vec<usize> = Vec::new();
    let mut i: usize = 0;
    while i < samples.len()
        invariant
            i <= samples@.len(),
            walls@ == walls_of(mode_samples(samples@.take(i as int), mode@)),
            reps@.len() == mode_samples(samples@.take(i as int), mode@).len(),
            forall|k: int|
                0 <= k < reps@.len() ==> reps@[k] == #[trigger] mode_samples(
                    samples@.take(i as int),
                    mode@,
                )[k].repetition,
        decreases samples@.len() - i,
    {
        assert(samples@.take(i + 1).drop_last() =~= samples@.take(i as int));
        assert(samples@.take(i + 1).last() == samples@[i as int]);
        let ghost before = mode_samples(samples@.take(i as int), mode@);
        if str_eq(samples[i].mode.as_str(), mode) {
            walls.push(samples[i].wall_ms);
            reps.push(samples[i].repetition);
            assert(mode_samples(samples@.take(i + 1), mode@) == before.push(samples@[i as int]));
            assert(walls@ =~= walls_of(before.push(samples@[i as int])));
        }
        i = i + 1;
    }
    assert(samples@.take(samples@.len() as int) =~= samples@);
    (walls, reps)
}

fn reps_distinct(reps: &Vec<usize>) -> (r: bool)
    ensures
        r == (forall|i: int, j: int|
            0 <= i < j < reps@.len() ==> #[trigger] reps@[i] != #[trigger] reps@[j]),
{
    let mut j: usize = 0;
    while j < reps.len()
        invariant
            j <= reps@.len(),
            forall|a: int, b: int| 0 <= a < b < j ==> #[trigger] reps@[a] != #[trigger] reps@[b],
        decreases reps@.len() - j,
    {
        let mut i: usize = 0;
        while i < j
            invariant
                i <= j < reps@.len(),
                forall|a: int| 0 <= a < i ==> #[trigger] reps@[a] != reps@[j as int],
            decreases j - i,
        {
            if reps[i] == reps[j] {
                return false;
            }
            i = i + 1;
        }
        j = j + 1;
    }
    true
}

fn check_mode(proof: &BuildProof, mode: &'static str, min_samples: usize) -> (r: Result<
    ModeStats,
    ReceiptError,
>)
    ensures
        match mode_count_check(*proof, mode, min_samples) {
            Err(e) => r == Err::<ModeStats, ReceiptError>(e),
            Ok(_) => r matches Ok(st) && is_mode_stats(
                walls_of(mode_samples(proof.samples@, mode@)),
                st,
            ),
        },
{
    let (walls, reps) = collect_mode(&proof.samples, mode);
    let ghost ms = mode_samples(proof.samples@, mode@);
    if walls.len() == 0 {
        return Err(ReceiptError::MissingMode { mode });
    }
    if walls.len() < min_samples {
        return Err(ReceiptError::TooFewSamples { mode, count: walls.len(), min_samples });
    }
    let distinct = reps_distinct(&reps);
    assert(distinct == repetitions_distinct(ms)) by {
        if distinct {
            assert forall|i: int, j: int| 0 <= i < j < ms.len() implies #[trigger] ms[i].repetition
                != #[trigger] ms[j].repetition by {
                assert(reps@[i] == ms[i].repetition && reps@[j] == ms[j].repetition);
            }
        } else {
            let (i, j) = choose|i: int, j: int|
                0 <= i < j < reps@.len() && #[trigger] reps@[i] == #[trigger] reps@[j];
            assert(reps@[i] == ms[i].repetition && reps@[j] == ms[j].repetition);
        }
    }
    if !distinct {
        return Err(ReceiptError::DuplicateRepetitions { mode });
    }
    Ok(mode_stats(walls.as_slice()))
}

/// Validate a benchmark receipt and summarize it.
pub fn validate_build_proof(proof: &BuildProof, min_samples: usize) -> (r: Result<
    ProofSummary,
    ReceiptError,
>)
    ensures
        match receipt_checks(*proof, min_samples) {
            Err(e) => r == Err::<ProofSummary, ReceiptError>(e),
            Ok(_) => match cache_chain_result(*proof) {
                Err(e) => r == Err::<ProofSummary, ReceiptError>(e),
                Ok((scope, clears, warm_seeds)) => r matches Ok(sum) && {
                    &&& is_mode_stats(walls_of(mode_samples(proof.samples@, "native"@)), sum.native)
                    &&& is_mode_stats(walls_of(mode_samples(proof.samples@, "ib-cold"@)), sum.ib_cold)
                    &&& is_mode_stats(
                        walls_of(mode_samples(proof.samples@, "ib-parent-warm"@)),
                        sum.ib_parent_warm,
                    )
                    &&& sum.cache.scope == scope
                    &&& sum.cache.clears == clears
                    &&& sum.cache.warm_seeds == warm_seeds
                },
            },
        },
{
    if proof.schema_version != BUILD_PROOF_SCHEMA_VERSION {
        if proof.schema_version == 1 {
            return Err(ReceiptError::SchemaOne);
        }
        return Err(ReceiptError::UnsupportedSchema { version: proof.schema_version });
    }
    match crate::commands::parse_identifier(proof.run_id.as_str()) {
        Err(_) => {
            return Err(ReceiptError::BadRunId);
        },
        Ok(_) => {},
    }
    if proof.candidate_revision.as_str().is_empty() || proof.parent_revision.as_str().is_empty() {
        return Err(ReceiptError::MissingRevisions);
    }
    if proof.candidate_revision == proof.parent_revision {
        return Err(ReceiptError::SameRevisions);
    }
    match check_records(proof) {
        Err(e) => {
            return Err(e);
        },
        Ok(()) => {},
    }
    let native = match check_mode(proof, "native", min_samples) {
        Err(e) => {
            return Err(e);
        },
        Ok(st) => st,
    };
    let ib_cold = match check_mode(proof, "ib-cold", min_samples) {
        Err(e) => {
            return Err(e);
        },
        Ok(st) => st,
    };
    let ib_parent_warm = match check_mode(proof, "ib-parent-warm", min_samples) {
        Err(e) => {
            return Err(e);
        },
        Ok(st) => st,
    };
    let cache = match verify_cache_chain(proof) {
        Err(e) => {
            return Err(e);
        },
        Ok(c) => c,
    };
    Ok(ProofSummary { native, ib_cold, ib_parent_warm, cache })
}

// ---------------------------------------------------------------------
// What an accepted receipt guarantees
// ---------------------------------------------------------------------

/// A receipt `validate_build_proof` accepts.
pub open spec fn receipt_accepted(proof: BuildProof, min_samples: usize) -> bool {
    receipt_checks(proof, min_samples) is Ok && cache_chain_result(proof) is Ok
}

/// The instant at which an IB sample's cache had to be empty: a cold
/// sample's own start, or the start of a warm sample's parent seed.
pub open spec fn cache_target_ms(s: BuildSample) -> u64 {
    if is_mode(s, "ib-parent-warm"@) {
        match s.parent_seed {
            Some(seed) => seed.started_at_ms,
            None => s.started_at_ms,
        }
    } else {
        s.started_at_ms
    }
}

/// No cache-using build of the receipt started strictly between the two
/// instants.
pub open spec fn none_between(builds: Seq<CacheBuild>, after_ms: u64, before_ms: u64) -> bool {
    forall|m: int|
        0 <= m < builds.len() ==> !(after_ms < #[trigger] builds[m].started_at_ms
            && builds[m].started_at_ms < before_ms)
}

/// The cache handling an accepted IB sample shows: a transcribed clear,
/// finished before the build whose cache had to be empty, that exited 0,
/// acted on the local user's cache, kept its transcript and digest, with no
/// other cache-using build between it and that build; and for a warm
/// sample, a parent seed that built the parent revision before the measured
/// build, did remote work, found the cache empty and filled it, with no
/// other cache-using build in between.
pub open spec fn ib_sample_sound(proof: BuildProof, builds: Seq<CacheBuild>, s: BuildSample) -> bool {
    &&& s.cache_clears@.len() > 0
    &&& (forall|k: int|
        0 <= k < s.cache_clears@.len() ==> (#[trigger] s.cache_clears@[k]).scope
            == CacheScope::LocalUser)
    &&& exists|k: int|
        0 <= k < s.cache_clears@.len() && {
            let c = #[trigger] s.cache_clears@[k];
            &&& c.completed_at_ms <= cache_target_ms(s)
            &&& c.exit_code == 0
            &&& c.scope == CacheScope::LocalUser
            &&& digest_ok(c.transcript_sha256@)
            &&& c.transcript_path@.len() > 0
            &&& none_between(builds, c.completed_at_ms, cache_target_ms(s))
        }
    &&& is_mode(s, "ib-parent-warm"@) ==> (s.parent_seed matches Some(seed) && {
        &&& seed.source_revision@ == proof.parent_revision@
        &&& seed.started_at_ms < s.started_at_ms
        &&& seed.remote_tasks > 0
        &&& seed.cache_hits == 0
        &&& seed.cache_misses > 0
        &&& none_between(builds, seed.started_at_ms, s.started_at_ms)
    })
}

proof fn lemma_records_fold_ok(proof: BuildProof, samples: Seq<BuildSample>)
    requires
        records_fold(proof, samples) is Ok,
    ensures
        forall|i: int| 0 <= i < samples.len() ==> #[trigger] sample_record_check(proof, samples[i]) is Ok,
    decreases samples.len(),
{
    if samples.len() > 0 {
        lemma_records_fold_ok(proof, samples.drop_last());
        assert forall|i: int| 0 <= i < samples.len() implies #[trigger] sample_record_check(
            proof,
            samples[i],
        ) is Ok by {
            if i < samples.len() - 1 {
                assert(samples[i] == samples.drop_last()[i]);
            }
        }
    }
}

proof fn lemma_clears_scope_ok(
    mode: String,
    repetition: usize,
    clears: Seq<CacheClear>,
    seen: Option<CacheScope>,
)
    requires
        clears_scope(mode, repetition, clears, seen) is Ok,
    ensures
        ({
            let sc = clears_scope(mode, repetition, clears, seen)->Ok_0;
            &&& seen is Some ==> sc == seen
            &&& clears.len() > 0 ==> sc is Some
            &&& forall|k: int| 0 <= k < clears.len() ==> sc == Some((#[trigger] clears[k]).scope)
        }),
    decreases clears.len(),
{
    if clears.len() > 0 {
        lemma_clears_scope_ok(mode, repetition, clears.drop_last(), seen);
        let sc = clears_scope(mode, repetition, clears, seen)->Ok_0;
        assert forall|k: int| 0 <= k < clears.len() implies sc == Some((#[trigger] clears[k]).scope) by {
            if k < clears.len() - 1 {
                assert(clears[k] == clears.drop_last()[k]);
            }
        }
    }
}

/// Facts the cache-chain fold establishes over a prefix of the samples.
pub open spec fn chain_prefix_sound(
    proof: BuildProof,
    builds: Seq<CacheBuild>,
    samples: Seq<BuildSample>,
    t: ChainTally,
) -> bool {
    &&& forall|i: int|
        0 <= i < samples.len() && !is_mode(#[trigger] samples[i], "native"@) ==> {
            &&& samples[i].cache_clears@.len() > 0
            &&& sample_target(proof, builds, samples[i]) is Ok
            &&& clear_check(
                builds,
                samples[i],
                sample_target(proof, builds, samples[i])->Ok_0.0,
                sample_target(proof, builds, samples[i])->Ok_0.1,
            ) is Ok
            &&& t.scope is Some
            &&& forall|k: int|
                0 <= k < samples[i].cache_clears@.len() ==> t.scope == Some(
                    (#[trigger] samples[i].cache_clears@[k]).scope,
                )
        }
}

proof fn lemma_chain_fold_ok(proof: BuildProof, builds: Seq<CacheBuild>, samples: Seq<BuildSample>)
    requires
        chain_fold(proof, builds, samples) is Ok,
    ensures
        chain_prefix_sound(proof, builds, samples, chain_fold(proof, builds, samples)->Ok_0),
    decreases samples.len(),
{
    if samples.len() > 0 {
        let prefix = samples.drop_last();
        lemma_chain_fold_ok(proof, builds, prefix);
        let t0 = chain_fold(proof, builds, prefix)->Ok_0;
        let t = chain_fold(proof, builds, samples)->Ok_0;
        let s = samples.last();
        if !is_mode(s, "native"@) {
            lemma_clears_scope_ok(s.mode, s.repetition, s.cache_clears@, t0.scope);
        }
        assert forall|i: int|
            0 <= i < samples.len() && !is_mode(#[trigger] samples[i], "native"@) implies {
            &&& samples[i].cache_clears@.len() > 0
            &&& sample_target(proof, builds, samples[i]) is Ok
            &&& clear_check(
                builds,
                samples[i],
                sample_target(proof, builds, samples[i])->Ok_0.0,
                sample_target(proof, builds, samples[i])->Ok_0.1,
            ) is Ok
            &&& t.scope is Some
            &&& forall|k: int|
                0 <= k < samples[i].cache_clears@.len() ==> t.scope == Some(
                    (#[trigger] samples[i].cache_clears@[k]).scope,
                )
        } by {
            if i < samples.len() - 1 {
                assert(samples[i] == prefix[i]);
                assert(t0.scope is Some);
                assert(!is_mode(s, "native"@) ==> t.scope == t0.scope);
                assert(is_mode(s, "native"@) ==> t == t0);
            }
        }
    }
}

proof fn lemma_clear_check_sound(builds: Seq<CacheBuild>, s: BuildSample, target_ms: u64, target: ClearTarget)
    requires
        clear_check(builds, s, target_ms, target) is Ok,
    ensures
        exists|k: int|
            0 <= k < s.cache_clears@.len() && {
                let c = #[trigger] s.cache_clears@[k];
                &&& c.completed_at_ms <= target_ms
                &&& c.exit_code == 0
                &&& c.scope == CacheScope::LocalUser
                &&& digest_ok(c.transcript_sha256@)
                &&& c.transcript_path@.len() > 0
                &&& none_between(builds, c.completed_at_ms, target_ms)
            },
{
    lemma_latest_clear_prefix(s.cache_clears@, target_ms);
    let k = latest_clear(s.cache_clears@, target_ms)->Some_0;
    let c = s.cache_clears@[k];
    lemma_intervening_from(builds, c.completed_at_ms, target_ms, 0);
    assert(s.cache_clears@[k] == c);
}

/// What an accepted receipt guarantees, checked from its records alone:
/// every mode has at least `min_samples` samples with distinct repetition
/// numbers; every sample names a known mode, has a wall time, a caption and
/// a start time, and built the candidate revision; native samples carry no
/// Incredibuild telemetry and claim no cache clear; every IB sample has
/// remote tasks, positive remote core time, local-task and cache-miss
/// counters; cold samples hit no cache entry and warm samples hit some; no
/// two cache-using builds share a start time; and every IB sample's cache
/// handling is sound (`ib_sample_sound`).
pub proof fn law_accepted_receipt_is_consistent(proof: BuildProof, min_samples: usize)
    requires
        receipt_accepted(proof, min_samples),
    ensures
        proof.schema_version == BUILD_PROOF_SCHEMA_VERSION,
        crate::commands::identifier_ok(proof.run_id@),
        proof.candidate_revision@.len() > 0,
        proof.parent_revision@.len() > 0,
        proof.candidate_revision@ != proof.parent_revision@,
        forall|m: Seq<char>|
            m == "native"@ || m == "ib-cold"@ || m == "ib-parent-warm"@ ==> {
                &&& mode_samples(proof.samples@, m).len() > 0
                &&& mode_samples(proof.samples@, m).len() >= min_samples
                &&& repetitions_distinct(#[trigger] mode_samples(proof.samples@, m))
            },
        forall|i: int|
            0 <= i < proof.samples@.len() ==> {
                let s = #[trigger] proof.samples@[i];
                &&& is_known_mode(s)
                &&& s.wall_ms > 0
                &&& s.build_caption@.len() > 0
                &&& s.started_at_ms > 0
                &&& s.source_revision@ == proof.candidate_revision@
                &&& is_mode(s, "native"@) ==> s.remote_tasks is None && s.remote_core_time_bits is None
                    && s.cache_hits is None && s.parent_seed is None && s.cache_clears@.len() == 0
                &&& !is_mode(s, "native"@) ==> {
                    &&& s.remote_tasks matches Some(n) && n > 0
                    &&& s.remote_core_time_bits matches Some(b) && !f64_bits_le_zero(b)
                    &&& s.local_tasks is Some
                    &&& s.cache_misses is Some
                    &&& ib_sample_sound(proof, cache_builds(proof.samples@), s)
                }
                &&& is_mode(s, "ib-cold"@) ==> s.cache_hits == Some(0u64)
                &&& is_mode(s, "ib-parent-warm"@) ==> (s.cache_hits matches Some(h) && h > 0)
            },
        starts_distinct(cache_builds(proof.samples@)),
{
    let builds = cache_builds(proof.samples@);
    lemma_records_fold_ok(proof, proof.samples@);
    lemma_first_repeat_from(builds, 0);
    lemma_chain_fold_ok(proof, builds, proof.samples@);
    assert(mode_count_check(proof, "native", min_samples) is Ok);
    assert(mode_count_check(proof, "ib-cold", min_samples) is Ok);
    assert(mode_count_check(proof, "ib-parent-warm", min_samples) is Ok);
    let t = chain_fold(proof, builds, proof.samples@)->Ok_0;
    assert forall|i: int| 0 <= i < proof.samples@.len() && !is_mode(#[trigger] proof.samples@[i], "native"@)
        implies ib_sample_sound(proof, builds, proof.samples@[i]) by {
        let s = proof.samples@[i];
        reveal_strlit("ib-cold");
        reveal_strlit("ib-parent-warm");
        assert("ib-cold"@.len() == 7);
        assert("ib-cold"@ != "ib-parent-warm"@);
        assert(sample_target(proof, builds, s) is Ok);
        let target = sample_target(proof, builds, s)->Ok_0;
        assert(t.scope == Some(CacheScope::LocalUser));
        lemma_clear_check_sound(builds, s, target.0, target.1);
        if is_mode(s, "ib-parent-warm"@) {
            let seed = s.parent_seed->Some_0;
            lemma_intervening_from(builds, seed.started_at_ms, s.started_at_ms, 0);
            assert(target.0 == seed.started_at_ms);
        } else {
            assert(is_mode(s, "ib-cold"@));
            assert(target.0 == s.started_at_ms);
        }
        assert(target.0 == cache_target_ms(s));
    }
    assert forall|i: int| 0 <= i < proof.samples@.len() implies {
        let s = #[trigger] proof.samples@[i];
        &&& is_known_mode(s)
        &&& s.wall_ms > 0
        &&& s.build_caption@.len() > 0
        &&& s.started_at_ms > 0
        &&& s.source_revision@ == proof.candidate_revision@
        &&& is_mode(s, "native"@) ==> s.remote_tasks is None && s.remote_core_time_bits is None
            && s.cache_hits is None && s.parent_seed is None && s.cache_clears@.len() == 0
        &&& !is_mode(s, "native"@) ==> {
            &&& s.remote_tasks matches Some(n) && n > 0
            &&& s.remote_core_time_bits matches Some(b) && !f64_bits_le_zero(b)
            &&& s.local_tasks is Some
            &&& s.cache_misses is Some
            &&& ib_sample_sound(proof, cache_builds(proof.samples@), s)
        }
        &&& is_mode(s, "ib-cold"@) ==> s.cache_hits == Some(0u64)
        &&& is_mode(s, "ib-parent-warm"@) ==> (s.cache_hits matches Some(h) && h > 0)
    } by {
        let s = proof.samples@[i];
        assert(sample_record_check(proof, s) is Ok);
        if !is_mode(s, "native"@) {
            assert(f64_bits_le_zero(0));
        }
    }
}

// ---------------------------------------------------------------------
// Native samples and the cache chain
// ---------------------------------------------------------------------

/// Native samples do not use the Incredibuild cache: no cache-using build of
/// a receipt is a native sample.
pub proof fn law_native_samples_are_not_cache_builds(samples: Seq<BuildSample>, k: int)
    requires
        0 <= k < cache_builds(samples).len(),
    ensures
        cache_builds(samples)[k].label matches BuildLabel::Sample { mode, .. } ==> mode@
            != "native"@,
    decreases samples.len(),
{
    if samples.len() > 0 {
        let prefix = cache_builds(samples.drop_last());
        if k < prefix.len() {
            law_native_samples_are_not_cache_builds(samples.drop_last(), k);
            assert(cache_builds(samples)[k] == prefix[k]);
        } else {
            assert(cache_builds(samples)[k] == sample_builds(samples.last())[k - prefix.len()]);
        }
    }
}

/// Two receipts whose samples differ only in the start time of one native
/// sample.
pub open spec fn differ_in_native_start(p: BuildProof, q: BuildProof, i: int) -> bool {
    &&& q.schema_version == p.schema_version
    &&& q.run_id == p.run_id
    &&& q.candidate_revision == p.candidate_revision
    &&& q.parent_revision == p.parent_revision
    &&& 0 <= i < p.samples@.len()
    &&& is_mode(p.samples@[i], "native"@)
    &&& q.samples@.len() == p.samples@.len()
    &&& forall|j: int| 0 <= j < p.samples@.len() && j != i ==> q.samples@[j] == p.samples@[j]
    &&& q.samples@[i] == BuildSample { started_at_ms: q.samples@[i].started_at_ms, ..p.samples@[i] }
}

proof fn lemma_native_start_prefix(p: BuildProof, q: BuildProof, i: int, n: int)
    requires
        differ_in_native_start(p, q, i),
        0 <= n <= p.samples@.len(),
    ensures
        cache_builds(p.samples@.take(n)) == cache_builds(q.samples@.take(n)),
        forall|b: Seq<CacheBuild>|
            chain_fold(p, b, p.samples@.take(n)) == #[trigger] chain_fold(q, b, q.samples@.take(n)),
    decreases n,
{
    if n > 0 {
        lemma_native_start_prefix(p, q, i, n - 1);
        assert(p.samples@.take(n).drop_last() =~= p.samples@.take(n - 1));
        assert(q.samples@.take(n).drop_last() =~= q.samples@.take(n - 1));
        let a = p.samples@[n - 1];
        let c = q.samples@[n - 1];
        assert(p.samples@.take(n).last() == a);
        assert(q.samples@.take(n).last() == c);
        if n - 1 == i {
            assert(is_mode(c, "native"@));
            assert(sample_builds(a) =~= seq![]);
            assert(sample_builds(c) =~= seq![]);
        } else {
            assert(a == c);
        }
        assert forall|b: Seq<CacheBuild>|
            chain_fold(p, b, p.samples@.take(n)) == #[trigger] chain_fold(q, b, q.samples@.take(n)) by {
            assert(chain_fold(p, b, p.samples@.take(n - 1)) == chain_fold(q, b, q.samples@.take(n - 1)));
            match chain_fold(p, b, p.samples@.take(n - 1)) {
                Err(_) => {},
                Ok(t) => {
                    if n - 1 == i {
                    } else {
                        assert(sample_target(p, b, a) == sample_target(q, b, a));
                        assert(sample_chain(p, b, a, t) == sample_chain(q, b, c, t));
                    }
                },
            }
        }
    }
}

/// The start time of a native sample never changes whether a receipt's
/// cache chain is accepted, nor what it reports: native builds use no cache,
/// so they can neither break the ordering of cache-using builds nor come
/// between a clear and the build it prepared.
pub proof fn law_native_start_times_do_not_matter(p: BuildProof, q: BuildProof, i: int)
    requires
        differ_in_native_start(p, q, i),
    ensures
        cache_builds(p.samples@) == cache_builds(q.samples@),
        cache_chain_result(p) == cache_chain_result(q),
{
    lemma_native_start_prefix(p, q, i, p.samples@.len() as int);
    assert(p.samples@.take(p.samples@.len() as int) =~= p.samples@);
    assert(q.samples@.take(q.samples@.len() as int) =~= q.samples@);
    let b = cache_builds(p.samples@);
    assert(chain_fold(p, b, p.samples@) == chain_fold(q, b, q.samples@));
}

} // verus!
