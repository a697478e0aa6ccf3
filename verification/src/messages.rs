//! The text of every receipt, transcript and sample-request error, as the
//! operator reads it.

use vstd::prelude::*;
use crate::commands::identifier_error;
use crate::receipt::{scope_text, BuildLabel, CacheScope, ClearTarget, ReceiptError};
use crate::text::{decimal, push_char, push_decimal, push_str};

verus! {

// ---------------------------------------------------------------------
// Quoting
// ---------------------------------------------------------------------

/// What `{:?}` writes for a string slice: the text in double quotes, with
/// `\0 \t \r \n \\ \"` escaped, and every other character that std's
/// Unicode tables count as not printable or as extending a grapheme written
/// as `\u{..}`. Those tables take pages, so the result is named rather than
/// spelled out.
pub uninterp spec fn debug_quoted(s: Seq<char>) -> Seq<char>;

/// `<str as Debug>::fmt`, through `format!("{:?}", ..)`. Its contract names
/// the result and says nothing else of it: which characters are escaped is
/// decided by std's Unicode tables, not stated here.
#[verifier::external_body]
fn debug_quote(t: &str) -> (q: String)
    ensures
        q@ == debug_quoted(t@),
{
    format!("{:?}", t)
}

/// A string quoted in a message, as `{:?}` quotes it.
pub open spec fn quoted(s: Seq<char>) -> Seq<char> {
    debug_quoted(s)
}

/// Appends `t` quoted as `{:?}` quotes it.
pub fn push_quoted(s: &mut String, t: &str)
    ensures
        final(s)@ == old(s)@ + quoted(t@),
{
    let q = debug_quote(t);
    push_str(s, q.as_str());
}

// ---------------------------------------------------------------------
// Pieces
// ---------------------------------------------------------------------

/// `<mode> sample <repetition>`.
pub open spec fn sample_text(mode: Seq<char>, repetition: usize) -> Seq<char> {
    mode + " sample "@ + decimal(repetition as nat)
}

pub open spec fn label_text(l: BuildLabel) -> Seq<char> {
    match l {
        BuildLabel::Sample { mode, repetition } => sample_text(mode@, repetition),
        BuildLabel::ParentSeed { caption } => "parent seed "@ + caption@,
    }
}

pub open spec fn target_text(t: ClearTarget) -> Seq<char> {
    match t {
        ClearTarget::Sample { mode, repetition } => sample_text(mode@, repetition),
        ClearTarget::SeedFor { mode, repetition } => "parent seed for "@ + sample_text(
            mode@,
            repetition,
        ),
    }
}

pub open spec fn option_text(o: Option<u64>) -> Seq<char> {
    match o {
        Some(v) => "Some("@ + decimal(v as nat) + ")"@,
        None => "None"@,
    }
}

/// `[a, b, c]`.
pub open spec fn list_body(vs: Seq<u64>) -> Seq<char>
    decreases vs.len(),
{
    if vs.len() == 0 {
        seq![]
    } else if vs.len() == 1 {
        decimal(vs[0] as nat)
    } else {
        list_body(vs.drop_last()) + ", "@ + decimal(vs.last() as nat)
    }
}

pub open spec fn list_text(vs: Seq<u64>) -> Seq<char> {
    "["@ + list_body(vs) + "]"@
}

fn push_sample(s: &mut String, mode: &str, repetition: usize)
    ensures
        final(s)@ == old(s)@ + sample_text(mode@, repetition),
{
    let ghost start = s@;
    push_str(s, mode);
    push_str(s, " sample ");
    push_decimal(s, repetition as u128);
    assert(s@ =~= start + sample_text(mode@, repetition));
}

fn push_label(s: &mut String, l: &BuildLabel)
    ensures
        final(s)@ == old(s)@ + label_text(*l),
{
    let ghost start = s@;
    match l {
        BuildLabel::Sample { mode, repetition } => push_sample(s, mode.as_str(), *repetition),
        BuildLabel::ParentSeed { caption } => {
            push_str(s, "parent seed ");
            push_str(s, caption.as_str());
            assert(s@ =~= start + label_text(*l));
        },
    }
}

fn push_target(s: &mut String, t: &ClearTarget)
    ensures
        final(s)@ == old(s)@ + target_text(*t),
{
    let ghost start = s@;
    match t {
        ClearTarget::Sample { mode, repetition } => push_sample(s, mode.as_str(), *repetition),
        ClearTarget::SeedFor { mode, repetition } => {
            push_str(s, "parent seed for ");
            push_sample(s, mode.as_str(), *repetition);
            assert(s@ =~= start + target_text(*t));
        },
    }
}

fn push_option(s: &mut String, o: Option<u64>)
    ensures
        final(s)@ == old(s)@ + option_text(o),
{
    let ghost start = s@;
    match o {
        Some(v) => {
            push_str(s, "Some(");
            push_decimal(s, v as u128);
            push_str(s, ")");
            assert(s@ =~= start + option_text(o));
        },
        None => push_str(s, "None"),
    }
}

fn push_list(s: &mut String, vs: &Vec<u64>)
    ensures
        final(s)@ == old(s)@ + list_text(vs@),
{
    let ghost start = s@;
    push_str(s, "[");
    let mut i: usize = 0;
    while i < vs.len()
        invariant
            i <= vs@.len(),
            s@ == start + "["@ + list_body(vs@.take(i as int)),
        decreases vs@.len() - i,
    {
        let ghost before = s@;
        assert(vs@.take(i + 1).drop_last() =~= vs@.take(i as int));
        if i > 0 {
            push_str(s, ", ");
        }
        push_decimal(s, vs[i] as u128);
        i = i + 1;
        proof {
            if i == 1 {
                assert(list_body(vs@.take(0)) =~= seq![]);
                assert(vs@.take(1).len() == 1);
            }
            assert(s@ =~= start + "["@ + list_body(vs@.take(i as int)));
        }
    }
    assert(vs@.take(vs@.len() as int) =~= vs@);
    push_str(s, "]");
    assert(s@ =~= start + list_text(vs@));
}

// ---------------------------------------------------------------------
// Messages
// ---------------------------------------------------------------------

/// The message of every error.
pub open spec fn error_text(e: ReceiptError) -> Seq<char> {
    match e {
        ReceiptError::CounterAmbiguous { wanted, values } => "expected one unambiguous cache "@
            + wanted@ + " counter, found "@ + list_text(values@),
        ReceiptError::NoSeparator => "cache-clear transcript has no '--- transcript ---' separator"@,
        ReceiptError::NoMarker => "cache-clear transcript does not start with \"# swf-cache-clear v1\""@,
        ReceiptError::NonHeaderLine { line } => "cache-clear transcript has a non-header line "@
            + quoted(line@),
        ReceiptError::RepeatedHeader { key, count } => "cache-clear transcript repeats "@ + key@
            + " "@ + decimal(count as nat) + " times"@,
        ReceiptError::MissingHeader { key } => "cache-clear transcript has no "@ + key@,
        ReceiptError::ExitCodeNotInteger => "cache-clear exit_code is not an integer"@,
        ReceiptError::ClearFailed { argv, exit_code } => "cache clear "@ + quoted(argv@)
            + " exited "@ + signed_text(exit_code)
            + "; the cache state after it is unknown and swf-cli will not record it as cleared"@,
        ReceiptError::StartNotInteger => "cache-clear started_at_ms is not an unsigned integer"@,
        ReceiptError::CompletedNotInteger => "cache-clear completed_at_ms is not an unsigned integer"@,
        ReceiptError::NonsensicalTimeRange { argv } => "cache clear "@ + quoted(argv@)
            + " has a nonsensical time range"@,
        ReceiptError::ClearExited { target, argv, exit_code } => target_text(target)
            + ": cache clear "@ + quoted(argv@) + " exited "@ + signed_text(exit_code),
        ReceiptError::SharedScope { target, argv } => target_text(target) + ": cache clear "@
            + quoted(argv@)
            + " acted on a shared cache; this benchmark may only clear the invoking user's own cache"@,
        ReceiptError::UnknownScope { target, argv } => target_text(target) + ": cache clear "@
            + quoted(argv@)
            + " has an unrecognized scope, so the cache namespace it emptied is unknown"@,
        ReceiptError::NoDigest { target, argv } => target_text(target) + ": cache clear "@
            + quoted(argv@) + " has no retained transcript digest"@,
        ReceiptError::NoTranscript { target, argv } => target_text(target) + ": cache clear "@
            + quoted(argv@) + " has no retained transcript"@,
        ReceiptError::SameStartTime { first, second, start_ms } => label_text(first) + " and "@
            + label_text(second) + " report the same start time "@ + decimal(start_ms as nat)
            + "ms; cache ordering cannot be established"@,
        ReceiptError::NoClear { mode, repetition } => sample_text(mode@, repetition)
            + " records no cache clear, so the cache it built against is unknown"@,
        ReceiptError::ScopeDisagreement { mode, repetition, previous, current } => sample_text(
            mode@,
            repetition,
        ) + ": cache clears disagree about scope ("@ + scope_text(previous) + " vs "@ + scope_text(
            current,
        ) + ")"@,
        ReceiptError::SeedWrongRevision { mode, repetition, built, expected } => sample_text(
            mode@,
            repetition,
        ) + ": parent seed built "@ + built@ + ", expected parent "@ + expected@,
        ReceiptError::SeedNotBefore { mode, repetition } => sample_text(mode@, repetition)
            + ": parent seed did not start before the measured build"@,
        ReceiptError::SeedNoRemoteTasks { mode, repetition } => sample_text(mode@, repetition)
            + ": parent seed has no verified remote tasks"@,
        ReceiptError::SeedCacheHits { mode, repetition, hits } => sample_text(mode@, repetition)
            + ": parent seed reported "@ + decimal(hits as nat)
            + " cache hit(s), so it did not run against an emptied cache"@,
        ReceiptError::SeedNoMisses { mode, repetition } => sample_text(mode@, repetition)
            + ": parent seed populated no cache entries"@,
        ReceiptError::InterveningAfterSeed { mode, repetition, between } => sample_text(
            mode@,
            repetition,
        ) + ": "@ + label_text(between)
            + " ran between the parent seed and the measured build, so the warm cache cannot be attributed to the parent"@,
        ReceiptError::NoParentSeed { mode, repetition } => sample_text(mode@, repetition)
            + " records no parent seed, so its cache hits cannot be attributed to the parent revision"@,
        ReceiptError::UnknownMode { mode } => "unknown benchmark mode "@ + mode@,
        ReceiptError::NoClearBefore { target } => target_text(target)
            + ": every recorded cache clear finished after the build started"@,
        ReceiptError::InterveningAfterClear { target, between } => target_text(target) + ": "@
            + label_text(between)
            + " ran between the cache clear and this build, so the clear cannot be attributed to it"@,
        ReceiptError::ScopeNotLocal { scope } => "expected isolated local-user cache scope, observed "@
            + scope_text(scope),
        ReceiptError::SchemaOne => "build-proof schema 1 asserted its cache scope and cache-clearing procedure as literals that nothing observed; re-run scripts/robot-demo/ib-benchmark.sh to produce a schema 2 receipt"@,
        ReceiptError::UnsupportedSchema { version } => "unsupported build-proof schema "@
            + decimal(version as nat),
        ReceiptError::BadRunId => identifier_error(),
        ReceiptError::MissingRevisions => "candidate_revision and parent_revision are required"@,
        ReceiptError::SameRevisions => "candidate_revision and parent_revision must differ"@,
        ReceiptError::NoWallTimeOrCaption { mode, repetition } => "sample "@ + mode@ + " / "@
            + decimal(repetition as nat) + " has no wall time or caption"@,
        ReceiptError::NoStartTime { mode, repetition } => "sample "@ + mode@ + " / "@ + decimal(
            repetition as nat,
        ) + " has no recorded start time"@,
        ReceiptError::WrongRevision { mode, repetition, built, expected } => "sample "@ + mode@
            + " / "@ + decimal(repetition as nat) + " built "@ + built@ + ", expected candidate "@
            + expected@,
        ReceiptError::NativeTelemetry { repetition } => "native sample "@ + decimal(
            repetition as nat,
        ) + " contains IB-only telemetry"@,
        ReceiptError::NoRemoteTasks { mode, repetition } => sample_text(mode@, repetition)
            + " has no verified remote tasks"@,
        ReceiptError::NoCoreTime { mode, repetition } => sample_text(mode@, repetition)
            + " has no verified remote core time"@,
        ReceiptError::IncompleteTelemetry { mode, repetition } => sample_text(mode@, repetition)
            + " has incomplete IB telemetry"@,
        ReceiptError::ColdNotEmpty { repetition, hits } => "ib-cold sample "@ + decimal(
            repetition as nat,
        ) + " was not empty-cache (hits="@ + option_text(hits) + ")"@,
        ReceiptError::WarmNoHits { repetition } => "ib-parent-warm sample "@ + decimal(
            repetition as nat,
        ) + " has no verified cache hits"@,
        ReceiptError::MissingMode { mode } => "missing benchmark mode "@ + mode@,
        ReceiptError::TooFewSamples { mode, count, min_samples } => mode@ + " has "@ + decimal(
            count as nat,
        ) + " sample(s), require at least "@ + decimal(min_samples as nat),
        ReceiptError::DuplicateRepetitions { mode } => mode@
            + " contains duplicate repetition numbers"@,
        ReceiptError::NoStartedAt => "--started-at-ms is required and must be a real wall clock reading"@,
        ReceiptError::NativeWithTelemetry => "native samples must not contain IB telemetry"@,
        ReceiptError::NativeWithClear => "native samples do not use the Incredibuild cache and must not claim a clear"@,
        ReceiptError::IbWithoutClear { mode, repetition } => sample_text(mode@, repetition)
            + " requires at least one --cache-clear transcript; swf-cli will not record a cache state it did not observe"@,
        ReceiptError::WarmWithoutSeed { repetition } => "ib-parent-warm sample "@ + decimal(
            repetition as nat,
        ) + " requires the --parent-seed-* evidence"@,
        ReceiptError::ColdWithSeed { repetition } => "ib-cold sample "@ + decimal(
            repetition as nat,
        ) + " must not carry a parent seed"@,
        ReceiptError::MissingHistory => "IB sample requires --history"@,
        ReceiptError::MissingCache => "IB sample requires --cache"@,
        ReceiptError::SeedNoStart { caption } => "parent seed "@ + quoted(caption@)
            + " has no start time"@,
    }
}

/// The decimal rendering of a signed number.
pub open spec fn signed_text(v: i32) -> Seq<char> {
    if v < 0 {
        seq!['-'] + decimal((-(v as int)) as nat)
    } else {
        decimal(v as nat)
    }
}

fn push_signed(s: &mut String, v: i32)
    ensures
        final(s)@ == old(s)@ + signed_text(v),
{
    let ghost start = s@;
    if v < 0 {
        push_char(s, '-');
        let m: i64 = 0i64 - (v as i64);
        push_decimal(s, m as u128);
        assert(s@ =~= start + signed_text(v));
    } else {
        push_decimal(s, v as u128);
    }
}

impl ReceiptError {
    /// The error's message.
    pub fn message(&self) -> (m: String)
        ensures
            m@ == error_text(*self),
    {
        let mut s = String::new();
        let ghost start = s@;
        match self {
            ReceiptError::CounterAmbiguous { wanted, values } => {
                push_str(&mut s, "expected one unambiguous cache ");
                push_str(&mut s, wanted);
                push_str(&mut s, " counter, found ");
                push_list(&mut s, values);
            },
            ReceiptError::NoSeparator => {
                push_str(&mut s, "cache-clear transcript has no '--- transcript ---' separator");
            },
            ReceiptError::NoMarker => {
                push_str(&mut s, "cache-clear transcript does not start with \"# swf-cache-clear v1\"");
            },
            ReceiptError::NonHeaderLine { line } => {
                push_str(&mut s, "cache-clear transcript has a non-header line ");
                push_quoted(&mut s, line.as_str());
            },
            ReceiptError::RepeatedHeader { key, count } => {
                push_str(&mut s, "cache-clear transcript repeats ");
                push_str(&mut s, key);
                push_str(&mut s, " ");
                push_decimal(&mut s, *count as u128);
                push_str(&mut s, " times");
            },
            ReceiptError::MissingHeader { key } => {
                push_str(&mut s, "cache-clear transcript has no ");
                push_str(&mut s, key);
            },
            ReceiptError::ExitCodeNotInteger => {
                push_str(&mut s, "cache-clear exit_code is not an integer");
            },
            ReceiptError::ClearFailed { argv, exit_code } => {
                push_str(&mut s, "cache clear ");
                push_quoted(&mut s, argv.as_str());
                push_str(&mut s, " exited ");
                push_signed(&mut s, *exit_code);
                push_str(
                    &mut s,
                    "; the cache state after it is unknown and swf-cli will not record it as cleared",
                );
            },
            ReceiptError::StartNotInteger => {
                push_str(&mut s, "cache-clear started_at_ms is not an unsigned integer");
            },
            ReceiptError::CompletedNotInteger => {
                push_str(&mut s, "cache-clear completed_at_ms is not an unsigned integer");
            },
            ReceiptError::NonsensicalTimeRange { argv } => {
                push_str(&mut s, "cache clear ");
                push_quoted(&mut s, argv.as_str());
                push_str(&mut s, " has a nonsensical time range");
            },
            ReceiptError::ClearExited { target, argv, exit_code } => {
                push_target(&mut s, target);
                push_str(&mut s, ": cache clear ");
                push_quoted(&mut s, argv.as_str());
                push_str(&mut s, " exited ");
                push_signed(&mut s, *exit_code);
            },
            ReceiptError::SharedScope { target, argv } => {
                push_target(&mut s, target);
                push_str(&mut s, ": cache clear ");
                push_quoted(&mut s, argv.as_str());
                push_str(
                    &mut s,
                    " acted on a shared cache; this benchmark may only clear the invoking user's own cache",
                );
            },
            ReceiptError::UnknownScope { target, argv } => {
                push_target(&mut s, target);
                push_str(&mut s, ": cache clear ");
                push_quoted(&mut s, argv.as_str());
                push_str(
                    &mut s,
                    " has an unrecognized scope, so the cache namespace it emptied is unknown",
                );
            },
            ReceiptError::NoDigest { target, argv } => {
                push_target(&mut s, target);
                push_str(&mut s, ": cache clear ");
                push_quoted(&mut s, argv.as_str());
                push_str(&mut s, " has no retained transcript digest");
            },
            ReceiptError::NoTranscript { target, argv } => {
                push_target(&mut s, target);
                push_str(&mut s, ": cache clear ");
                push_quoted(&mut s, argv.as_str());
                push_str(&mut s, " has no retained transcript");
            },
            ReceiptError::SameStartTime { first, second, start_ms } => {
                push_label(&mut s, first);
                push_str(&mut s, " and ");
                push_label(&mut s, second);
                push_str(&mut s, " report the same start time ");
                push_decimal(&mut s, *start_ms as u128);
                push_str(&mut s, "ms; cache ordering cannot be established");
            },
            ReceiptError::NoClear { mode, repetition } => {
                push_sample(&mut s, mode.as_str(), *repetition);
                push_str(&mut s, " records no cache clear, so the cache it built against is unknown");
            },
            ReceiptError::ScopeDisagreement { mode, repetition, previous, current } => {
                push_sample(&mut s, mode.as_str(), *repetition);
                push_str(&mut s, ": cache clears disagree about scope (");
                push_str(&mut s, previous.as_str());
                push_str(&mut s, " vs ");
                push_str(&mut s, current.as_str());
                push_str(&mut s, ")");
            },
            ReceiptError::SeedWrongRevision { mode, repetition, built, expected } => {
                push_sample(&mut s, mode.as_str(), *repetition);
                push_str(&mut s, ": parent seed built ");
                push_str(&mut s, built.as_str());
                push_str(&mut s, ", expected parent ");
                push_str(&mut s, expected.as_str());
            },
            ReceiptError::SeedNotBefore { mode, repetition } => {
                push_sample(&mut s, mode.as_str(), *repetition);
                push_str(&mut s, ": parent seed did not start before the measured build");
            },
            ReceiptError::SeedNoRemoteTasks { mode, repetition } => {
                push_sample(&mut s, mode.as_str(), *repetition);
                push_str(&mut s, ": parent seed has no verified remote tasks");
            },
            ReceiptError::SeedCacheHits { mode, repetition, hits } => {
                push_sample(&mut s, mode.as_str(), *repetition);
                push_str(&mut s, ": parent seed reported ");
                push_decimal(&mut s, *hits as u128);
                push_str(&mut s, " cache hit(s), so it did not run against an emptied cache");
            },
            ReceiptError::SeedNoMisses { mode, repetition } => {
                push_sample(&mut s, mode.as_str(), *repetition);
                push_str(&mut s, ": parent seed populated no cache entries");
            },
            ReceiptError::InterveningAfterSeed { mode, repetition, between } => {
                push_sample(&mut s, mode.as_str(), *repetition);
                push_str(&mut s, ": ");
                push_label(&mut s, between);
                push_str(
                    &mut s,
                    " ran between the parent seed and the measured build, so the warm cache cannot be attributed to the parent",
                );
            },
            ReceiptError::NoParentSeed { mode, repetition } => {
                push_sample(&mut s, mode.as_str(), *repetition);
                push_str(
                    &mut s,
                    " records no parent seed, so its cache hits cannot be attributed to the parent revision",
                );
            },
            ReceiptError::UnknownMode { mode } => {
                push_str(&mut s, "unknown benchmark mode ");
                push_str(&mut s, mode.as_str());
            },
            ReceiptError::NoClearBefore { target } => {
                push_target(&mut s, target);
                push_str(&mut s, ": every recorded cache clear finished after the build started");
            },
            ReceiptError::InterveningAfterClear { target, between } => {
                push_target(&mut s, target);
                push_str(&mut s, ": ");
                push_label(&mut s, between);
                push_str(
                    &mut s,
                    " ran between the cache clear and this build, so the clear cannot be attributed to it",
                );
            },
            ReceiptError::ScopeNotLocal { scope } => {
                push_str(&mut s, "expected isolated local-user cache scope, observed ");
                push_str(&mut s, scope.as_str());
            },
            ReceiptError::SchemaOne => {
                push_str(
                    &mut s,
                    "build-proof schema 1 asserted its cache scope and cache-clearing procedure as literals that nothing observed; re-run scripts/robot-demo/ib-benchmark.sh to produce a schema 2 receipt",
                );
            },
            ReceiptError::UnsupportedSchema { version } => {
                push_str(&mut s, "unsupported build-proof schema ");
                push_decimal(&mut s, *version as u128);
            },
            ReceiptError::BadRunId => {
                push_str(
                    &mut s,
                    "use 1–128 ASCII letters, digits, '.', '_' or '-', starting with a letter or digit",
                );
            },
            ReceiptError::MissingRevisions => {
                push_str(&mut s, "candidate_revision and parent_revision are required");
            },
            ReceiptError::SameRevisions => {
                push_str(&mut s, "candidate_revision and parent_revision must differ");
            },
            ReceiptError::NoWallTimeOrCaption { mode, repetition } => {
                push_str(&mut s, "sample ");
                push_str(&mut s, mode.as_str());
                push_str(&mut s, " / ");
                push_decimal(&mut s, *repetition as u128);
                push_str(&mut s, " has no wall time or caption");
            },
            ReceiptError::NoStartTime { mode, repetition } => {
                push_str(&mut s, "sample ");
                push_str(&mut s, mode.as_str());
                push_str(&mut s, " / ");
                push_decimal(&mut s, *repetition as u128);
                push_str(&mut s, " has no recorded start time");
            },
            ReceiptError::WrongRevision { mode, repetition, built, expected } => {
                push_str(&mut s, "sample ");
                push_str(&mut s, mode.as_str());
                push_str(&mut s, " / ");
                push_decimal(&mut s, *repetition as u128);
                push_str(&mut s, " built ");
                push_str(&mut s, built.as_str());
                push_str(&mut s, ", expected candidate ");
                push_str(&mut s, expected.as_str());
            },
            ReceiptError::NativeTelemetry { repetition } => {
                push_str(&mut s, "native sample ");
                push_decimal(&mut s, *repetition as u128);
                push_str(&mut s, " contains IB-only telemetry");
            },
            ReceiptError::NoRemoteTasks { mode, repetition } => {
                push_sample(&mut s, mode.as_str(), *repetition);
                push_str(&mut s, " has no verified remote tasks");
            },
            ReceiptError::NoCoreTime { mode, repetition } => {
                push_sample(&mut s, mode.as_str(), *repetition);
                push_str(&mut s, " has no verified remote core time");
            },
            ReceiptError::IncompleteTelemetry { mode, repetition } => {
                push_sample(&mut s, mode.as_str(), *repetition);
                push_str(&mut s, " has incomplete IB telemetry");
            },
            ReceiptError::ColdNotEmpty { repetition, hits } => {
                push_str(&mut s, "ib-cold sample ");
                push_decimal(&mut s, *repetition as u128);
                push_str(&mut s, " was not empty-cache (hits=");
                push_option(&mut s, *hits);
                push_str(&mut s, ")");
            },
            ReceiptError::WarmNoHits { repetition } => {
                push_str(&mut s, "ib-parent-warm sample ");
                push_decimal(&mut s, *repetition as u128);
                push_str(&mut s, " has no verified cache hits");
            },
            ReceiptError::MissingMode { mode } => {
                push_str(&mut s, "missing benchmark mode ");
                push_str(&mut s, mode);
            },
            ReceiptError::TooFewSamples { mode, count, min_samples } => {
                push_str(&mut s, mode);
                push_str(&mut s, " has ");
                push_decimal(&mut s, *count as u128);
                push_str(&mut s, " sample(s), require at least ");
                push_decimal(&mut s, *min_samples as u128);
            },
            ReceiptError::DuplicateRepetitions { mode } => {
                push_str(&mut s, mode);
                push_str(&mut s, " contains duplicate repetition numbers");
            },
            ReceiptError::NoStartedAt => {
                push_str(&mut s, "--started-at-ms is required and must be a real wall clock reading");
            },
            ReceiptError::NativeWithTelemetry => {
                push_str(&mut s, "native samples must not contain IB telemetry");
            },
            ReceiptError::NativeWithClear => {
                push_str(
                    &mut s,
                    "native samples do not use the Incredibuild cache and must not claim a clear",
                );
            },
            ReceiptError::IbWithoutClear { mode, repetition } => {
                push_sample(&mut s, mode.as_str(), *repetition);
                push_str(
                    &mut s,
                    " requires at least one --cache-clear transcript; swf-cli will not record a cache state it did not observe",
                );
            },
            ReceiptError::WarmWithoutSeed { repetition } => {
                push_str(&mut s, "ib-parent-warm sample ");
                push_decimal(&mut s, *repetition as u128);
                push_str(&mut s, " requires the --parent-seed-* evidence");
            },
            ReceiptError::ColdWithSeed { repetition } => {
                push_str(&mut s, "ib-cold sample ");
                push_decimal(&mut s, *repetition as u128);
                push_str(&mut s, " must not carry a parent seed");
            },
            ReceiptError::MissingHistory => {
                push_str(&mut s, "IB sample requires --history");
            },
            ReceiptError::MissingCache => {
                push_str(&mut s, "IB sample requires --cache");
            },
            ReceiptError::SeedNoStart { caption } => {
                push_str(&mut s, "parent seed ");
                push_quoted(&mut s, caption.as_str());
                push_str(&mut s, " has no start time");
            },
        }
        assert(s@ =~= error_text(*self));
        s
    }
}

} // verus!
