//! Assembling one normalized benchmark sample from the evidence the runner
//! recorded. A sample is refused rather than emitted when its evidence is
//! missing or contradicts its mode: swf never records a cache state that it
//! did not observe.

use vstd::prelude::*;
use crate::receipt::{BuildSample, CacheClear, ParentSeed, ReceiptError};
use crate::text::str_eq;

verus! {

/// The evidence of the parent-revision build that warmed the cache; paths
/// are file system paths as text.
#[derive(Debug, Clone)]
pub struct ParentSeedRequest {
    pub caption: String,
    pub revision: String,
    pub started_at_ms: u64,
    pub history: String,
    pub cache: String,
}

/// Everything one sample is assembled from; paths are file system paths as
/// text.
#[derive(Debug, Clone)]
pub struct BuildSampleRequest {
    pub mode: String,
    pub repetition: usize,
    pub wall_ms: u64,
    pub caption: String,
    pub source_revision: String,
    pub started_at_ms: u64,
    pub cache_clear: Vec<String>,
    pub history: Option<String>,
    pub cache: Option<String>,
    pub parent_seed: Option<ParentSeedRequest>,
}

/// The counters Build History reports for one build. The remote core time
/// is in seconds, as the bits of an IEEE-754 double.
#[derive(Debug, Clone, Copy, PartialEq, Eq, Structural)]
pub struct IbHistory {
    pub build_number: u64,
    pub remote_tasks: u64,
    pub local_tasks: u64,
    pub remote_core_time_bits: u64,
}

/// The checks a sample request passes before any evidence is read: a real
/// start time; for a native sample no Incredibuild telemetry and no cache
/// clear; for an IB sample at least one cache clear, a parent seed exactly
/// when it is parent-warmed, and none for a cold one.
pub open spec fn request_check(req: BuildSampleRequest) -> Result<(), ReceiptError> {
    if req.started_at_ms == 0 {
        Err(ReceiptError::NoStartedAt)
    } else if req.mode@ == "native"@ {
        if req.history is Some || req.cache is Some || req.parent_seed is Some {
            Err(ReceiptError::NativeWithTelemetry)
        } else if req.cache_clear@.len() != 0 {
            Err(ReceiptError::NativeWithClear)
        } else {
            Ok(())
        }
    } else if req.cache_clear@.len() == 0 {
        Err(ReceiptError::IbWithoutClear { mode: req.mode, repetition: req.repetition })
    } else if req.mode@ == "ib-parent-warm"@ && req.parent_seed is None {
        Err(ReceiptError::WarmWithoutSeed { repetition: req.repetition })
    } else if req.mode@ == "ib-cold"@ && req.parent_seed is Some {
        Err(ReceiptError::ColdWithSeed { repetition: req.repetition })
    } else {
        Ok(())
    }
}

pub fn check_build_sample_request(req: &BuildSampleRequest) -> (r: Result<(), ReceiptError>)
    ensures
        r == request_check(*req),
{
    if req.started_at_ms == 0 {
        return Err(ReceiptError::NoStartedAt);
    }
    if str_eq(req.mode.as_str(), "native") {
        if req.history.is_some() || req.cache.is_some() || req.parent_seed.is_some() {
            return Err(ReceiptError::NativeWithTelemetry);
        }
        if req.cache_clear.len() != 0 {
            return Err(ReceiptError::NativeWithClear);
        }
        return Ok(());
    }
    if req.cache_clear.len() == 0 {
        return Err(ReceiptError::IbWithoutClear { mode: req.mode.clone(), repetition: req.repetition });
    }
    if str_eq(req.mode.as_str(), "ib-parent-warm") && req.parent_seed.is_none() {
        return Err(ReceiptError::WarmWithoutSeed { repetition: req.repetition });
    }
    if str_eq(req.mode.as_str(), "ib-cold") && req.parent_seed.is_some() {
        return Err(ReceiptError::ColdWithSeed { repetition: req.repetition });
    }
    Ok(())
}

/// The sample of a native build: its timing and identity, and no
/// Incredibuild telemetry at all.
pub fn native_build_sample(req: BuildSampleRequest) -> (s: BuildSample)
    ensures
        s.mode == req.mode,
        s.repetition == req.repetition,
        s.wall_ms == req.wall_ms,
        s.build_caption == req.caption,
        s.source_revision == req.source_revision,
        s.started_at_ms == req.started_at_ms,
        s.cache_clears@.len() == 0,
        s.parent_seed is None,
        s.remote_tasks is None,
        s.local_tasks is None,
        s.remote_core_time_bits is None,
        s.cache_hits is None,
        s.cache_misses is None,
{
    BuildSample {
        mode: req.mode,
        repetition: req.repetition,
        wall_ms: req.wall_ms,
        build_caption: req.caption,
        source_revision: req.source_revision,
        started_at_ms: req.started_at_ms,
        cache_clears: Vec::new(),
        parent_seed: None,
        remote_tasks: None,
        local_tasks: None,
        remote_core_time_bits: None,
        cache_hits: None,
        cache_misses: None,
    }
}

/// The Build History and cache-statistics paths of an IB sample, in the
/// order they are required.
pub fn ib_evidence_paths(req: &BuildSampleRequest) -> (r: Result<(String, String), ReceiptError>)
    ensures
        match (req.history, req.cache) {
            (Some(h), Some(c)) => r matches Ok((hh, cc)) && hh == h && cc == c,
            (None, _) => r == Err::<(String, String), ReceiptError>(ReceiptError::MissingHistory),
            (Some(_), None) => r == Err::<(String, String), ReceiptError>(ReceiptError::MissingCache),
        },
{
    match (&req.history, &req.cache) {
        (Some(h), Some(c)) => Ok((h.clone(), c.clone())),
        (None, _) => Err(ReceiptError::MissingHistory),
        (Some(_), None) => Err(ReceiptError::MissingCache),
    }
}

/// The parent seed of a warm sample, from its request and the counters read
/// out of its Build History and cache statistics; refused without a real
/// start time.
pub fn make_parent_seed(
    request: &ParentSeedRequest,
    remote_tasks: u64,
    cache_hits: u64,
    cache_misses: u64,
) -> (r: Result<ParentSeed, ReceiptError>)
    ensures
        request.started_at_ms == 0 ==> (r matches Err(ReceiptError::SeedNoStart { caption })
            && caption == request.caption),
        request.started_at_ms != 0 ==> (r matches Ok(seed) && seed == ParentSeed {
            build_caption: request.caption,
            source_revision: request.revision,
            started_at_ms: request.started_at_ms,
            remote_tasks,
            cache_hits,
            cache_misses,
        }),
{
    if request.started_at_ms == 0 {
        return Err(ReceiptError::SeedNoStart { caption: request.caption.clone() });
    }
    Ok(
        ParentSeed {
            build_caption: request.caption.clone(),
            source_revision: request.revision.clone(),
            started_at_ms: request.started_at_ms,
            remote_tasks,
            cache_hits,
            cache_misses,
        },
    )
}

/// The sample of an Incredibuild build: its timing and identity, the cache
/// clears and parent seed read from its evidence, and the counters of its
/// own Build History record and cache statistics.
pub fn ib_build_sample(
    req: BuildSampleRequest,
    cache_clears: Vec<CacheClear>,
    parent_seed: Option<ParentSeed>,
    history: IbHistory,
    cache_hits: u64,
    cache_misses: u64,
) -> (s: BuildSample)
    ensures
        s.mode == req.mode,
        s.repetition == req.repetition,
        s.wall_ms == req.wall_ms,
        s.build_caption == req.caption,
        s.source_revision == req.source_revision,
        s.started_at_ms == req.started_at_ms,
        s.cache_clears@ == cache_clears@,
        s.parent_seed == parent_seed,
        s.remote_tasks == Some(history.remote_tasks),
        s.local_tasks == Some(history.local_tasks),
        s.remote_core_time_bits == Some(history.remote_core_time_bits),
        s.cache_hits == Some(cache_hits),
        s.cache_misses == Some(cache_misses),
{
    BuildSample {
        mode: req.mode,
        repetition: req.repetition,
        wall_ms: req.wall_ms,
        build_caption: req.caption,
        source_revision: req.source_revision,
        started_at_ms: req.started_at_ms,
        cache_clears,
        parent_seed,
        remote_tasks: Some(history.remote_tasks),
        local_tasks: Some(history.local_tasks),
        remote_core_time_bits: Some(history.remote_core_time_bits),
        cache_hits: Some(cache_hits),
        cache_misses: Some(cache_misses),
    }
}

} // verus!
