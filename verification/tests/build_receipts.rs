//! Benchmark receipts, cache-clear transcripts and cache counters.

use swf_robot::receipt::{
    effective_clear, intervening_build, mode_stats, validate_build_proof, BuildLabel, BuildProof,
    BuildSample, CacheBuild, CacheClear, CacheScope, ParentSeed, BUILD_PROOF_SCHEMA_VERSION,
};
use swf_robot::transcripts::{parse_cache_clear, parse_cache_counters};

fn clear_at(completed_at_ms: u64) -> CacheClear {
    CacheClear {
        scope: CacheScope::LocalUser,
        argv: "user clear".into(),
        exit_code: 0,
        started_at_ms: completed_at_ms - 10,
        completed_at_ms,
        transcript_path: format!("evidence/raw/clear-{completed_at_ms}.txt"),
        transcript_sha256: "0123456789abcdef".repeat(4),
    }
}

/// A deterministic timeline, one second-scale block per repetition:
/// native at +100, the cold clear at +200 and its build at +300, the warm
/// clear at +400, its parent seed at +500 and the measured warm build at
/// +600. Every cache-using build gets a distinct start.
fn proof_sample(
    mode: &str,
    repetition: usize,
    remote_tasks: Option<u64>,
    cache_hits: Option<u64>,
) -> BuildSample {
    let base = repetition as u64 * 1_000_000;
    let (started_at_ms, cache_clears, parent_seed) = match mode {
        "native" => (base + 100, Vec::new(), None),
        "ib-cold" => (base + 300, vec![clear_at(base + 200)], None),
        _ => (
            base + 600,
            vec![clear_at(base + 400)],
            Some(ParentSeed {
                build_caption: format!("proof-parent-seed-{repetition}"),
                source_revision: "parent".into(),
                started_at_ms: base + 500,
                remote_tasks: 6,
                cache_hits: 0,
                cache_misses: 9,
            }),
        ),
    };
    BuildSample {
        mode: mode.into(),
        repetition,
        wall_ms: 1_000 + repetition as u64,
        build_caption: format!("proof-{mode}-{repetition}"),
        source_revision: "candidate".into(),
        started_at_ms,
        cache_clears,
        parent_seed,
        remote_tasks,
        local_tasks: remote_tasks.map(|_| 2),
        remote_core_time_bits: remote_tasks.map(|_| 0.25f64.to_bits()),
        cache_hits,
        cache_misses: remote_tasks.map(|_| 3),
    }
}

fn complete_build_proof() -> BuildProof {
    let mut samples = Vec::new();
    for repetition in 1..=5 {
        samples.push(proof_sample("native", repetition, None, None));
        samples.push(proof_sample("ib-cold", repetition, Some(4), Some(0)));
        samples.push(proof_sample("ib-parent-warm", repetition, Some(1), Some(3)));
    }
    BuildProof {
        schema_version: BUILD_PROOF_SCHEMA_VERSION,
        run_id: "proof-1".into(),
        candidate_revision: "candidate".into(),
        parent_revision: "parent".into(),
        samples,
    }
}

fn rejection(proof: &BuildProof) -> String {
    validate_build_proof(proof, 5)
        .expect_err("expected this receipt to be rejected")
        .message()
}

fn warm_mut(proof: &mut BuildProof) -> &mut BuildSample {
    proof
        .samples
        .iter_mut()
        .find(|sample| sample.mode == "ib-parent-warm")
        .unwrap()
}

#[test]
fn build_proof_requires_distribution_and_cache_hits() {
    let mut proof = complete_build_proof();
    assert!(validate_build_proof(&proof, 5).is_ok());

    proof.samples[1].remote_tasks = Some(0);
    assert!(rejection(&proof).contains("no verified remote tasks"));
    proof.samples[1].remote_tasks = Some(4);

    warm_mut(&mut proof).cache_hits = Some(0);
    assert!(rejection(&proof).contains("no verified cache hits"));
}

#[test]
fn build_proof_requires_five_independent_samples_per_mode() {
    let mut proof = complete_build_proof();
    proof
        .samples
        .retain(|sample| sample.mode != "native" || sample.repetition != 5);
    assert!(rejection(&proof).contains("require at least 5"));
}

#[test]
fn schema_one_receipts_are_rejected_because_their_attestations_were_literals() {
    let mut proof = complete_build_proof();
    proof.schema_version = 1;
    let message = rejection(&proof);
    assert!(message.contains("schema 1"), "{message}");
    assert!(message.contains("literals"), "{message}");
}

#[test]
fn an_ib_sample_without_an_observed_clear_is_unknown_not_clean() {
    let mut proof = complete_build_proof();
    proof.samples[1].cache_clears.clear();
    assert!(rejection(&proof).contains("records no cache clear"));

    let mut proof = complete_build_proof();
    warm_mut(&mut proof).cache_clears.clear();
    assert!(rejection(&proof).contains("records no cache clear"));
}

#[test]
fn a_clear_is_rejected_unless_it_is_local_user_successful_and_retained() {
    let mut proof = complete_build_proof();
    proof.samples[1].cache_clears[0].scope = CacheScope::Shared;
    assert!(rejection(&proof).contains("shared cache"));

    let mut proof = complete_build_proof();
    proof.samples[1].cache_clears[0].scope = CacheScope::Unknown;
    assert!(rejection(&proof).contains("unrecognized scope"));

    let mut proof = complete_build_proof();
    proof.samples[1].cache_clears[0].exit_code = 3;
    assert!(rejection(&proof).contains("exited 3"));

    let mut proof = complete_build_proof();
    proof.samples[1].cache_clears[0].transcript_sha256 = "not-a-digest".into();
    assert!(rejection(&proof).contains("no retained transcript digest"));
}

#[test]
fn a_clear_must_precede_the_build_it_is_claimed_to_have_prepared() {
    let mut proof = complete_build_proof();
    // The clear finished one millisecond after the timed build began.
    let start = proof.samples[1].started_at_ms;
    proof.samples[1].cache_clears[0].completed_at_ms = start + 1;
    assert!(rejection(&proof).contains("finished after the build started"));
}

#[test]
fn a_clear_cannot_be_reused_across_an_intervening_cache_using_build() {
    let mut proof = complete_build_proof();
    // Repetition 2's cold clear is backdated ahead of repetition 1's warm
    // build, so another Incredibuild build ran in between and could have
    // repopulated the cache.
    let cold_two = proof
        .samples
        .iter_mut()
        .find(|sample| sample.mode == "ib-cold" && sample.repetition == 2)
        .unwrap();
    cold_two.cache_clears[0].completed_at_ms = 1_000_550;
    assert!(rejection(&proof).contains("ran between the cache clear"));
}

#[test]
fn warm_cache_hits_must_be_attributable_to_a_recorded_parent_seed() {
    let mut proof = complete_build_proof();
    warm_mut(&mut proof).parent_seed = None;
    assert!(rejection(&proof).contains("records no parent seed"));

    let mut proof = complete_build_proof();
    warm_mut(&mut proof)
        .parent_seed
        .as_mut()
        .unwrap()
        .cache_hits = 2;
    assert!(rejection(&proof).contains("did not run against an emptied cache"));

    let mut proof = complete_build_proof();
    warm_mut(&mut proof)
        .parent_seed
        .as_mut()
        .unwrap()
        .source_revision = "candidate".into();
    assert!(rejection(&proof).contains("expected parent"));

    let mut proof = complete_build_proof();
    warm_mut(&mut proof)
        .parent_seed
        .as_mut()
        .unwrap()
        .remote_tasks = 0;
    assert!(rejection(&proof).contains("parent seed has no verified remote tasks"));
}

#[test]
fn native_samples_may_not_carry_cache_evidence() {
    let mut proof = complete_build_proof();
    proof.samples[0].cache_clears.push(clear_at(50));
    assert!(rejection(&proof).contains("IB-only telemetry"));
}

#[test]
fn cache_clear_transcripts_are_parsed_not_assumed() {
    let digest = "0123456789abcdef".repeat(4);
    let ok = "# swf-cache-clear v1\n\
              argv=user clear\n\
              exit_code=0\n\
              started_at_ms=1000\n\
              completed_at_ms=1200\n\
              --- transcript ---\n\
              Local user build cache cleared.\n";
    let parsed = parse_cache_clear(ok, "clear.txt", digest.clone()).unwrap();
    assert_eq!(parsed.scope, CacheScope::LocalUser);
    assert_eq!(parsed.completed_at_ms, 1200);

    // A failed clear is never recorded as a clear.
    let failed = ok.replace("exit_code=0", "exit_code=1");
    assert!(parse_cache_clear(&failed, "clear.txt", digest.clone())
        .unwrap_err()
        .message()
        .contains("unknown"));

    // An unfamiliar cache tool invocation yields Unknown, which the
    // validator rejects -- it is never optimistically read as local-user.
    let exotic = ok.replace("argv=user clear", "argv=whatever --purge");
    assert_eq!(
        parse_cache_clear(&exotic, "clear.txt", digest.clone())
            .unwrap()
            .scope,
        CacheScope::Unknown
    );
    let shared = ok.replace("argv=user clear", "argv=shared clear");
    assert_eq!(
        parse_cache_clear(&shared, "clear.txt", digest.clone())
            .unwrap()
            .scope,
        CacheScope::Shared
    );

    for broken in [
        ok.replace("# swf-cache-clear v1", "# something else"),
        ok.replace("exit_code=0\n", ""),
        ok.replace("argv=user clear", "argv=user clear\nargv=shared clear"),
        ok.replace("--- transcript ---", "transcript"),
    ] {
        assert!(parse_cache_clear(&broken, "clear.txt", digest.clone()).is_err());
    }
}

#[test]
fn cache_parser_requires_unambiguous_hits_and_misses() {
    assert_eq!(
        parse_cache_counters("Build Cache Hits: 9\nBuild Cache Misses: 3\n").unwrap(),
        (9, 3)
    );
    assert!(parse_cache_counters("Build Cache Misses: 3\n").is_err());
    assert!(parse_cache_counters(
        "Build Cache Hits: 9\nCache Hits: 8\nBuild Cache Misses: 3\n"
    )
    .is_err());
}

#[test]
fn counter_errors_list_every_distinct_value_in_order() {
    let err = parse_cache_counters("Cache Hits: 9\nTotal Hits = 8\nhits: 9\nMisses: 1\n")
        .unwrap_err();
    assert_eq!(
        err.message(),
        "expected one unambiguous cache hits counter, found [8, 9]"
    );
    let err = parse_cache_counters("Hits: 2\n").unwrap_err();
    assert_eq!(
        err.message(),
        "expected one unambiguous cache misses counter, found []"
    );
    // Repeated agreeing reports are one value; odd labels are ignored.
    assert_eq!(
        parse_cache_counters("hits: 4\r\nHITS=4\nhit ratio: 9\nmisses: +7\n").unwrap(),
        (4, 7)
    );
}

#[test]
fn transcript_errors_name_what_is_wrong() {
    let digest = "0123456789abcdef".repeat(4);
    let ok = "# swf-cache-clear v1\n\
              argv=user clear\n\
              exit_code=0\n\
              started_at_ms=1000\n\
              completed_at_ms=1200\n\
              --- transcript ---\n";
    let msg = |text: &str| {
        parse_cache_clear(text, "clear.txt", digest.clone())
            .unwrap_err()
            .message()
    };
    assert_eq!(
        msg(&ok.replace("--- transcript ---", "transcript")),
        "cache-clear transcript has no '--- transcript ---' separator"
    );
    assert_eq!(
        msg(&ok.replace("exit_code=0\n", "")),
        "cache-clear transcript has no exit_code"
    );
    assert_eq!(
        msg(&ok.replace("argv=user clear", "argv=user clear\nargv=shared clear")),
        "cache-clear transcript repeats argv 2 times"
    );
    assert_eq!(
        msg(&ok.replace("exit_code=0", "exit_code=-2")),
        "cache clear \"user clear\" exited -2; the cache state after it is unknown and swf-cli will not record it as cleared"
    );
    assert_eq!(
        msg(&ok.replace("exit_code=0", "exit_code=zero")),
        "cache-clear exit_code is not an integer"
    );
    assert_eq!(
        msg(&ok.replace("started_at_ms=1000", "started_at_ms=0")),
        "cache clear \"user clear\" has a nonsensical time range"
    );
    assert_eq!(
        msg(&ok.replace("completed_at_ms=1200", "completed_at_ms=999")),
        "cache clear \"user clear\" has a nonsensical time range"
    );
    assert_eq!(
        msg(&ok.replace("argv=user clear", "argv user clear")),
        "cache-clear transcript has a non-header line \"argv user clear\""
    );
    let parsed = parse_cache_clear(
        &ok.replace("argv=user clear", "  argv =  global purge  \n\n"),
        "clear.txt",
        digest.clone(),
    )
    .unwrap();
    assert_eq!(parsed.scope, CacheScope::Shared);
    assert_eq!(parsed.argv, "global purge");
    assert_eq!(parsed.transcript_path, "clear.txt");
    assert_eq!(parsed.transcript_sha256, digest);
}

#[test]
fn the_effective_clear_is_the_latest_finished_before_the_build() {
    let clears = vec![clear_at(100), clear_at(300), clear_at(200), clear_at(500)];
    assert_eq!(effective_clear(&clears, 350).unwrap().completed_at_ms, 300);
    assert_eq!(effective_clear(&clears, 300).unwrap().completed_at_ms, 300);
    assert!(effective_clear(&clears, 99).is_none());
}

#[test]
fn an_intervening_build_is_found_strictly_between() {
    let builds = vec![
        CacheBuild {
            started_at_ms: 10,
            label: BuildLabel::ParentSeed {
                caption: "seed".into(),
            },
        },
        CacheBuild {
            started_at_ms: 20,
            label: BuildLabel::Sample {
                mode: "ib-cold".into(),
                repetition: 1,
            },
        },
    ];
    assert_eq!(intervening_build(&builds, 5, 15).unwrap().started_at_ms, 10);
    assert!(intervening_build(&builds, 10, 20).is_none());
    assert_eq!(intervening_build(&builds, 0, 100).unwrap().started_at_ms, 10);
}

#[test]
fn mode_statistics_sort_the_wall_times() {
    let odd = mode_stats(&[30, 10, 20]);
    assert_eq!((odd.median_twice_ms, odd.min_ms, odd.max_ms), (40, 10, 30));
    let even = mode_stats(&[40, 10, 30, 25]);
    assert_eq!((even.median_twice_ms, even.min_ms, even.max_ms), (55, 10, 40));
}

#[test]
fn an_accepted_receipt_reports_its_statistics_and_cache_evidence() {
    let summary = validate_build_proof(&complete_build_proof(), 5).unwrap();
    assert_eq!(summary.native.min_ms, 1001);
    assert_eq!(summary.native.max_ms, 1005);
    assert_eq!(summary.native.median_twice_ms, 2006);
    assert_eq!(summary.cache.scope, CacheScope::LocalUser);
    assert_eq!(summary.cache.clears, 10);
    assert_eq!(summary.cache.warm_seeds, 5);
}

#[test]
fn receipt_identity_is_checked_before_samples() {
    let mut proof = complete_build_proof();
    proof.schema_version = 3;
    assert_eq!(rejection(&proof), "unsupported build-proof schema 3");
    let mut proof = complete_build_proof();
    proof.run_id = "../escape".into();
    assert!(rejection(&proof).starts_with("use 1"));
    let mut proof = complete_build_proof();
    proof.parent_revision = "candidate".into();
    assert_eq!(
        rejection(&proof),
        "candidate_revision and parent_revision must differ"
    );
    let mut proof = complete_build_proof();
    proof.samples[5].repetition = 1;
    assert_eq!(
        rejection(&proof),
        "ib-parent-warm contains duplicate repetition numbers"
    );
    let mut proof = complete_build_proof();
    proof.samples[1].cache_hits = Some(2);
    assert_eq!(
        rejection(&proof),
        "ib-cold sample 1 was not empty-cache (hits=Some(2))"
    );
    let mut proof = complete_build_proof();
    proof.samples[1].remote_core_time_bits = Some((-0.0f64).to_bits());
    assert_eq!(
        rejection(&proof),
        "ib-cold sample 1 has no verified remote core time"
    );
}

#[test]
fn shared_start_times_break_the_cache_ordering() {
    let mut proof = complete_build_proof();
    proof.samples[1].started_at_ms = proof.samples[2].parent_seed.as_ref().unwrap().started_at_ms;
    assert_eq!(
        rejection(&proof),
        "ib-cold sample 1 and parent seed proof-parent-seed-1 report the same start time 1000500ms; cache ordering cannot be established"
    );
}
