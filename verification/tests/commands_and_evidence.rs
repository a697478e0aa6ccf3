//! Identifiers, run ids, the coverage matrix, evidence layout and digests.

use swf_robot::commands::{
    matrix_expectation, matrix_plan, matrix_scenario_name, parse_identifier, parse_positive_usize,
    run_id_for_time,
};
use swf_robot::evidence::{
    count_infrastructure_failures, evidence_dir_for, infrastructure_failure, sha256_hex, ScenarioResult};
use swf_robot::receipt::{check_clear_usable, CacheClear, CacheScope, ClearTarget};
use swf_robot::text::{normalized, parse_i32_chars, parse_u64};

#[test]
fn identifiers_cannot_escape_evidence_or_scenario_directories() {
    for value in [
        "",
        ".",
        "..",
        "../outside",
        "a/b",
        "a\\b",
        "/tmp/run",
        "with space",
    ] {
        assert!(parse_identifier(value).is_err(), "{value:?}");
    }
    for value in ["fresh_lift", "run-123", "v1.2-test"] {
        assert_eq!(parse_identifier(value).unwrap(), value);
    }
}

#[test]
fn identifiers_are_ascii_and_at_most_128_characters() {
    assert!(parse_identifier(&"a".repeat(128)).is_ok());
    assert!(parse_identifier(&"a".repeat(129)).is_err());
    assert!(parse_identifier("café").is_err());
    assert!(parse_identifier("-leading-dash").is_err());
    assert_eq!(
        parse_identifier("x y").unwrap_err(),
        "use 1–128 ASCII letters, digits, '.', '_' or '-', starting with a letter or digit"
    );
}

#[test]
fn positive_counts_are_parsed_like_std() {
    assert_eq!(parse_positive_usize("5"), Ok(5));
    assert_eq!(parse_positive_usize("+12"), Ok(12));
    assert_eq!(parse_positive_usize("007"), Ok(7));
    for bad in ["0", "", "-1", "+", "1.5", " 3", "99999999999999999999999"] {
        assert_eq!(
            parse_positive_usize(bad),
            Err("must be a positive integer".to_string()),
            "{bad:?}"
        );
    }
}

#[test]
fn only_expected_timeouts_are_nonfatal_infrastructure_results() {
    let mut result = ScenarioResult {
        scenario: "test".into(),
        backend: "mock".into(),
        outcome: "timeout".into(),
        success: false,
        task_dispatches: 0,
        decisions: 0,
        rejections: vec![],
        ticks: 0,
        wall_time_ms: 0,
    };
    assert!(infrastructure_failure(&result, false));
    assert!(!infrastructure_failure(&result, true));
    for outcome in ["protocol_error", "protocol_violation", "bridge_died"] {
        result.outcome = outcome.into();
        assert!(infrastructure_failure(&result, true));
    }
    for outcome in ["cube_lifted", "rejected_stale", "emergency_stop"] {
        result.outcome = outcome.into();
        assert!(!infrastructure_failure(&result, false));
    }
}

#[test]
fn default_run_ids_carry_the_start_time() {
    assert_eq!(run_id_for_time(0), "run-0");
    assert_eq!(run_id_for_time(1_725_029_869_123), "run-1725029869123");
}

#[test]
fn matrix_scenarios_expect_staleness_beyond_the_default_threshold() {
    assert_eq!(matrix_expectation(250), "cube_lifted");
    assert_eq!(matrix_expectation(251), "rejected_stale");
    assert_eq!(matrix_expectation(0), "cube_lifted");
    assert_eq!(matrix_scenario_name("left", 600), "left-f600");
}

#[test]
fn evidence_lives_under_the_repository_root() {
    assert_eq!(evidence_dir_for("/repo", "run-1"), "/repo/evidence/run-1");
    assert_eq!(evidence_dir_for("/repo/", "run-1"), "/repo/evidence/run-1");
    assert_eq!(evidence_dir_for("", "run-1"), "evidence/run-1");
    assert_eq!(evidence_dir_for("/repo", "/tmp/x"), "/tmp/x");
}

#[test]
fn digests_are_lower_case_hex_sha256() {
    assert_eq!(
        sha256_hex(b"abc"),
        "ba7816bf8f01cfea414140de5dae2223b00361a396177a9cb410ff61f20015ad"
    );
    assert_eq!(
        sha256_hex(b""),
        "e3b0c44298fc1c149afbf4c8996fb92427ae41e4649b934ca495991b7852b855"
    );
}

#[test]
fn a_computed_digest_counts_as_a_retained_transcript_digest() {
    let clear = CacheClear {
        scope: CacheScope::LocalUser,
        argv: "user clear".into(),
        exit_code: 0,
        started_at_ms: 1,
        completed_at_ms: 2,
        transcript_path: "clear.txt".into(),
        transcript_sha256: sha256_hex(b"# swf-cache-clear v1\n"),
    };
    let target = ClearTarget::Sample {
        mode: "ib-cold".into(),
        repetition: 1,
    };
    assert!(check_clear_usable(&clear, &target).is_ok());
    let mut upper = clear.clone();
    upper.transcript_sha256 = upper.transcript_sha256.to_uppercase();
    assert_eq!(
        check_clear_usable(&upper, &target).unwrap_err().message(),
        "ib-cold sample 1: cache clear \"user clear\" has no retained transcript digest"
    );
    let mut unnamed = clear.clone();
    unnamed.transcript_path = String::new();
    assert_eq!(
        check_clear_usable(&unnamed, &target).unwrap_err().message(),
        "ib-cold sample 1: cache clear \"user clear\" has no retained transcript"
    );
}

#[test]
fn labels_are_normalised_to_ascii_alphanumerics() {
    assert_eq!(normalized("Build Cache Hits"), "buildcachehits");
    assert_eq!(normalized("total_build-cache.MISSES"), "totalbuildcachemisses");
    assert_eq!(normalized("Übergröße 1"), "bergre1");
}

#[test]
fn integers_are_parsed_like_std() {
    assert_eq!(parse_u64("18446744073709551615"), Some(u64::MAX));
    assert_eq!(parse_u64("18446744073709551616"), None);
    assert_eq!(parse_u64("-0"), None);
    let chars = |s: &str| s.chars().collect::<Vec<char>>();
    assert_eq!(parse_i32_chars(&chars("-2147483648")), Some(i32::MIN));
    assert_eq!(parse_i32_chars(&chars("2147483648")), None);
    assert_eq!(parse_i32_chars(&chars("-")), None);
    assert_eq!(parse_i32_chars(&chars("+3")), Some(3));
}

#[test]
fn the_matrix_plan_is_placement_major() {
    let ids = vec!["left".to_string(), "right".to_string()];
    let plan = matrix_plan(&ids, &[100, 600]);
    let got: Vec<(usize, u64, &str, &str)> = plan
        .iter()
        .map(|e| (e.placement, e.freshness_ms, e.name.as_str(), e.expect))
        .collect();
    assert_eq!(
        got,
        [
            (0, 100, "left-f100", "cube_lifted"),
            (0, 600, "left-f600", "rejected_stale"),
            (1, 100, "right-f100", "cube_lifted"),
            (1, 600, "right-f600", "rejected_stale"),
        ]
    );
    assert!(matrix_plan(&ids, &[]).is_empty());
    assert!(matrix_plan(&[], &[250]).is_empty());
    assert_eq!(matrix_plan(&ids[..1], &[250])[0].expect, "cube_lifted");
    assert_eq!(matrix_plan(&ids[..1], &[251])[0].expect, "rejected_stale");
}

#[test]
fn matrix_failures_count_only_infrastructure_outcomes() {
    let result = |outcome: &str| ScenarioResult {
        scenario: "s".into(),
        backend: "mock".into(),
        outcome: outcome.into(),
        success: false,
        task_dispatches: 0,
        decisions: 0,
        rejections: vec![],
        ticks: 0,
        wall_time_ms: 0,
    };
    let runs = vec![
        (result("cube_lifted"), false),
        (result("protocol_error"), false),
        (result("timeout"), true),
        (result("timeout"), false),
        (result("bridge_died"), true),
        (result("rejected_stale"), false),
    ];
    assert_eq!(count_infrastructure_failures(&runs), 3);
    assert_eq!(count_infrastructure_failures(&[]), 0);
}
