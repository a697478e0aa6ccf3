//! The protected contract of the dispatch gate:
//!   age 0 / 50 / 250 ms, no stop   -> Permit
//!   age 251 / 600 ms, no stop      -> Reject(StalePerception)
//!   stop with fresh or stale data  -> Reject(EmergencyStop)
//!   future/invalid timestamp       -> Reject(InvalidTimestamp)
//!   boundary 250 / 251 ms          -> exact behavior pinned

use swf_robot::gate::{
    decide, Decision, ObservationRef, Policy, Proposal, ProposedAction, RejectionReason,
    DEFAULT_MAX_OBSERVATION_AGE_MS, NS_PER_MS,
};

const NOW_NS: u64 = 1_000_000_000;

fn proposal(age_ms: u64, stop: bool) -> Proposal {
    Proposal {
        run_id: "contract".into(),
        episode_id: "contract-ep".into(),
        action_id: format!("a-{age_ms}-{stop}"),
        simulation_tick: 20,
        simulation_time_ns: NOW_NS,
        observation: ObservationRef {
            observation_id: "obs".into(),
            capture_time_ns: NOW_NS - age_ms * NS_PER_MS,
        },
        simulated_stop: stop,
        proposed_action: ProposedAction::Pickup {
            target: "cube".into(),
            segment: "approach".into(),
        },
    }
}

fn proposal_at_age(age_ms: u64) -> Proposal {
    let now = 1_000_000_000_u64;
    Proposal {
        run_id: "r".into(),
        episode_id: "e".into(),
        action_id: "a".into(),
        simulation_tick: 20,
        simulation_time_ns: now,
        observation: ObservationRef {
            observation_id: "o".into(),
            capture_time_ns: now - age_ms * NS_PER_MS,
        },
        simulated_stop: false,
        proposed_action: ProposedAction::Pickup {
            target: "cube".into(),
            segment: "approach".into(),
        },
    }
}

fn permit() -> Decision {
    Decision::Permit
}

fn reject(reason: RejectionReason) -> Decision {
    Decision::Reject { reason }
}

#[test]
fn stop_precedes_invalid_timestamp() {
    let mut p = proposal_at_age(0);
    p.simulated_stop = true;
    p.observation.capture_time_ns = p.simulation_time_ns + 1; // future
    assert_eq!(
        decide(&p, &Policy::default()),
        Decision::Reject {
            reason: RejectionReason::EmergencyStop
        }
    );
}

#[test]
fn lib_future_timestamp_rejected() {
    let mut p = proposal_at_age(0);
    p.observation.capture_time_ns = p.simulation_time_ns + NS_PER_MS;
    assert_eq!(
        decide(&p, &Policy::default()),
        Decision::Reject {
            reason: RejectionReason::InvalidTimestamp
        }
    );
}

#[test]
fn fresh_ages_are_permitted() {
    let policy = Policy::default();
    for age_ms in [0_u64, 50, 250] {
        assert_eq!(
            decide(&proposal(age_ms, false), &policy),
            permit(),
            "age {age_ms} ms must be permitted"
        );
    }
}

#[test]
fn stale_ages_are_rejected() {
    let policy = Policy::default();
    for age_ms in [251_u64, 600] {
        assert_eq!(
            decide(&proposal(age_ms, false), &policy),
            reject(RejectionReason::StalePerception { age_ms }),
            "age {age_ms} ms must be rejected as stale"
        );
    }
}

#[test]
fn boundary_250ms_permits() {
    assert_eq!(decide(&proposal(250, false), &Policy::default()), permit());
}

#[test]
fn boundary_251ms_rejects() {
    assert_eq!(
        decide(&proposal(251, false), &Policy::default()),
        reject(RejectionReason::StalePerception { age_ms: 251 })
    );
}

#[test]
fn stop_with_fresh_data_rejects_emergency_stop() {
    assert_eq!(
        decide(&proposal(0, true), &Policy::default()),
        reject(RejectionReason::EmergencyStop)
    );
}

#[test]
fn stop_with_stale_data_rejects_emergency_stop() {
    // Stop precedence: even a stale observation must report EmergencyStop,
    // never StalePerception.
    assert_eq!(
        decide(&proposal(600, true), &Policy::default()),
        reject(RejectionReason::EmergencyStop)
    );
}

#[test]
fn contract_future_timestamp_rejected() {
    let mut p = proposal(0, false);
    p.observation.capture_time_ns = p.simulation_time_ns + 1; // 1 ns in the future
    assert_eq!(
        decide(&p, &Policy::default()),
        reject(RejectionReason::InvalidTimestamp)
    );
}

#[test]
fn configured_threshold_is_respected() {
    let tight = Policy {
        max_observation_age_ms: 100,
    };
    assert_eq!(
        decide(&proposal(150, false), &tight),
        reject(RejectionReason::StalePerception { age_ms: 150 })
    );
    assert_eq!(decide(&proposal(100, false), &tight), permit());
}

#[test]
fn default_policy_uses_the_demo_threshold() {
    assert_eq!(Policy::default().max_observation_age_ms, 250);
    assert_eq!(DEFAULT_MAX_OBSERVATION_AGE_MS, 250);
}

#[test]
fn age_is_whole_milliseconds_rounded_down() {
    // 250.999999 ms is still 250 whole milliseconds and is permitted.
    let mut p = proposal(0, false);
    p.observation.capture_time_ns = NOW_NS - (251 * NS_PER_MS - 1);
    assert_eq!(decide(&p, &Policy::default()), permit());
    p.observation.capture_time_ns = NOW_NS - 251 * NS_PER_MS;
    assert_eq!(
        decide(&p, &Policy::default()),
        reject(RejectionReason::StalePerception { age_ms: 251 })
    );
}

#[test]
fn loosening_the_threshold_never_rejects_a_permitted_proposal() {
    let p = proposal(180, false);
    let tight = Policy {
        max_observation_age_ms: 200,
    };
    let loose = Policy {
        max_observation_age_ms: 400,
    };
    assert_eq!(decide(&p, &tight), permit());
    assert_eq!(decide(&p, &loose), permit());
    let stale = proposal(500, false);
    assert_eq!(decide(&stale, &loose), decide(&stale, &tight));
}

#[test]
fn identifiers_do_not_change_the_decision() {
    let a = proposal(300, false);
    let mut b = proposal(300, false);
    b.run_id = "other".into();
    b.action_id = "other-action".into();
    b.simulation_tick = 99;
    assert_eq!(decide(&a, &Policy::default()), decide(&b, &Policy::default()));
}

#[test]
fn decisions_render_as_evidence_text() {
    assert_eq!(Decision::Permit.to_string(), "permit");
    assert_eq!(reject(RejectionReason::EmergencyStop).to_string(), "reject/emergency_stop");
    assert_eq!(
        reject(RejectionReason::InvalidTimestamp).to_string(),
        "reject/invalid_timestamp"
    );
    assert_eq!(
        reject(RejectionReason::StalePerception { age_ms: 600 }).to_string(),
        "reject/stale_perception(age=600ms)"
    );
    assert_eq!(
        RejectionReason::StalePerception { age_ms: 0 }.to_string(),
        "stale_perception(age=0ms)"
    );
    assert!(Decision::Permit.is_permit());
    assert!(!reject(RejectionReason::EmergencyStop).is_permit());
}
