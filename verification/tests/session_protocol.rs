//! The lock-step session, driven by the same message sequences a bridge
//! emits: hello, proposals answered by decisions, outcomes, holds and the
//! end of the episode. A bridge that stops writing closes the session.

use swf_robot::evidence::{malformed_message_record, proposal_timeout_record, ScenarioResult};
use swf_robot::gate::{Decision, ObservationRef, Policy, Proposal, ProposedAction};
use swf_robot::protocol::{
    message_kind, BridgeMsg, DecisionMsg, EpisodeEnd, Hello, HoldNotice, MessageKind, Outcome,
};
use swf_robot::session::{
    episode_id_for, ProtocolSession, SessionAction, SessionConfig, SessionEvent,
};

fn config() -> SessionConfig {
    SessionConfig {
        run_id: "run".into(),
        scenario_name: "case".into(),
        scenario_path: "unused.json".into(),
        bridge_path: "peer.py".into(),
        python: "python3".into(),
        backend: "mock".into(),
        evidence_dir: "evidence".into(),
        proposal_timeout_ms: 3000,
        policy: Policy::default(),
    }
}

fn hello() -> Hello {
    Hello {
        backend: "mock".into(),
        version: 1,
        simulation_tick_ns: 50_000_000,
        backend_label: String::new(),
    }
}

fn proposal() -> Proposal {
    Proposal {
        run_id: "run".into(),
        episode_id: "run-case".into(),
        action_id: "a".into(),
        simulation_tick: 0,
        simulation_time_ns: 0,
        observation: ObservationRef {
            observation_id: "obs-0".into(),
            capture_time_ns: 0,
        },
        simulated_stop: false,
        proposed_action: ProposedAction::Pickup {
            target: "cube".into(),
            segment: "approach".into(),
        },
    }
}

fn outcome() -> Outcome {
    Outcome {
        action_id: "a".into(),
        simulation_tick: 0,
        dispatched: true,
        action_kind: "task".into(),
        note: String::new(),
    }
}

fn end() -> EpisodeEnd {
    EpisodeEnd {
        success: true,
        reason: "cube_lifted".into(),
        ticks: 1,
    }
}

fn hold(tick: u64) -> HoldNotice {
    HoldNotice {
        simulation_tick: tick,
        simulation_time_ns: tick * 50_000_000,
        reason: "hold".into(),
    }
}

/// What the bridge sends, and what it checks of each decision it reads.
enum Step {
    Emit(BridgeMsg),
    Propose(Proposal),
}

fn check_echo(p: &Proposal, m: &DecisionMsg) {
    assert_eq!(m.msg_type, "decision");
    assert_eq!(m.run_id, "run");
    assert_eq!(m.episode_id, "run-case");
    assert_eq!(m.action_id, p.action_id);
    assert_eq!(m.simulation_tick, p.simulation_tick);
}

/// Runs a session over a scripted bridge; returns the result and the
/// decisions sent. A proposal made with `Propose` expects an answer.
fn run(script: Vec<Step>) -> (ScenarioResult, Vec<DecisionMsg>) {
    let mut session = ProtocolSession::new(&config());
    let mut sent = Vec::new();
    let mut stopped = false;
    for step in script {
        let (event, expect_answer, p) = match step {
            Step::Emit(m) => (SessionEvent::Message(m), false, None),
            Step::Propose(p) => (
                SessionEvent::Message(BridgeMsg::Proposal(p.clone())),
                true,
                Some(p),
            ),
        };
        match session.step(event) {
            SessionAction::Send(m) => {
                if let Some(p) = &p {
                    check_echo(p, &m);
                }
                sent.push(m);
            }
            SessionAction::Continue => assert!(!expect_answer, "the bridge awaited a decision"),
            SessionAction::Stop => {
                stopped = true;
                break;
            }
        }
    }
    if !stopped {
        assert!(matches!(session.step(SessionEvent::BridgeClosed), SessionAction::Stop));
    }
    (session.into_result(0), sent)
}

fn emit(m: BridgeMsg) -> Step {
    Step::Emit(m)
}

#[test]
fn counts_confirmed_dispatches_and_echoes_identity() {
    let (result, sent) = run(vec![
        emit(BridgeMsg::Hello(hello())),
        Step::Propose(proposal()),
        emit(BridgeMsg::Outcome(outcome())),
        emit(BridgeMsg::EpisodeEnd(end())),
    ]);
    assert_eq!(result.outcome, "cube_lifted");
    assert!(result.success);
    assert_eq!(result.decisions, 1);
    assert_eq!(result.task_dispatches, 1);
    assert_eq!(sent.len(), 1);
    assert_eq!(sent[0].decision, Decision::Permit);
}

#[test]
fn a_permit_without_an_outcome_is_not_a_dispatch() {
    let (result, _) = run(vec![emit(BridgeMsg::Hello(hello())), Step::Propose(proposal())]);
    assert_eq!(result.outcome, "bridge_died");
    assert_eq!(result.decisions, 1);
    assert_eq!(result.task_dispatches, 0);
    assert!(!result.success);
}

#[test]
fn rejection_is_recorded_without_dispatch() {
    let mut p = proposal();
    p.simulated_stop = true;
    let mut o = outcome();
    o.dispatched = false;
    let mut h = hold(0);
    h.reason = "rejection:emergency_stop".into();
    let mut e = end();
    e.success = false;
    e.reason = "emergency_stop".into();
    e.ticks = 0;
    let (result, sent) = run(vec![
        emit(BridgeMsg::Hello(hello())),
        Step::Propose(p),
        emit(BridgeMsg::Outcome(o)),
        emit(BridgeMsg::Hold(h)),
        emit(BridgeMsg::EpisodeEnd(e)),
    ]);
    assert!(!sent[0].decision.is_permit());
    assert_eq!(result.outcome, "emergency_stop");
    assert_eq!(result.task_dispatches, 0);
    assert_eq!(result.rejections, ["reject/emergency_stop"]);
}

#[test]
fn invalid_protocol_sequences_fail_closed() {
    let with = |f: &dyn Fn(&mut Proposal)| {
        let mut p = proposal();
        f(&mut p);
        p
    };
    let hello_with = |f: &dyn Fn(&mut Hello)| {
        let mut h = hello();
        f(&mut h);
        h
    };
    let outcome_with = |f: &dyn Fn(&mut Outcome)| {
        let mut o = outcome();
        f(&mut o);
        o
    };
    let stop = with(&|p| p.simulated_stop = true);
    let scripts: Vec<(&str, Vec<Step>)> = vec![
        ("proposal before hello", vec![emit(BridgeMsg::Proposal(proposal()))]),
        (
            "duplicate hello",
            vec![emit(BridgeMsg::Hello(hello())), emit(BridgeMsg::Hello(hello()))],
        ),
        (
            "wrong version",
            vec![emit(BridgeMsg::Hello(hello_with(&|h| h.version = 2)))],
        ),
        (
            "wrong backend",
            vec![emit(BridgeMsg::Hello(hello_with(&|h| h.backend = "robosuite".into())))],
        ),
        (
            "wrong clock",
            vec![emit(BridgeMsg::Hello(hello_with(&|h| h.simulation_tick_ns = 0)))],
        ),
        (
            "wrong run",
            vec![
                emit(BridgeMsg::Hello(hello())),
                emit(BridgeMsg::Proposal(with(&|p| p.run_id = "other".into()))),
            ],
        ),
        (
            "wrong episode",
            vec![
                emit(BridgeMsg::Hello(hello())),
                emit(BridgeMsg::Proposal(with(&|p| p.episode_id = "other".into()))),
            ],
        ),
        (
            "empty action",
            vec![
                emit(BridgeMsg::Hello(hello())),
                emit(BridgeMsg::Proposal(with(&|p| p.action_id = String::new()))),
            ],
        ),
        (
            "inconsistent time",
            vec![
                emit(BridgeMsg::Hello(hello())),
                emit(BridgeMsg::Proposal(with(&|p| p.simulation_time_ns = 1))),
            ],
        ),
        (
            "two pending proposals",
            vec![
                emit(BridgeMsg::Hello(hello())),
                Step::Propose(proposal()),
                emit(BridgeMsg::Proposal(proposal())),
            ],
        ),
        (
            "outcome before proposal",
            vec![emit(BridgeMsg::Hello(hello())), emit(BridgeMsg::Outcome(outcome()))],
        ),
        (
            "wrong outcome action",
            vec![
                emit(BridgeMsg::Hello(hello())),
                Step::Propose(proposal()),
                emit(BridgeMsg::Outcome(outcome_with(&|o| o.action_id = "b".into()))),
            ],
        ),
        (
            "wrong outcome tick",
            vec![
                emit(BridgeMsg::Hello(hello())),
                Step::Propose(proposal()),
                emit(BridgeMsg::Outcome(outcome_with(&|o| o.simulation_tick = 1))),
            ],
        ),
        (
            "wrong outcome kind",
            vec![
                emit(BridgeMsg::Hello(hello())),
                Step::Propose(proposal()),
                emit(BridgeMsg::Outcome(outcome_with(&|o| o.action_kind = "hold".into()))),
            ],
        ),
        (
            "dispatch after reject",
            vec![
                emit(BridgeMsg::Hello(hello())),
                Step::Propose(stop.clone()),
                emit(BridgeMsg::Outcome(outcome())),
            ],
        ),
        (
            "end before outcome",
            vec![
                emit(BridgeMsg::Hello(hello())),
                Step::Propose(proposal()),
                emit(BridgeMsg::EpisodeEnd(end())),
            ],
        ),
        (
            "success without dispatch",
            vec![emit(BridgeMsg::Hello(hello())), emit(BridgeMsg::EpisodeEnd(end()))],
        ),
        (
            "hold before outcome",
            vec![
                emit(BridgeMsg::Hello(hello())),
                Step::Propose(proposal()),
                emit(BridgeMsg::Hold(hold(1))),
            ],
        ),
    ];
    for (label, script) in scripts {
        let (result, _) = run(script);
        assert_eq!(result.outcome, "protocol_error", "{label}");
        assert!(!result.success, "{label}");
        assert_eq!(result.task_dispatches, 0, "{label}");
    }
}

#[test]
fn repeated_actions_outcomes_and_regressing_ticks_are_rejected() {
    let mut later_same_id = proposal();
    later_same_id.simulation_tick = 1;
    later_same_id.simulation_time_ns = 50_000_000;
    let mut new_id_same_tick = proposal();
    new_id_same_tick.action_id = "b".into();
    let mut early_end = end();
    early_end.ticks = 0;
    let scripts: Vec<Vec<Step>> = vec![
        vec![emit(BridgeMsg::Outcome(outcome()))],
        vec![emit(BridgeMsg::Proposal(later_same_id))],
        vec![emit(BridgeMsg::Proposal(new_id_same_tick))],
        vec![emit(BridgeMsg::EpisodeEnd(early_end))],
        vec![emit(BridgeMsg::Hold(hold(2))), emit(BridgeMsg::Hold(hold(1)))],
    ];
    for tail in scripts {
        let mut script = vec![
            emit(BridgeMsg::Hello(hello())),
            Step::Propose(proposal()),
            emit(BridgeMsg::Outcome(outcome())),
        ];
        script.extend(tail);
        let (result, _) = run(script);
        assert_eq!(result.outcome, "protocol_error");
        assert_eq!(result.task_dispatches, 1);
    }
}

#[test]
fn malformed_messages_are_logged_as_valid_json() {
    // The bridge sent {"type": "unknown\"message"}: an unknown type.
    let tag = "unknown\"message";
    assert_eq!(message_kind(tag), None);
    let error = format!("unknown message type: {tag:?}");
    let mut session = ProtocolSession::new(&config());
    assert!(matches!(session.step(SessionEvent::Malformed), SessionAction::Stop));
    let result = session.into_result(0);
    assert_eq!(result.outcome, "protocol_error");
    let line = malformed_message_record(&error);
    let event: serde_json::Value = serde_json::from_str(&line).unwrap();
    assert_eq!(event["session"], "malformed_message");
    assert!(event["error"].as_str().unwrap().contains("unknown"));
    assert_eq!(event["error"].as_str().unwrap(), error);
}

#[test]
fn timeouts_reap_the_bridge_and_never_imply_dispatch() {
    let mut session = ProtocolSession::new(&config());
    assert!(matches!(
        session.step(SessionEvent::Message(BridgeMsg::Hello(hello()))),
        SessionAction::Continue
    ));
    assert!(matches!(session.step(SessionEvent::Timeout), SessionAction::Stop));
    let result = session.into_result(300);
    assert_eq!(result.outcome, "timeout");
    assert_eq!(result.task_dispatches, 0);
    assert!(result.wall_time_ms < 3_000);
    let record: serde_json::Value = serde_json::from_str(&proposal_timeout_record()).unwrap();
    assert_eq!(record["session"], "proposal_timeout");
}

#[test]
fn message_kinds_follow_the_type_tag() {
    assert_eq!(message_kind("hello"), Some(MessageKind::Hello));
    assert_eq!(message_kind("proposal"), Some(MessageKind::Proposal));
    assert_eq!(message_kind("outcome"), Some(MessageKind::Outcome));
    assert_eq!(message_kind("hold"), Some(MessageKind::Hold));
    assert_eq!(message_kind("episode_end"), Some(MessageKind::EpisodeEnd));
    assert_eq!(message_kind("Hello"), None);
}

#[test]
fn stale_proposals_are_rejected_and_recorded() {
    let mut p = proposal();
    p.simulation_tick = 20;
    p.simulation_time_ns = 20 * 50_000_000;
    p.observation.capture_time_ns = p.simulation_time_ns - 600_000_000;
    let mut o = outcome();
    o.simulation_tick = 20;
    o.dispatched = false;
    let mut e = end();
    e.success = false;
    e.reason = "rejected_stale".into();
    e.ticks = 20;
    let (result, sent) = run(vec![
        emit(BridgeMsg::Hello(hello())),
        Step::Propose(p),
        emit(BridgeMsg::Outcome(o)),
        emit(BridgeMsg::EpisodeEnd(e)),
    ]);
    assert_eq!(sent[0].decision.to_string(), "reject/stale_perception(age=600ms)");
    assert_eq!(result.rejections, ["reject/stale_perception(age=600ms)"]);
    assert_eq!(result.outcome, "rejected_stale");
    assert_eq!(result.decisions, 1);
    assert_eq!(result.task_dispatches, 0);
    assert_eq!(result.ticks, 20);
}

#[test]
fn a_finished_session_ignores_further_events() {
    let mut session = ProtocolSession::new(&config());
    assert!(matches!(session.step(SessionEvent::Timeout), SessionAction::Stop));
    assert!(matches!(
        session.step(SessionEvent::Message(BridgeMsg::Hello(hello()))),
        SessionAction::Stop
    ));
    assert!(session.is_finished());
    assert_eq!(session.into_result(0).outcome, "timeout");
}

#[test]
fn failures_of_the_bridge_end_the_episode() {
    for (event, outcome) in [
        (SessionEvent::BridgeClosed, "bridge_died"),
        (SessionEvent::WriteFailed, "bridge_died"),
        (SessionEvent::Malformed, "protocol_error"),
        (SessionEvent::Timeout, "timeout"),
    ] {
        let mut session = ProtocolSession::new(&config());
        session.step(SessionEvent::Message(BridgeMsg::Hello(hello())));
        assert!(matches!(session.step(event), SessionAction::Stop));
        let result = session.into_result(0);
        assert_eq!(result.outcome, outcome);
        assert!(!result.success);
    }
}

#[test]
fn the_episode_id_joins_run_and_scenario() {
    assert_eq!(episode_id_for("run", "case"), "run-case");
}

#[test]
fn hello_sets_the_backend_label() {
    let mut h = hello();
    h.backend_label = "mock (NOT robosuite SIL)".into();
    let mut session = ProtocolSession::new(&config());
    session.step(SessionEvent::Message(BridgeMsg::Hello(h)));
    session.step(SessionEvent::BridgeClosed);
    assert_eq!(session.into_result(0).backend, "mock (NOT robosuite SIL)");
    let untouched = ProtocolSession::new(&config());
    assert_eq!(untouched.into_result(0).backend, "unknown");
}

#[test]
fn a_run_decides_each_accepted_proposal_and_records_rejections_in_order() {
    // Three proposals: a stop, a permit, and a stale observation.
    let mut first = proposal();
    first.simulated_stop = true;
    let mut second = proposal();
    second.action_id = "b".into();
    second.simulation_tick = 1;
    second.simulation_time_ns = 50_000_000;
    let mut third = proposal();
    third.action_id = "c".into();
    third.simulation_tick = 20;
    third.simulation_time_ns = 1_000_000_000;
    let answered = |id: &str, tick: u64, dispatched: bool| Outcome {
        action_id: id.into(),
        simulation_tick: tick,
        dispatched,
        action_kind: "task".into(),
        note: String::new(),
    };
    let (result, sent) = run(vec![
        emit(BridgeMsg::Hello(hello())),
        Step::Propose(first),
        emit(BridgeMsg::Outcome(answered("a", 0, false))),
        Step::Propose(second),
        emit(BridgeMsg::Outcome(answered("b", 1, true))),
        Step::Propose(third),
        emit(BridgeMsg::Outcome(answered("c", 20, false))),
    ]);
    assert_eq!(sent.len(), 3);
    assert_eq!(result.decisions, 3);
    assert_eq!(
        result.rejections,
        ["reject/emergency_stop", "reject/stale_perception(age=1000ms)"]
    );
    assert_eq!(result.task_dispatches, 1);
    assert!(result.task_dispatches <= result.decisions - result.rejections.len() as u32);
    assert_eq!(result.outcome, "bridge_died");
    assert!(!result.success);
}

#[test]
fn a_run_that_times_out_is_unsuccessful() {
    let mut session = ProtocolSession::new(&config());
    assert!(matches!(
        session.step(SessionEvent::Message(BridgeMsg::Hello(hello()))),
        SessionAction::Continue
    ));
    assert!(matches!(session.step(SessionEvent::Timeout), SessionAction::Stop));
    let result = session.into_result(5);
    assert_eq!(result.outcome, "timeout");
    assert!(!result.success);
    assert_eq!(result.decisions, 0);
}
