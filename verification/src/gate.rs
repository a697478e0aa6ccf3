//! The dispatch gate: the pure decision contract that sits between the
//! scripted controller and the simulator.
//!
//! Every guarded task action is proposed together with the observation it was
//! computed from; the dispatch gate permits or rejects dispatch. Observations older
//! than the configured threshold (250 ms by default) are rejected as stale.

use vstd::prelude::*;
use crate::text::{decimal, push_decimal, push_str};

verus! {

/// Demo policy threshold. 250 ms is an illustrative demo value, not an
/// established safe threshold for physical robots.
pub const DEFAULT_MAX_OBSERVATION_AGE_MS: u64 = 250;

pub const NS_PER_MS: u64 = 1_000_000;

#[derive(Debug, Clone, Copy, PartialEq, Eq, Structural)]
pub struct Policy {
    pub max_observation_age_ms: u64,
}

impl Default for Policy {
    fn default() -> (p: Self)
        ensures
            p.max_observation_age_ms == DEFAULT_MAX_OBSERVATION_AGE_MS,
    {
        Policy { max_observation_age_ms: DEFAULT_MAX_OBSERVATION_AGE_MS }
    }
}

/// Reference to the observation a proposal was computed from.
#[derive(Debug, Clone, PartialEq, Eq)]
pub struct ObservationRef {
    pub observation_id: String,
    pub capture_time_ns: u64,
}

/// A guarded task action. Only task actions reach the dispatch gate; hold steps are
/// taken unilaterally by the bridge and are labeled separately in the trace.
#[derive(Debug, Clone, PartialEq, Eq)]
pub enum ProposedAction {
    Pickup { target: String, segment: String },
}

#[derive(Debug, Clone, PartialEq, Eq)]
pub struct Proposal {
    pub run_id: String,
    pub episode_id: String,
    pub action_id: String,
    pub simulation_tick: u64,
    pub simulation_time_ns: u64,
    pub observation: ObservationRef,
    pub simulated_stop: bool,
    pub proposed_action: ProposedAction,
}

#[derive(Debug, Clone, Copy, PartialEq, Eq, Structural)]
pub enum RejectionReason {
    EmergencyStop,
    InvalidTimestamp,
    StalePerception { age_ms: u64 },
}

#[derive(Debug, Clone, Copy, PartialEq, Eq, Structural)]
pub enum Decision {
    Permit,
    Reject { reason: RejectionReason },
}

/// Age of the proposal's observation in whole milliseconds (rounded down),
/// measured on the simulation clock.
pub open spec fn observation_age_ms(p: Proposal) -> int {
    (p.simulation_time_ns - p.observation.capture_time_ns) / (NS_PER_MS as int)
}

/// The dispatch gate's decision. Evaluation order is contractual:
///   1. simulated emergency stop, which precedes every other check;
///   2. timestamp validity: a capture time after the simulation time rejects;
///   3. freshness: an age above the policy threshold rejects as stale;
///      exactly the threshold permits.
pub open spec fn decision_for(p: Proposal, policy: Policy) -> Decision {
    if p.simulated_stop {
        Decision::Reject { reason: RejectionReason::EmergencyStop }
    } else if p.observation.capture_time_ns > p.simulation_time_ns {
        Decision::Reject { reason: RejectionReason::InvalidTimestamp }
    } else if observation_age_ms(p) > policy.max_observation_age_ms {
        Decision::Reject {
            reason: RejectionReason::StalePerception { age_ms: observation_age_ms(p) as u64 },
        }
    } else {
        Decision::Permit
    }
}

/// Evaluate a task-action proposal at the final dispatch decision point.
pub fn decide(proposal: &Proposal, policy: &Policy) -> (d: Decision)
    ensures
        d == decision_for(*proposal, *policy),
        proposal.simulated_stop ==> d == (Decision::Reject {
            reason: RejectionReason::EmergencyStop,
        }),
        d is Permit ==> !proposal.simulated_stop && proposal.observation.capture_time_ns
            <= proposal.simulation_time_ns && observation_age_ms(*proposal)
            <= policy.max_observation_age_ms,
{
    if proposal.simulated_stop {
        return Decision::Reject { reason: RejectionReason::EmergencyStop };
    }
    if proposal.observation.capture_time_ns > proposal.simulation_time_ns {
        return Decision::Reject { reason: RejectionReason::InvalidTimestamp };
    }
    let age_ms = (proposal.simulation_time_ns - proposal.observation.capture_time_ns) / NS_PER_MS;
    if age_ms > policy.max_observation_age_ms {
        return Decision::Reject { reason: RejectionReason::StalePerception { age_ms } };
    }
    Decision::Permit
}

impl Decision {
    pub fn is_permit(&self) -> (r: bool)
        ensures
            r == (*self is Permit),
    {
        match self {
            Decision::Permit => true,
            Decision::Reject { .. } => false,
        }
    }

    /// The text of a decision, as the evidence records it:
    /// `permit`, or `reject/` followed by the reason.
    pub fn to_string(&self) -> (s: String)
        ensures
            s@ == decision_text(*self),
    {
        match self {
            Decision::Permit => String::from_str("permit"),
            Decision::Reject { reason } => {
                let mut s = String::from_str("reject/");
                reason.push_text(&mut s);
                s
            },
        }
    }
}

/// The text of a rejection reason: `emergency_stop`, `invalid_timestamp`
/// or `stale_perception(age=<n>ms)`.
pub open spec fn reason_text(r: RejectionReason) -> Seq<char> {
    match r {
        RejectionReason::EmergencyStop => "emergency_stop"@,
        RejectionReason::InvalidTimestamp => "invalid_timestamp"@,
        RejectionReason::StalePerception { age_ms } => "stale_perception(age="@ + decimal(
            age_ms as nat,
        ) + "ms)"@,
    }
}

pub open spec fn decision_text(d: Decision) -> Seq<char> {
    match d {
        Decision::Permit => "permit"@,
        Decision::Reject { reason } => "reject/"@ + reason_text(reason),
    }
}

impl RejectionReason {
    fn push_text(&self, s: &mut String)
        ensures
            final(s)@ == old(s)@ + reason_text(*self),
    {
        match self {
            RejectionReason::EmergencyStop => push_str(s, "emergency_stop"),
            RejectionReason::InvalidTimestamp => push_str(s, "invalid_timestamp"),
            RejectionReason::StalePerception { age_ms } => {
                let ghost start = s@;
                push_str(s, "stale_perception(age=");
                push_decimal(s, *age_ms as u128);
                push_str(s, "ms)");
                assert(s@ =~= start + reason_text(*self));
            },
        }
    }

    /// The text of a rejection reason.
    pub fn to_string(&self) -> (s: String)
        ensures
            s@ == reason_text(*self),
    {
        let mut s = String::new();
        self.push_text(&mut s);
        assert(s@ =~= reason_text(*self));
        s
    }
}

// ---------------------------------------------------------------------
// Laws of the dispatch gate
// ---------------------------------------------------------------------

/// The decision depends on nothing but the stop flag, the two clock readings
/// and the threshold: identifiers, tick numbers and the proposed action never
/// change it.
pub proof fn law_decision_ignores_identity(p: Proposal, q: Proposal, policy: Policy)
    requires
        p.simulated_stop == q.simulated_stop,
        p.simulation_time_ns == q.simulation_time_ns,
        p.observation.capture_time_ns == q.observation.capture_time_ns,
    ensures
        decision_for(p, policy) == decision_for(q, policy),
{
}

/// Loosening the threshold never turns a permit into a rejection, and
/// tightening it never turns a stale rejection into a permit.
pub proof fn law_threshold_monotone(p: Proposal, tight: Policy, loose: Policy)
    requires
        tight.max_observation_age_ms <= loose.max_observation_age_ms,
    ensures
        decision_for(p, tight) is Permit ==> decision_for(p, loose) is Permit,
        (decision_for(p, loose) matches Decision::Reject {
            reason: RejectionReason::StalePerception { .. },
        }) ==> decision_for(p, tight) == decision_for(p, loose),
{
}

/// A proposal is permitted exactly when no stop is requested, its
/// observation was not captured in the future, and its age is at most the
/// threshold; a stale rejection reports the observed age, which exceeds it.
pub proof fn law_permit_iff_fresh(p: Proposal, policy: Policy)
    ensures
        decision_for(p, policy) is Permit <==> (!p.simulated_stop
            && p.observation.capture_time_ns <= p.simulation_time_ns && observation_age_ms(p)
            <= policy.max_observation_age_ms),
        decision_for(p, policy) matches Decision::Reject {
            reason: RejectionReason::StalePerception { age_ms },
        } ==> age_ms == observation_age_ms(p) && age_ms > policy.max_observation_age_ms,
{
}

/// The age is measured in whole milliseconds: for a valid timestamp it is
/// the nanosecond difference divided by one million, rounded down, so an
/// observation exactly at the threshold is permitted and one millisecond
/// beyond it is stale.
pub proof fn law_age_boundary(p: Proposal, policy: Policy)
    requires
        !p.simulated_stop,
        p.observation.capture_time_ns <= p.simulation_time_ns,
    ensures
        p.simulation_time_ns - p.observation.capture_time_ns <= (
        policy.max_observation_age_ms as int + 1) * NS_PER_MS - 1 ==> decision_for(p, policy) is Permit,
        p.simulation_time_ns - p.observation.capture_time_ns >= (
        policy.max_observation_age_ms as int + 1) * NS_PER_MS ==> !(decision_for(p, policy) is Permit),
{
    let diff = p.simulation_time_ns - p.observation.capture_time_ns;
    let m = policy.max_observation_age_ms as int;
    assert(diff <= (m + 1) * 1000000 - 1 ==> diff / 1000000 <= m) by (nonlinear_arith)
        requires
            diff >= 0,
            m >= 0,
    ;
    assert(diff >= (m + 1) * 1000000 ==> diff / 1000000 > m) by (nonlinear_arith)
        requires
            diff >= 0,
            m >= 0,
    ;
}

} // verus!
