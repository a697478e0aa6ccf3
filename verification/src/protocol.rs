//! Messages of the line-delimited protocol between the session (parent) and
//! the simulator bridge (child). One JSON object per line, both directions;
//! the bridge's messages carry a `type` tag that selects their payload.

use vstd::prelude::*;
use crate::gate::{Decision, Proposal};
use crate::text::str_eq;

verus! {

/// The `type` tag of a bridge message, read before its payload.
#[derive(Debug, Clone)]
pub struct TypeTag {
    pub msg_type: String,
}

#[derive(Debug, Clone)]
pub struct Hello {
    pub backend: String,
    pub version: u32,
    pub simulation_tick_ns: u64,
    /// Free-form backend label, e.g. "mock (NOT robosuite SIL)".
    pub backend_label: String,
}

/// A task-action proposal is exactly the dispatch gate's `Proposal` on the wire.
pub type ProposalMsg = Proposal;

#[derive(Debug, Clone)]
pub struct Outcome {
    pub action_id: String,
    pub simulation_tick: u64,
    pub dispatched: bool,
    pub action_kind: String,
    pub note: String,
}

/// Explicit hold step: physics may advance, but no task action is
/// dispatched.
#[derive(Debug, Clone)]
pub struct HoldNotice {
    pub simulation_tick: u64,
    pub simulation_time_ns: u64,
    pub reason: String,
}

/// End of an episode as the bridge reports it. The bridge also reports the
/// cube height, a measurement that no decision reads; it stays with the
/// wire copy of this message.
#[derive(Debug, Clone)]
pub struct EpisodeEnd {
    pub success: bool,
    pub reason: String,
    pub ticks: u64,
}

#[derive(Debug, Clone)]
pub enum BridgeMsg {
    Hello(Hello),
    Proposal(ProposalMsg),
    Outcome(Outcome),
    Hold(HoldNotice),
    EpisodeEnd(EpisodeEnd),
}

/// Which payload a `type` tag announces.
#[derive(Debug, Clone, Copy, PartialEq, Eq, Structural)]
pub enum MessageKind {
    Hello,
    Proposal,
    Outcome,
    Hold,
    EpisodeEnd,
}

pub open spec fn message_kind_spec(tag: Seq<char>) -> Option<MessageKind> {
    if tag == "hello"@ {
        Some(MessageKind::Hello)
    } else if tag == "proposal"@ {
        Some(MessageKind::Proposal)
    } else if tag == "outcome"@ {
        Some(MessageKind::Outcome)
    } else if tag == "hold"@ {
        Some(MessageKind::Hold)
    } else if tag == "episode_end"@ {
        Some(MessageKind::EpisodeEnd)
    } else {
        None
    }
}

/// The payload kind for a `type` tag; `None` for an unknown type.
pub fn message_kind(tag: &str) -> (k: Option<MessageKind>)
    ensures
        k == message_kind_spec(tag@),
{
    if str_eq(tag, "hello") {
        Some(MessageKind::Hello)
    } else if str_eq(tag, "proposal") {
        Some(MessageKind::Proposal)
    } else if str_eq(tag, "outcome") {
        Some(MessageKind::Outcome)
    } else if str_eq(tag, "hold") {
        Some(MessageKind::Hold)
    } else if str_eq(tag, "episode_end") {
        Some(MessageKind::EpisodeEnd)
    } else {
        None
    }
}

/// Parent -> child decision. Echoes run/episode/action/tick identifiers so an
/// approval is valid only for the exact proposed action at the exact tick.
#[derive(Debug, Clone)]
pub struct DecisionMsg {
    pub msg_type: &'static str,
    pub run_id: String,
    pub episode_id: String,
    pub action_id: String,
    pub simulation_tick: u64,
    pub decision: Decision,
}

/// The decision message that answers `p` with `d`.
pub open spec fn decision_msg_for(p: Proposal, d: Decision) -> DecisionMsg {
    DecisionMsg {
        msg_type: "decision",
        run_id: p.run_id,
        episode_id: p.episode_id,
        action_id: p.action_id,
        simulation_tick: p.simulation_tick,
        decision: d,
    }
}

impl DecisionMsg {
    pub fn for_proposal(proposal: &Proposal, decision: Decision) -> (m: Self)
        ensures
            m == decision_msg_for(*proposal, decision),
    {
        DecisionMsg {
            msg_type: "decision",
            run_id: proposal.run_id.clone(),
            episode_id: proposal.episode_id.clone(),
            action_id: proposal.action_id.clone(),
            simulation_tick: proposal.simulation_tick,
            decision,
        }
    }
}

/// An approval echoes exactly the identity of the proposal it answers:
/// run, episode, action and simulation tick.
pub proof fn law_decision_echoes_identity(p: Proposal, d: Decision)
    ensures
        decision_msg_for(p, d).run_id@ == p.run_id@,
        decision_msg_for(p, d).episode_id@ == p.episode_id@,
        decision_msg_for(p, d).action_id@ == p.action_id@,
        decision_msg_for(p, d).simulation_tick == p.simulation_tick,
        decision_msg_for(p, d).decision == d,
{
}

} // verus!
