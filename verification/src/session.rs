//! The lock-step session between the dispatch gate and the simulator bridge, as a
//! state machine from state and event to next state and action. The caller
//! owns the bridge process, reads its lines, performs the actions and hands
//! back what happened.
//!
//! Invariants enforced here:
//!   * one task action outstanding at a time: the bridge awaits a decision,
//!     then reports the outcome of exactly that action;
//!   * a missing, malformed or timed-out bridge message fails the episode
//!     explicitly, never a default authorization;
//!   * approvals echo the exact action id and simulation tick;
//!   * rejections produce no task-action dispatch; hold steps are labeled;
//!   * simulation ticks never run backwards and every action id is used once.
//!
//! Wall-clock timeouts govern the session; the task contract uses the
//! simulation clock carried inside proposals. The two never mix.

use vstd::prelude::*;
use crate::evidence::ScenarioResult;
use crate::gate::{decide, decision_for, decision_text, Decision, Policy, Proposal};
use crate::protocol::{
    decision_msg_for, BridgeMsg, DecisionMsg, EpisodeEnd, Hello, HoldNotice, Outcome,
};
use crate::text::{push_char, push_str};

verus! {

/// Configuration of one session. Paths are file system paths as text; the
/// timeout bounds the wait for each bridge message, in milliseconds.
#[derive(Debug, Clone)]
pub struct SessionConfig {
    pub run_id: String,
    pub scenario_name: String,
    pub scenario_path: String,
    pub bridge_path: String,
    pub python: String,
    pub backend: String,
    pub evidence_dir: String,
    pub proposal_timeout_ms: u64,
    pub policy: Policy,
}

/// The episode id the bridge is started with: `<run_id>-<scenario_name>`.
pub open spec fn episode_id_spec(run_id: Seq<char>, scenario: Seq<char>) -> Seq<char> {
    run_id + seq!['-'] + scenario
}

pub fn episode_id_for(run_id: &str, scenario_name: &str) -> (e: String)
    ensures
        e@ == episode_id_spec(run_id@, scenario_name@),
{
    let mut e = String::from_str(run_id);
    push_char(&mut e, '-');
    push_str(&mut e, scenario_name);
    e
}

/// What happened since the last step.
#[derive(Debug, Clone)]
pub enum SessionEvent {
    /// A well-formed bridge message.
    Message(BridgeMsg),
    /// A line that is not a valid bridge message.
    Malformed,
    /// No line arrived within the proposal timeout.
    Timeout,
    /// The bridge closed its output (it exited).
    BridgeClosed,
    /// A decision could not be written to the bridge.
    WriteFailed,
}

/// What the caller does next.
#[derive(Debug, Clone)]
pub enum SessionAction {
    /// Read the next line.
    Continue,
    /// Write this decision to the bridge, then read the next line.
    Send(DecisionMsg),
    /// The episode is over; collect the result.
    Stop,
}

/// The proposal that awaits its outcome.
#[derive(Debug, Clone)]
struct Pending {
    action_id: String,
    simulation_tick: u64,
    permitted: bool,
}

#[derive(Debug, Clone)]
enum Phase {
    AwaitHello,
    Ready,
    AwaitOutcome(Pending),
    Finished,
}

/// The abstract phase of a session.
pub enum PhaseView {
    AwaitHello,
    Ready,
    AwaitOutcome { action_id: Seq<char>, simulation_tick: u64, permitted: bool },
    Finished,
}

/// The abstract state of a session.
pub struct SessionView {
    pub run_id: Seq<char>,
    pub episode_id: Seq<char>,
    pub backend: Seq<char>,
    pub scenario: Seq<char>,
    pub policy: Policy,
    pub phase: PhaseView,
    /// Simulation clock period announced by the hello message.
    pub tick_ns: u64,
    pub backend_label: Seq<char>,
    /// Action ids of every proposal answered so far.
    pub seen_actions: Seq<Seq<char>>,
    /// Latest simulation tick reported by any message.
    pub last_tick: u64,
    pub last_proposal_tick: Option<u64>,
    pub last_dispatch_tick: Option<u64>,
    pub decisions: nat,
    pub dispatches: nat,
    pub rejections: Seq<Seq<char>>,
    pub outcome: Seq<char>,
    pub success: bool,
    pub ticks: u64,
}

/// The state of a session that has not heard from the bridge yet.
pub open spec fn initial_view(cfg: SessionConfig) -> SessionView {
    SessionView {
        run_id: cfg.run_id@,
        episode_id: episode_id_spec(cfg.run_id@, cfg.scenario_name@),
        backend: cfg.backend@,
        scenario: cfg.scenario_name@,
        policy: cfg.policy,
        phase: PhaseView::AwaitHello,
        tick_ns: 0,
        backend_label: "unknown"@,
        seen_actions: seq![],
        last_tick: 0,
        last_proposal_tick: None,
        last_dispatch_tick: None,
        decisions: 0,
        dispatches: 0,
        rejections: seq![],
        outcome: "bridge_died"@,
        success: false,
        ticks: 0,
    }
}

pub open spec fn max_u64(a: u64, b: u64) -> u64 {
    if a >= b {
        a
    } else {
        b
    }
}

/// The episode ends unsuccessfully with the given outcome.
pub open spec fn fail(s: SessionView, outcome: Seq<char>) -> SessionView {
    SessionView { phase: PhaseView::Finished, outcome, success: false, ..s }
}

/// The simulation clock reading that belongs to `tick`.
pub open spec fn clock_consistent(s: SessionView, tick: u64, time_ns: u64) -> bool {
    time_ns as int == tick as int * s.tick_ns as int
}

/// A hello is accepted once, first, for the configured backend, with
/// protocol version 1 and a running simulation clock.
pub open spec fn hello_ok(s: SessionView, h: Hello) -> bool {
    &&& s.phase is AwaitHello
    &&& h.version == 1
    &&& h.backend@ == s.backend
    &&& h.simulation_tick_ns > 0
}

/// A proposal is accepted when no other action is outstanding, it belongs to
/// this run and episode, its action id is new and not empty, its clock reading
/// matches its tick, and its tick is later than every earlier proposal and no
/// earlier than anything reported before.
pub open spec fn proposal_ok(s: SessionView, p: Proposal) -> bool {
    &&& s.phase is Ready
    &&& p.run_id@ == s.run_id
    &&& p.episode_id@ == s.episode_id
    &&& p.action_id@.len() > 0
    &&& !s.seen_actions.contains(p.action_id@)
    &&& clock_consistent(s, p.simulation_tick, p.simulation_time_ns)
    &&& p.simulation_tick >= s.last_tick
    &&& (s.last_proposal_tick matches Some(t) ==> p.simulation_tick > t)
    &&& s.decisions < u32::MAX
}

/// An outcome is accepted only for the outstanding proposal, at its tick,
/// as a task action, and it may report a dispatch only of a permitted one.
pub open spec fn outcome_ok(s: SessionView, o: Outcome) -> bool {
    &&& s.phase matches PhaseView::AwaitOutcome { action_id, simulation_tick, permitted }
    &&& o.action_id@ == action_id
    &&& o.simulation_tick == simulation_tick
    &&& o.action_kind@ == "task"@
    &&& (o.dispatched ==> permitted)
}

/// A hold is accepted between actions, on the simulation clock, and never
/// at an earlier tick than anything reported before.
pub open spec fn hold_ok(s: SessionView, h: HoldNotice) -> bool {
    &&& s.phase is Ready
    &&& h.simulation_tick >= s.last_tick
    &&& clock_consistent(s, h.simulation_tick, h.simulation_time_ns)
}

/// The end of an episode is accepted between actions; success needs at
/// least one confirmed dispatch; the tick count covers every reported tick
/// and runs past the last dispatch.
pub open spec fn end_ok(s: SessionView, e: EpisodeEnd) -> bool {
    &&& s.phase is Ready
    &&& (e.success ==> s.dispatches > 0)
    &&& e.ticks >= s.last_tick
    &&& (s.last_dispatch_tick matches Some(t) ==> e.ticks > t)
}

pub open spec fn on_hello(s: SessionView, h: Hello) -> SessionView {
    if hello_ok(s, h) {
        SessionView {
            phase: PhaseView::Ready,
            tick_ns: h.simulation_tick_ns,
            backend_label: h.backend_label@,
            ..s
        }
    } else {
        fail(s, "protocol_error"@)
    }
}

pub open spec fn on_proposal(s: SessionView, p: Proposal) -> SessionView {
    if proposal_ok(s, p) {
        let d = decision_for(p, s.policy);
        SessionView {
            phase: PhaseView::AwaitOutcome {
                action_id: p.action_id@,
                simulation_tick: p.simulation_tick,
                permitted: d is Permit,
            },
            seen_actions: s.seen_actions.push(p.action_id@),
            last_tick: p.simulation_tick,
            last_proposal_tick: Some(p.simulation_tick),
            decisions: s.decisions + 1,
            rejections: if d is Permit {
                s.rejections
            } else {
                s.rejections.push(decision_text(d))
            },
            ..s
        }
    } else {
        fail(s, "protocol_error"@)
    }
}

pub open spec fn on_outcome(s: SessionView, o: Outcome) -> SessionView {
    if outcome_ok(s, o) {
        SessionView {
            phase: PhaseView::Ready,
            dispatches: if o.dispatched {
                s.dispatches + 1
            } else {
                s.dispatches
            },
            last_dispatch_tick: if o.dispatched {
                Some(o.simulation_tick)
            } else {
                s.last_dispatch_tick
            },
            ..s
        }
    } else {
        fail(s, "protocol_error"@)
    }
}

pub open spec fn on_hold(s: SessionView, h: HoldNotice) -> SessionView {
    if hold_ok(s, h) {
        SessionView {
            last_tick: h.simulation_tick,
            ticks: max_u64(s.ticks, h.simulation_tick),
            ..s
        }
    } else {
        fail(s, "protocol_error"@)
    }
}

pub open spec fn on_end(s: SessionView, e: EpisodeEnd) -> SessionView {
    if end_ok(s, e) {
        SessionView {
            phase: PhaseView::Finished,
            outcome: e.reason@,
            success: e.success,
            ticks: max_u64(s.ticks, e.ticks),
            ..s
        }
    } else {
        fail(s, "protocol_error"@)
    }
}

/// The next state of a session.
pub open spec fn next_view(s: SessionView, e: SessionEvent) -> SessionView {
    if s.phase is Finished {
        s
    } else {
        match e {
            SessionEvent::Message(BridgeMsg::Hello(h)) => on_hello(s, h),
            SessionEvent::Message(BridgeMsg::Proposal(p)) => on_proposal(s, p),
            SessionEvent::Message(BridgeMsg::Outcome(o)) => on_outcome(s, o),
            SessionEvent::Message(BridgeMsg::Hold(h)) => on_hold(s, h),
            SessionEvent::Message(BridgeMsg::EpisodeEnd(x)) => on_end(s, x),
            SessionEvent::Malformed => fail(s, "protocol_error"@),
            SessionEvent::Timeout => fail(s, "timeout"@),
            SessionEvent::BridgeClosed => fail(s, "bridge_died"@),
            SessionEvent::WriteFailed => fail(s, "bridge_died"@),
        }
    }
}

/// What the caller does after the event: an accepted proposal is answered
/// with the dispatch gate's decision; a finished episode stops; otherwise read on.
pub open spec fn next_action(s: SessionView, e: SessionEvent) -> SessionAction {
    if !(s.phase is Finished) && (e matches SessionEvent::Message(BridgeMsg::Proposal(p))
        && proposal_ok(s, p)) {
        let p = e->Message_0->Proposal_0;
        SessionAction::Send(decision_msg_for(p, decision_for(p, s.policy)))
    } else if next_view(s, e).phase is Finished {
        SessionAction::Stop
    } else {
        SessionAction::Continue
    }
}

/// The invariant every reachable session state keeps.
pub open spec fn session_wf(s: SessionView) -> bool {
    &&& s.decisions <= u32::MAX
    &&& s.seen_actions.len() == s.decisions
    &&& s.dispatches + s.rejections.len() <= s.decisions
    &&& (s.success ==> s.phase is Finished && s.dispatches > 0)
    &&& (s.phase is AwaitOutcome ==> s.decisions > 0)
    &&& (s.phase matches PhaseView::AwaitOutcome { permitted, .. } ==> (permitted
        ==> s.dispatches + s.rejections.len() < s.decisions))
    &&& (s.last_dispatch_tick is Some ==> s.dispatches > 0)
}

/// The fields of a session.
struct SessionState {
    run_id: String,
    episode_id: String,
    backend: String,
    scenario: String,
    policy: Policy,
    phase: Phase,
    tick_ns: u64,
    backend_label: String,
    seen_actions: Vec<String>,
    last_tick: u64,
    last_proposal_tick: Option<u64>,
    last_dispatch_tick: Option<u64>,
    decisions: u32,
    dispatches: u32,
    rejections: Vec<String>,
    outcome: String,
    success: bool,
    ticks: u64,
}

pub open spec fn string_views(v: Seq<String>) -> Seq<Seq<char>> {
    Seq::new(v.len(), |i: int| v[i]@)
}

spec fn phase_view(p: Phase) -> PhaseView {
    match p {
        Phase::AwaitHello => PhaseView::AwaitHello,
        Phase::Ready => PhaseView::Ready,
        Phase::AwaitOutcome(pending) => PhaseView::AwaitOutcome {
            action_id: pending.action_id@,
            simulation_tick: pending.simulation_tick,
            permitted: pending.permitted,
        },
        Phase::Finished => PhaseView::Finished,
    }
}

impl View for SessionState {
    type V = SessionView;

    closed spec fn view(&self) -> SessionView {
        SessionView {
            run_id: self.run_id@,
            episode_id: self.episode_id@,
            backend: self.backend@,
            scenario: self.scenario@,
            policy: self.policy,
            phase: phase_view(self.phase),
            tick_ns: self.tick_ns,
            backend_label: self.backend_label@,
            seen_actions: string_views(self.seen_actions@),
            last_tick: self.last_tick,
            last_proposal_tick: self.last_proposal_tick,
            last_dispatch_tick: self.last_dispatch_tick,
            decisions: self.decisions as nat,
            dispatches: self.dispatches as nat,
            rejections: string_views(self.rejections@),
            outcome: self.outcome@,
            success: self.success,
            ticks: self.ticks,
        }
    }
}

fn contains_string(v: &Vec<String>, s: &String) -> (r: bool)
    ensures
        r == string_views(v@).contains(s@),
{
    let mut i: usize = 0;
    while i < v.len()
        invariant
            i <= v@.len(),
            forall|j: int| 0 <= j < i ==> v@[j]@ != s@,
        decreases v@.len() - i,
    {
        if v[i] == *s {
            assert(string_views(v@)[i as int] == s@);
            return true;
        }
        i = i + 1;
    }
    assert(!string_views(v@).contains(s@)) by {
        if string_views(v@).contains(s@) {
            let j = choose|j: int| 0 <= j < string_views(v@).len() && string_views(v@)[j] == s@;
            assert(v@[j]@ == s@);
        }
    }
    false
}

fn clock_matches(tick: u64, tick_ns: u64, time_ns: u64) -> (r: bool)
    ensures
        r == (time_ns as int == tick as int * tick_ns as int),
{
    let t = tick as u128;
    let n = tick_ns as u128;
    assert(t * n <= 0xffff_ffff_ffff_ffffu128 * 0xffff_ffff_ffff_ffffu128) by (nonlinear_arith)
        requires
            t <= 0xffff_ffff_ffff_ffffu128,
            n <= 0xffff_ffff_ffff_ffffu128,
    ;
    t * n == time_ns as u128
}

impl SessionState {
    fn start(cfg: &SessionConfig) -> (s: Self)
        ensures
            s@ == initial_view(*cfg),
    {
        let s = SessionState {
            run_id: cfg.run_id.clone(),
            episode_id: episode_id_for(cfg.run_id.as_str(), cfg.scenario_name.as_str()),
            backend: cfg.backend.clone(),
            scenario: cfg.scenario_name.clone(),
            policy: cfg.policy,
            phase: Phase::AwaitHello,
            tick_ns: 0,
            backend_label: String::from_str("unknown"),
            seen_actions: Vec::new(),
            last_tick: 0,
            last_proposal_tick: None,
            last_dispatch_tick: None,
            decisions: 0,
            dispatches: 0,
            rejections: Vec::new(),
            outcome: String::from_str("bridge_died"),
            success: false,
            ticks: 0,
        };
        assert(s@.seen_actions =~= seq![]);
        assert(s@.rejections =~= seq![]);
        assert(s@ =~= initial_view(*cfg));
        s
    }

    /// A state that holds nothing yet.
    fn empty() -> (s: Self)
        ensures
            session_wf(s@),
    {
        let s = SessionState {
            run_id: String::new(),
            episode_id: String::new(),
            backend: String::new(),
            scenario: String::new(),
            policy: Policy { max_observation_age_ms: 0 },
            phase: Phase::Finished,
            tick_ns: 0,
            backend_label: String::new(),
            seen_actions: Vec::new(),
            last_tick: 0,
            last_proposal_tick: None,
            last_dispatch_tick: None,
            decisions: 0,
            dispatches: 0,
            rejections: Vec::new(),
            outcome: String::new(),
            success: false,
            ticks: 0,
        };
        assert(s@.seen_actions =~= seq![]);
        assert(s@.rejections =~= seq![]);
        s
    }

    fn is_finished(&self) -> (r: bool)
        ensures
            r == (self@.phase is Finished),
    {
        match self.phase {
            Phase::Finished => true,
            _ => false,
        }
    }

    fn finish_with(&mut self, outcome: &str)
        ensures
            final(self)@ == fail(old(self)@, outcome@),
    {
        self.phase = Phase::Finished;
        self.outcome = String::from_str(outcome);
        self.success = false;
    }

    fn on_hello(&mut self, h: Hello)
        requires
            !(old(self)@.phase is Finished),
        ensures
            final(self)@ == on_hello(old(self)@, h),
    {
        let ok = match self.phase {
            Phase::AwaitHello => h.version == 1 && h.backend == self.backend && h.simulation_tick_ns
                > 0,
            _ => false,
        };
        if ok {
            self.phase = Phase::Ready;
            self.tick_ns = h.simulation_tick_ns;
            self.backend_label = h.backend_label;
        } else {
            self.finish_with("protocol_error");
        }
    }

    fn proposal_acceptable(&self, p: &Proposal) -> (r: bool)
        ensures
            r == proposal_ok(self@, *p),
    {
        let ready = match self.phase {
            Phase::Ready => true,
            _ => false,
        };
        let later = match self.last_proposal_tick {
            Some(t) => p.simulation_tick > t,
            None => true,
        };
        ready && p.run_id == self.run_id && p.episode_id == self.episode_id && !p.action_id.as_str().is_empty() && !contains_string(&self.seen_actions, &p.action_id) && clock_matches(
            p.simulation_tick,
            self.tick_ns,
            p.simulation_time_ns,
        ) && p.simulation_tick >= self.last_tick && later && self.decisions < u32::MAX
    }

    fn on_proposal(&mut self, p: Proposal) -> (a: SessionAction)
        requires
            !(old(self)@.phase is Finished),
        ensures
            final(self)@ == on_proposal(old(self)@, p),
            proposal_ok(old(self)@, p) ==> a == SessionAction::Send(
                decision_msg_for(p, decision_for(p, old(self)@.policy)),
            ),
            !proposal_ok(old(self)@, p) ==> a == SessionAction::Stop,
    {
        if !self.proposal_acceptable(&p) {
            self.finish_with("protocol_error");
            return SessionAction::Stop;
        }
        let ghost old_view = self@;
        let d = decide(&p, &self.policy);
        let msg = DecisionMsg::for_proposal(&p, d);
        self.decisions = self.decisions + 1;
        if !d.is_permit() {
            let text = d.to_string();
            self.rejections.push(text);
        }
        self.seen_actions.push(p.action_id.clone());
        self.last_tick = p.simulation_tick;
        self.last_proposal_tick = Some(p.simulation_tick);
        self.phase = Phase::AwaitOutcome(
            Pending {
                action_id: p.action_id,
                simulation_tick: p.simulation_tick,
                permitted: d.is_permit(),
            },
        );
        assert(self@.seen_actions =~= old_view.seen_actions.push(p.action_id@));
        assert(self@.rejections =~= (if d is Permit {
            old_view.rejections
        } else {
            old_view.rejections.push(decision_text(d))
        }));
        assert(self@ =~= on_proposal(old_view, p));
        SessionAction::Send(msg)
    }

    fn on_outcome(&mut self, o: Outcome)
        requires
            !(old(self)@.phase is Finished),
            session_wf(old(self)@),
        ensures
            final(self)@ == on_outcome(old(self)@, o),
    {
        let ok = match &self.phase {
            Phase::AwaitOutcome(pending) => o.action_id == pending.action_id && o.simulation_tick
                == pending.simulation_tick && crate::text::str_eq(o.action_kind.as_str(), "task")
                && (!o.dispatched || pending.permitted),
            _ => false,
        };
        if !ok {
            self.finish_with("protocol_error");
            return ;
        }
        if o.dispatched {
            self.dispatches = self.dispatches + 1;
            self.last_dispatch_tick = Some(o.simulation_tick);
        }
        self.phase = Phase::Ready;
    }

    fn on_hold(&mut self, h: HoldNotice)
        requires
            !(old(self)@.phase is Finished),
        ensures
            final(self)@ == on_hold(old(self)@, h),
    {
        let ready = match self.phase {
            Phase::Ready => true,
            _ => false,
        };
        if ready && h.simulation_tick >= self.last_tick && clock_matches(
            h.simulation_tick,
            self.tick_ns,
            h.simulation_time_ns,
        ) {
            self.last_tick = h.simulation_tick;
            if h.simulation_tick > self.ticks {
                self.ticks = h.simulation_tick;
            }
        } else {
            self.finish_with("protocol_error");
        }
    }

    fn on_end(&mut self, e: EpisodeEnd)
        requires
            !(old(self)@.phase is Finished),
        ensures
            final(self)@ == on_end(old(self)@, e),
    {
        let ready = match self.phase {
            Phase::Ready => true,
            _ => false,
        };
        let after_dispatch = match self.last_dispatch_tick {
            Some(t) => e.ticks > t,
            None => true,
        };
        if ready && (!e.success || self.dispatches > 0) && e.ticks >= self.last_tick
            && after_dispatch {
            self.phase = Phase::Finished;
            self.outcome = e.reason;
            self.success = e.success;
            if e.ticks > self.ticks {
                self.ticks = e.ticks;
            }
        } else {
            self.finish_with("protocol_error");
        }
    }

    fn step(&mut self, event: SessionEvent) -> (a: SessionAction)
        requires
            session_wf(old(self)@),
        ensures
            final(self)@ == next_view(old(self)@, event),
            a == next_action(old(self)@, event),
            session_wf(final(self)@),
    {
        proof {
            law_step_keeps_invariant(self@, event);
        }
        if self.is_finished() {
            return SessionAction::Stop;
        }
        match event {
            SessionEvent::Message(BridgeMsg::Proposal(p)) => {
                return self.on_proposal(p);
            },
            SessionEvent::Message(BridgeMsg::Hello(h)) => self.on_hello(h),
            SessionEvent::Message(BridgeMsg::Outcome(o)) => self.on_outcome(o),
            SessionEvent::Message(BridgeMsg::Hold(h)) => self.on_hold(h),
            SessionEvent::Message(BridgeMsg::EpisodeEnd(x)) => self.on_end(x),
            SessionEvent::Malformed => self.finish_with("protocol_error"),
            SessionEvent::Timeout => self.finish_with("timeout"),
            SessionEvent::BridgeClosed => self.finish_with("bridge_died"),
            SessionEvent::WriteFailed => self.finish_with("bridge_died"),
        }
        if self.is_finished() {
            SessionAction::Stop
        } else {
            SessionAction::Continue
        }
    }

    fn into_result(self, wall_time_ms: u128) -> (r: ScenarioResult)
        ensures
            r.scenario@ == self@.scenario,
            r.backend@ == self@.backend_label,
            r.outcome@ == self@.outcome,
            r.success == self@.success,
            r.task_dispatches == self@.dispatches,
            r.decisions == self@.decisions,
            string_views(r.rejections@) == self@.rejections,
            r.ticks == self@.ticks,
            r.wall_time_ms == wall_time_ms,
    {
        ScenarioResult {
            scenario: self.scenario,
            backend: self.backend_label,
            outcome: self.outcome,
            success: self.success,
            task_dispatches: self.dispatches,
            decisions: self.decisions,
            rejections: self.rejections,
            ticks: self.ticks,
            wall_time_ms,
        }
    }
}

/// The session state machine. Every session it hands out is in a
/// reachable state (`session_wf`).
pub struct ProtocolSession {
    state: SessionState,
}

impl View for ProtocolSession {
    type V = SessionView;

    closed spec fn view(&self) -> SessionView {
        self.state@
    }
}

impl ProtocolSession {
    #[verifier::type_invariant]
    spec fn reachable(self) -> bool {
        session_wf(self.state@)
    }

    /// A session for the given configuration, awaiting the bridge's hello.
    pub fn new(cfg: &SessionConfig) -> (s: Self)
        ensures
            s@ == initial_view(*cfg),
            session_wf(s@),
    {
        ProtocolSession { state: SessionState::start(cfg) }
    }

    pub fn is_finished(&self) -> (r: bool)
        ensures
            r == (self@.phase is Finished),
    {
        self.state.is_finished()
    }

    /// The number of decisions the session has sent.
    pub fn decisions(&self) -> (n: u32)
        ensures
            n == self@.decisions,
    {
        self.state.decisions
    }

    /// The number of dispatches the bridge has confirmed.
    pub fn dispatches(&self) -> (n: u32)
        ensures
            n == self@.dispatches,
    {
        self.state.dispatches
    }

    /// Advance the session by one event and say what to do next.
    pub fn step(&mut self, event: SessionEvent) -> (a: SessionAction)
        ensures
            final(self)@ == next_view(old(self)@, event),
            a == next_action(old(self)@, event),
            session_wf(final(self)@),
    {
        proof {
            use_type_invariant(&*self);
        }
        let mut state = SessionState::empty();
        std::mem::swap(&mut state, &mut self.state);
        let a = state.step(event);
        self.state = state;
        a
    }

    /// The scenario result of a session, with the wall time it took.
    pub fn into_result(self, wall_time_ms: u128) -> (r: ScenarioResult)
        ensures
            r.scenario@ == self@.scenario,
            r.backend@ == self@.backend_label,
            r.outcome@ == self@.outcome,
            r.success == self@.success,
            r.task_dispatches == self@.dispatches,
            r.decisions == self@.decisions,
            string_views(r.rejections@) == self@.rejections,
            r.ticks == self@.ticks,
            r.wall_time_ms == wall_time_ms,
    {
        self.state.into_result(wall_time_ms)
    }
}

// ---------------------------------------------------------------------
// Laws of the session
// ---------------------------------------------------------------------

/// Every step keeps the session invariant: each decision answers one new
/// action id, dispatches and rejections together never outnumber decisions,
/// and success is only ever reported for a finished episode with a
/// confirmed dispatch.
pub proof fn law_step_keeps_invariant(s: SessionView, e: SessionEvent)
    requires
        session_wf(s),
    ensures
        session_wf(next_view(s, e)),
{
}

/// A new session satisfies the invariant.
pub proof fn law_initial_invariant(cfg: SessionConfig)
    ensures
        session_wf(initial_view(cfg)),
{
}

/// A timeout, a malformed line, a vanished bridge or a failed write ends
/// the episode unsuccessfully, sends nothing and confirms no dispatch:
/// silence is never an authorization.
pub proof fn law_failures_fail_closed(s: SessionView, e: SessionEvent)
    requires
        !(s.phase is Finished),
        e is Malformed || e is Timeout || e is BridgeClosed || e is WriteFailed,
    ensures
        next_view(s, e).phase is Finished,
        !next_view(s, e).success,
        next_view(s, e).dispatches == s.dispatches,
        next_view(s, e).decisions == s.decisions,
        next_action(s, e) is Stop,
{
}

/// Every decision the session sends answers the proposal of that event, for
/// this run and episode, echoing its action id and tick, with the dispatch gate's
/// decision under the session policy.
pub proof fn law_sent_decisions_echo_the_proposal(s: SessionView, e: SessionEvent)
    requires
        next_action(s, e) is Send,
    ensures
        e matches SessionEvent::Message(BridgeMsg::Proposal(p)) && {
            let m = next_action(s, e)->Send_0;
            &&& p.run_id@ == s.run_id
            &&& p.episode_id@ == s.episode_id
            &&& m.run_id == p.run_id
            &&& m.episode_id == p.episode_id
            &&& m.action_id == p.action_id
            &&& m.simulation_tick == p.simulation_tick
            &&& m.decision == decision_for(p, s.policy)
            &&& next_view(s, e).decisions == s.decisions + 1
        },
{
}

/// While an action awaits its outcome, nothing else is decided: a second
/// proposal ends the episode with a protocol error.
pub proof fn law_one_action_outstanding(s: SessionView, e: SessionEvent)
    requires
        s.phase is AwaitOutcome,
    ensures
        !(next_action(s, e) is Send),
        e is Message && e->Message_0 is Proposal ==> next_view(s, e).phase is Finished
            && next_view(s, e).outcome == "protocol_error"@,
{
}

/// A dispatch is counted only when the bridge confirms it for the
/// outstanding action, and only if the dispatch gate permitted that action: a
/// rejection never becomes a dispatch.
pub proof fn law_dispatch_only_after_permit(s: SessionView, e: SessionEvent)
    requires
        next_view(s, e).dispatches != s.dispatches,
    ensures
        next_view(s, e).dispatches == s.dispatches + 1,
        s.phase matches PhaseView::AwaitOutcome { action_id, simulation_tick, permitted } && {
            &&& permitted
            &&& e matches SessionEvent::Message(BridgeMsg::Outcome(o))
            &&& o.dispatched
            &&& o.action_id@ == action_id
            &&& o.simulation_tick == simulation_tick
        },
{
}

/// A finished session stays as it is and asks for nothing more.
pub proof fn law_finished_is_final(s: SessionView, e: SessionEvent)
    requires
        s.phase is Finished,
    ensures
        next_view(s, e) == s,
        next_action(s, e) is Stop,
{
}

/// Counters only grow: decisions, dispatches and recorded rejections are
/// never taken back, and the tick count never decreases.
pub proof fn law_counters_monotone(s: SessionView, e: SessionEvent)
    ensures
        next_view(s, e).decisions >= s.decisions,
        next_view(s, e).dispatches >= s.dispatches,
        next_view(s, e).rejections.len() >= s.rejections.len(),
        next_view(s, e).rejections.take(s.rejections.len() as int) == s.rejections,
        next_view(s, e).ticks >= s.ticks,
{
    assert(s.rejections.push(seq![]).take(s.rejections.len() as int) =~= s.rejections);
    if let SessionEvent::Message(BridgeMsg::Proposal(p)) = e {
        let d = decision_for(p, s.policy);
        assert(s.rejections.push(decision_text(d)).take(s.rejections.len() as int)
            =~= s.rejections);
    }
    assert(s.rejections.take(s.rejections.len() as int) =~= s.rejections);
}

/// Simulation ticks never run backwards: every accepted message leaves the
/// latest reported tick where it was or later.
pub proof fn law_ticks_never_regress(s: SessionView, e: SessionEvent)
    ensures
        next_view(s, e).last_tick >= s.last_tick,
{
}

// ---------------------------------------------------------------------
// A whole run
// ---------------------------------------------------------------------

/// The state after the events, in order.
pub open spec fn run_view(s: SessionView, events: Seq<SessionEvent>) -> SessionView
    decreases events.len(),
{
    if events.len() == 0 {
        s
    } else {
        next_view(run_view(s, events.drop_last()), events.last())
    }
}

/// The proposals the session answered with a decision during the events,
/// in order: those it accepted.
pub open spec fn answered_proposals(s: SessionView, events: Seq<SessionEvent>) -> Seq<Proposal>
    decreases events.len(),
{
    if events.len() == 0 {
        seq![]
    } else {
        let before = run_view(s, events.drop_last());
        let earlier = answered_proposals(s, events.drop_last());
        if !(before.phase is Finished) && (events.last() matches SessionEvent::Message(
            BridgeMsg::Proposal(p),
        ) && proposal_ok(before, p)) {
            earlier.push(events.last()->Message_0->Proposal_0)
        } else {
            earlier
        }
    }
}

/// The texts of the rejections among the decisions on these proposals, in
/// order.
pub open spec fn rejection_texts(ps: Seq<Proposal>, policy: Policy) -> Seq<Seq<char>>
    decreases ps.len(),
{
    if ps.len() == 0 {
        seq![]
    } else {
        let d = decision_for(ps.last(), policy);
        let earlier = rejection_texts(ps.drop_last(), policy);
        if d is Permit {
            earlier
        } else {
            earlier.push(decision_text(d))
        }
    }
}

/// The events after which the bridge is given up: a timeout, a malformed
/// line, closed output or a failed write, with the outcome each records.
pub open spec fn failure_outcome(e: SessionEvent) -> Option<Seq<char>> {
    match e {
        SessionEvent::Malformed => Some("protocol_error"@),
        SessionEvent::Timeout => Some("timeout"@),
        SessionEvent::BridgeClosed => Some("bridge_died"@),
        SessionEvent::WriteFailed => Some("bridge_died"@),
        _ => None,
    }
}

/// Over any run from a reachable state: the session keeps its invariant and
/// its policy; it makes exactly one decision per accepted proposal; it
/// records as rejections exactly the texts of the rejected decisions, in
/// order; it confirms no more dispatches than decisions that were not
/// rejections; and a run that ends in a timeout, a malformed line, closed
/// output or a failed write, while the episode was still open, finishes
/// unsuccessfully with the matching outcome.
pub proof fn law_run_accounts_for_every_proposal(s: SessionView, events: Seq<SessionEvent>)
    requires
        session_wf(s),
    ensures
        session_wf(run_view(s, events)),
        run_view(s, events).policy == s.policy,
        run_view(s, events).decisions == s.decisions + answered_proposals(s, events).len(),
        run_view(s, events).rejections == s.rejections + rejection_texts(
            answered_proposals(s, events),
            s.policy,
        ),
        run_view(s, events).dispatches <= run_view(s, events).decisions - run_view(
            s,
            events,
        ).rejections.len(),
        events.len() > 0 && !(run_view(s, events.drop_last()).phase is Finished)
            && failure_outcome(events.last()) is Some ==> {
            &&& run_view(s, events).phase is Finished
            &&& !run_view(s, events).success
            &&& run_view(s, events).outcome == failure_outcome(events.last())->0
        },
    decreases events.len(),
{
    if events.len() > 0 {
        let prefix = events.drop_last();
        let e = events.last();
        law_run_accounts_for_every_proposal(s, prefix);
        let before = run_view(s, prefix);
        law_step_keeps_invariant(before, e);
        let ps = answered_proposals(s, prefix);
        if !(before.phase is Finished) && (e matches SessionEvent::Message(BridgeMsg::Proposal(p))
            && proposal_ok(before, p)) {
            let p = e->Message_0->Proposal_0;
            let all = answered_proposals(s, events);
            assert(all == ps.push(p));
            assert(all.drop_last() =~= ps);
            assert(all.last() == p);
            let d = decision_for(p, s.policy);
            if d is Permit {
                assert(rejection_texts(all, s.policy) == rejection_texts(ps, s.policy));
            } else {
                assert(rejection_texts(all, s.policy) == rejection_texts(ps, s.policy).push(
                    decision_text(d),
                ));
                assert(s.rejections + rejection_texts(ps, s.policy).push(decision_text(d))
                    =~= (s.rejections + rejection_texts(ps, s.policy)).push(decision_text(d)));
            }
        } else {
            assert(answered_proposals(s, events) == ps);
        }
    }
}

/// Over a whole session, from the start: one decision per accepted
/// proposal, the rejections are the texts of the rejected ones in order, and
/// dispatches never exceed decisions minus rejections.
pub proof fn law_whole_session(cfg: SessionConfig, events: Seq<SessionEvent>)
    ensures
        run_view(initial_view(cfg), events).decisions == answered_proposals(
            initial_view(cfg),
            events,
        ).len(),
        run_view(initial_view(cfg), events).rejections == rejection_texts(
            answered_proposals(initial_view(cfg), events),
            cfg.policy,
        ),
        run_view(initial_view(cfg), events).dispatches <= run_view(
            initial_view(cfg),
            events,
        ).decisions - run_view(initial_view(cfg), events).rejections.len(),
{
    law_run_accounts_for_every_proposal(initial_view(cfg), events);
    assert(seq![] + rejection_texts(answered_proposals(initial_view(cfg), events), cfg.policy)
        =~= rejection_texts(answered_proposals(initial_view(cfg), events), cfg.policy));
}

/// The tick count covers every tick the bridge reported: an accepted hold
/// or episode end raises it to at least the reported tick, and never lowers
/// it.
pub proof fn law_reported_ticks_are_counted(s: SessionView, h: HoldNotice, e: EpisodeEnd)
    requires
        !(s.phase is Finished),
    ensures
        hold_ok(s, h) ==> {
            let n = next_view(s, SessionEvent::Message(BridgeMsg::Hold(h)));
            &&& n.ticks >= h.simulation_tick
            &&& n.ticks >= s.ticks
            &&& (n.ticks == s.ticks || n.ticks == h.simulation_tick)
        },
        end_ok(s, e) ==> {
            let n = next_view(s, SessionEvent::Message(BridgeMsg::EpisodeEnd(e)));
            &&& n.ticks >= e.ticks
            &&& n.ticks >= s.ticks
            &&& (n.ticks == s.ticks || n.ticks == e.ticks)
        },
{
}

} // verus!
