//! Pipeline lifecycle control and the shutdown drain protocol.
//!
//! Transitions are always requested as an explicit target state. A transition
//! to any non-stopped state is a single state-change request. A transition to
//! `Stopped` from any other state first runs the drain protocol: an optional
//! flush bracket (when monitoring is active), an end-of-stream event sharing
//! the same sequence identifier, then a blocking wait on the bus for an
//! end-of-stream confirmation or an error, and only then the final state
//! change. Requesting `Stopped` while already stopped is a no-op.

use vstd::prelude::*;
use crate::errors::EngineError;

verus! {

/// A pipeline lifecycle state, totally ordered by readiness.
#[derive(Debug, Clone, Copy, PartialEq, Eq, Structural)]
pub enum LifecycleState {
    Stopped,
    Prepared,
    Paused,
    Playing,
}

impl LifecycleState {
    /// The position of the state in the readiness order.
    pub open spec fn spec_rank(self) -> int {
        match self {
            LifecycleState::Stopped => 0,
            LifecycleState::Prepared => 1,
            LifecycleState::Paused => 2,
            LifecycleState::Playing => 3,
        }
    }

    /// The position of the state in the readiness order:
    /// stopped, prepared, paused, playing.
    pub fn rank(self) -> (r: u8)
        ensures
            r as int == self.spec_rank(),
    {
        match self {
            LifecycleState::Stopped => 0,
            LifecycleState::Prepared => 1,
            LifecycleState::Paused => 2,
            LifecycleState::Playing => 3,
        }
    }
}

/// The state a textual state name designates, or `None` when the name is not
/// one of the four recognized commands.
pub open spec fn spec_state_for_name(name: Seq<char>) -> Option<LifecycleState> {
    if name == "stop"@ {
        Some(LifecycleState::Stopped)
    } else if name == "prepare"@ {
        Some(LifecycleState::Prepared)
    } else if name == "pause"@ {
        Some(LifecycleState::Paused)
    } else if name == "play"@ {
        Some(LifecycleState::Playing)
    } else {
        None
    }
}

/// Parses a lifecycle command name. An unrecognized name is a
/// scenario-authoring bug and is surfaced as `InvalidStateName`, never
/// recovered silently.
pub fn parse_state_name(name: &str) -> (r: Result<LifecycleState, EngineError>)
    ensures
        match r {
            Ok(s) => spec_state_for_name(name@) == Some(s),
            Err(e) => spec_state_for_name(name@) is None
                && (e matches EngineError::InvalidStateName { name: n } && n@ == name@),
        },
{
    let owned = name.to_owned();
    if owned == String::from_str("stop") {
        Ok(LifecycleState::Stopped)
    } else if owned == String::from_str("prepare") {
        Ok(LifecycleState::Prepared)
    } else if owned == String::from_str("pause") {
        Ok(LifecycleState::Paused)
    } else if owned == String::from_str("play") {
        Ok(LifecycleState::Playing)
    } else {
        Err(EngineError::InvalidStateName { name: owned })
    }
}

/// One pipeline operation the controller asks the external pipeline to
/// perform. Drain events carry the sequence identifier they are tagged with.
#[derive(Debug, Clone, PartialEq, Eq, Structural)]
pub enum DrainAction {
    /// Send a flush-start event.
    FlushStart { seq: u64 },
    /// Send a flush-stop event tagged with the drain's sequence identifier.
    FlushStop { seq: u64 },
    /// Send an end-of-stream event tagged with the drain's sequence identifier.
    Eos { seq: u64 },
    /// Block reading the bus until an end-of-stream confirmation or an error.
    AwaitDrained,
    /// Issue the state-change request to the pipeline.
    SetState { target: LifecycleState },
}

/// The exact sequence of pipeline operations a transition performs.
///
/// - Any non-stopped target: one state-change request.
/// - `Stopped` while already stopped: nothing (idempotent, no drain).
/// - `Stopped` otherwise: the drain protocol, with the flush bracket exactly
///   when monitoring is active, all drain events sharing `seq`, and the final
///   state change only after the bus wait.
pub open spec fn spec_transition_plan(
    current: LifecycleState,
    target: LifecycleState,
    monitoring: bool,
    seq: u64,
) -> Seq<DrainAction> {
    if target != LifecycleState::Stopped {
        seq![DrainAction::SetState { target }]
    } else if current == LifecycleState::Stopped {
        Seq::empty()
    } else if monitoring {
        seq![
            DrainAction::FlushStart { seq },
            DrainAction::FlushStop { seq },
            DrainAction::Eos { seq },
            DrainAction::AwaitDrained,
            DrainAction::SetState { target: LifecycleState::Stopped },
        ]
    } else {
        seq![
            DrainAction::Eos { seq },
            DrainAction::AwaitDrained,
            DrainAction::SetState { target: LifecycleState::Stopped },
        ]
    }
}

/// Lays out the operations for one requested transition.
pub fn plan_transition(
    current: LifecycleState,
    target: LifecycleState,
    monitoring: bool,
    seq: u64,
) -> (plan: Vec<DrainAction>)
    ensures
        plan@ == spec_transition_plan(current, target, monitoring, seq),
{
    let mut plan: Vec<DrainAction> = Vec::new();
    if target != LifecycleState::Stopped {
        plan.push(DrainAction::SetState { target });
    } else if current == LifecycleState::Stopped {
        // Idempotent at the terminal state: no drain, no request.
    } else {
        if monitoring {
            plan.push(DrainAction::FlushStart { seq });
            plan.push(DrainAction::FlushStop { seq });
        }
        plan.push(DrainAction::Eos { seq });
        plan.push(DrainAction::AwaitDrained);
        plan.push(DrainAction::SetState { target: LifecycleState::Stopped });
    }
    assert(plan@ =~= spec_transition_plan(current, target, monitoring, seq));
    plan
}

/// Law: transitions are idempotent at the terminal state. Requesting
/// `Stopped` while already stopped performs no drain sequence and issues no
/// pipeline operation at all.
pub proof fn lemma_stop_is_idempotent(monitoring: bool, seq: u64)
    ensures
        spec_transition_plan(
            LifecycleState::Stopped,
            LifecycleState::Stopped,
            monitoring,
            seq,
        ) =~= Seq::<DrainAction>::empty(),
{
}

/// Law: when monitoring is active, the drain emits flush-start, then
/// flush-stop, strictly before end-of-stream, all three tagged with the one
/// sequence identifier of the drain, and the final state change comes only
/// after the bus wait.
pub proof fn lemma_drain_flush_bracket(current: LifecycleState, seq: u64)
    requires
        current != LifecycleState::Stopped,
    ensures
        ({
            let plan = spec_transition_plan(current, LifecycleState::Stopped, true, seq);
            &&& plan.len() == 5
            &&& plan[0] == (DrainAction::FlushStart { seq })
            &&& plan[1] == (DrainAction::FlushStop { seq })
            &&& plan[2] == (DrainAction::Eos { seq })
            &&& plan[3] == DrainAction::AwaitDrained
            &&& plan[4] == (DrainAction::SetState { target: LifecycleState::Stopped })
        }),
{
}

/// A typed message read from the pipeline's bus.
#[derive(Debug, Clone, PartialEq, Eq)]
pub enum BusMessage {
    /// All sinks confirmed the end-of-stream event.
    Eos,
    /// An element reported an error.
    Error { source: String, description: String },
    /// Any other message; the drain wait discards these.
    Other,
}

/// How the drain's bus wait ended.
#[derive(Debug, Clone, PartialEq, Eq)]
pub enum DrainOutcome {
    /// The end-of-stream confirmation arrived: every sink handled the event.
    Confirmed,
    /// An element errored first. The error is reported but does not abort the
    /// drain: teardown still proceeds to the final state change.
    Interrupted { source: String, description: String },
}

/// What the blocking bus wait decides after the messages in `msgs`:
/// the first end-of-stream confirmation or error ends it, everything else is
/// discarded, and `None` means the wait would still be blocking.
pub open spec fn spec_drain_outcome(msgs: Seq<BusMessage>) -> Option<DrainOutcome>
    decreases msgs.len(),
{
    if msgs.len() == 0 {
        None
    } else {
        match msgs[0] {
            BusMessage::Eos => Some(DrainOutcome::Confirmed),
            BusMessage::Error { source, description } => Some(
                DrainOutcome::Interrupted { source, description },
            ),
            BusMessage::Other => spec_drain_outcome(msgs.skip(1)),
        }
    }
}

/// Runs the drain protocol's bus wait over the messages the bus delivers, in
/// order. Returns `None` when the trace ends before any end-of-stream
/// confirmation or error, which models a wait that is still blocking.
pub fn drain_wait(msgs: &Vec<BusMessage>) -> (r: Option<DrainOutcome>)
    ensures
        r == spec_drain_outcome(msgs@),
{
    let n = msgs.len();
    let mut i: usize = 0;
    proof {
        assert(msgs@.skip(0) =~= msgs@);
    }
    while i < n
        invariant
            i <= n,
            n == msgs@.len(),
            spec_drain_outcome(msgs@) == spec_drain_outcome(msgs@.skip(i as int)),
        decreases n - i,
    {
        proof {
            assert(msgs@.skip(i as int)[0] == msgs@[i as int]);
        }
        match &msgs[i] {
            BusMessage::Eos => {
                return Some(DrainOutcome::Confirmed);
            },
            BusMessage::Error { source, description } => {
                return Some(
                    DrainOutcome::Interrupted {
                        source: source.clone(),
                        description: description.clone(),
                    },
                );
            },
            BusMessage::Other => {},
        }
        proof {
            assert(msgs@.skip(i as int).skip(1) =~= msgs@.skip(i as int + 1));
        }
        i = i + 1;
    }
    proof {
        assert(msgs@.skip(n as int) =~= Seq::<BusMessage>::empty());
    }
    None
}

} // verus!
