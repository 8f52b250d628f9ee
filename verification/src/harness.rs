//! The per-run harness: owns the pipeline model and the optional validation
//! monitor, and exposes the engine's contract surface that scenario steps
//! bind to: configure the pipeline, resolve and set or read properties,
//! request lifecycle states, time waits, and tear the run down.
//!
//! The pipeline itself is an external collaborator. Its observable behavior
//! reaches the engine as plain values: the bus messages a drain wait would
//! read arrive as a trace, and whether the pipeline accepts state-change
//! requests is part of the model. Every decision taken on those values is
//! verified here.

use vstd::prelude::*;
use vstd::pervasive::unreached;
use crate::errors::EngineError;
use crate::graph::NodeGraph;
use crate::lifecycle::{BusMessage, DrainAction, LifecycleState, drain_wait, parse_state_name,
    plan_transition, spec_drain_outcome, spec_state_for_name, spec_transition_plan};
use crate::monitor::{CLEAN_EXIT, MonitorState, spec_summary};
use crate::resolve::{resolve_err_matches, spec_resolve};
use crate::value::{Value, spec_eq_ci, spec_scalar_ok, spec_value_matches};

verus! {

/// The engine's model of the composed pipeline: the attribute graph, the
/// current lifecycle state, and whether the pipeline accepts state-change
/// requests (an external rejection surfaces as `StateChangeFailed`).
#[derive(Debug, Clone, PartialEq, Eq)]
pub struct PipelineModel {
    pub graph: NodeGraph,
    pub state: LifecycleState,
    pub accepts_state_changes: bool,
}

/// One scenario run's state: the pipeline, once configured, and the
/// validation monitor. Exclusively owned by the run; at most one scenario
/// operates a pipeline at a time.
#[derive(Debug, Clone, PartialEq, Eq)]
pub struct World {
    pub pipeline: Option<PipelineModel>,
    pub monitor: MonitorState,
}

impl World {
    /// A fresh run: no pipeline configured, monitor inactive and empty.
    pub fn new() -> (w: World)
        ensures
            w.pipeline is None,
            !w.monitor.active,
            w.monitor.config@ =~= Seq::<String>::empty(),
            w.monitor.reports@ =~= Seq::<String>::empty(),
    {
        World { pipeline: None, monitor: MonitorState::new() }
    }

    /// Sets the pipeline from an already composed model.
    pub fn set_pipeline(&mut self, pipeline: PipelineModel)
        ensures
            final(self).pipeline == Some(pipeline),
            final(self).monitor == old(self).monitor,
    {
        self.pipeline = Some(pipeline);
    }

    /// Sets the pipeline from a textual topology description. Composing the
    /// graph is the construction collaborator's work; its outcome is handed
    /// in as `built`, and a failed composition is a `TopologyParseError`
    /// naming the description.
    pub fn set_pipeline_from_description(
        &mut self,
        description: String,
        built: Option<PipelineModel>,
    ) -> (r: Result<(), EngineError>)
        ensures
            final(self).monitor == old(self).monitor,
            match built {
                Some(p) => r is Ok && final(self).pipeline == Some(p),
                None => {
                    &&& *final(self) == *old(self)
                    &&& (r matches Err(e) && (e matches EngineError::TopologyParseError {
                        description: d,
                    } && d@ == description@))
                },
            },
    {
        match built {
            Some(p) => {
                self.pipeline = Some(p);
                Ok(())
            },
            None => Err(EngineError::TopologyParseError { description }),
        }
    }

    /// The configured pipeline, or the error that says none is configured
    /// yet.
    pub fn get_pipeline(&self) -> (r: Result<&PipelineModel, EngineError>)
        ensures
            match r {
                Ok(p) => self.pipeline == Some(*p),
                Err(e) => self.pipeline is None && e == EngineError::PipelineNotConfigured,
            },
    {
        match &self.pipeline {
            Some(p) => Ok(p),
            None => Err(EngineError::PipelineNotConfigured),
        }
    }

    /// Requests a lifecycle state by name and returns the pipeline operations
    /// performed, in order.
    ///
    /// A non-stopped target is one state-change request. Stopping an already
    /// stopped pipeline does nothing and succeeds. Stopping a running
    /// pipeline first drains it: the flush bracket (exactly when monitoring
    /// is active) and the end-of-stream event, all sharing `seq`, then the
    /// blocking bus wait — `bus` is the message trace that wait reads, and an
    /// error on the bus ends the wait without aborting the teardown — and
    /// only then the state change. An unrecognized name is a misuse error; a
    /// pipeline that declines the request is `StateChangeFailed`.
    pub fn set_pipeline_state(&mut self, state_name: &str, bus: &Vec<BusMessage>, seq: u64) -> (r:
        Result<Vec<DrainAction>, EngineError>)
        requires
            (old(self).pipeline matches Some(p) && spec_state_for_name(state_name@) == Some(
                LifecycleState::Stopped,
            ) && p.state != LifecycleState::Stopped) ==> spec_drain_outcome(bus@) is Some,
        ensures
            final(self).monitor == old(self).monitor,
            match r {
                Ok(plan) => {
                    &&& old(self).pipeline matches Some(p)
                    &&& spec_state_for_name(state_name@) matches Some(target)
                    &&& plan@ == spec_transition_plan(
                        p.state,
                        target,
                        old(self).monitor.active,
                        seq,
                    )
                    &&& if p.state == LifecycleState::Stopped && target
                        == LifecycleState::Stopped {
                        *final(self) == *old(self)
                    } else {
                        &&& p.accepts_state_changes
                        &&& final(self).pipeline == Some(
                            PipelineModel {
                                graph: p.graph,
                                state: target,
                                accepts_state_changes: p.accepts_state_changes,
                            },
                        )
                    }
                },
                Err(e) => *final(self) == *old(self) && match e {
                    EngineError::PipelineNotConfigured => old(self).pipeline is None,
                    EngineError::InvalidStateName { name } => old(self).pipeline is Some
                        && spec_state_for_name(state_name@) is None && name@ == state_name@,
                    EngineError::StateChangeFailed => {
                        &&& old(self).pipeline matches Some(p)
                        &&& spec_state_for_name(state_name@) matches Some(target)
                        &&& !(p.state == LifecycleState::Stopped && target
                            == LifecycleState::Stopped)
                        &&& !p.accepts_state_changes
                    },
                    _ => false,
                },
            },
    {
        let (cur, accepts) = match &self.pipeline {
            Some(p) => (p.state, p.accepts_state_changes),
            None => {
                return Err(EngineError::PipelineNotConfigured);
            },
        };
        let target = match parse_state_name(state_name) {
            Ok(t) => t,
            Err(e) => {
                return Err(e);
            },
        };
        let plan = plan_transition(cur, target, self.monitor.active, seq);
        if target == LifecycleState::Stopped {
            if cur == LifecycleState::Stopped {
                // Idempotent at the terminal state: no drain, no request.
                return Ok(plan);
            }
            // The drain's blocking wait: the first end-of-stream confirmation
            // or error on the bus ends it; an error is reported by the
            // pipeline but must not keep the teardown from stopping it.
            let _confirmation = drain_wait(bus);
        }
        if !accepts {
            return Err(EngineError::StateChangeFailed);
        }
        match &mut self.pipeline {
            Some(p) => {
                p.state = target;
            },
            None => unreached(),
        }
        Ok(plan)
    }

    /// Resolves a dotted property path against the pipeline's graph and
    /// writes the parsed value, mutating the live pipeline immediately.
    pub fn set_property(&mut self, path: &str, input: &str) -> (r: Result<(), EngineError>)
        requires
            old(self).pipeline matches Some(p) ==> p.graph.wf(),
        ensures
            final(self).monitor == old(self).monitor,
            match old(self).pipeline {
                None => *final(self) == *old(self) && r == Err::<(), EngineError>(
                    EngineError::PipelineNotConfigured,
                ),
                Some(p) => {
                    &&& final(self).pipeline matches Some(p2)
                    &&& p2.state == p.state
                    &&& p2.accepts_state_changes == p.accepts_state_changes
                    &&& p2.graph.wf()
                    &&& match r {
                        Ok(()) => {
                            &&& spec_resolve(p.graph.nodes@, path@) matches Ok(h)
                            &&& spec_scalar_ok(&p.graph.attr_ty(h), input@)
                            &&& spec_value_matches(
                                &p.graph.attr_ty(h),
                                input@,
                                p2.graph.attr_value(h)@,
                            )
                            &&& crate::graph::graph_unchanged_except(p.graph, p2.graph, h)
                        },
                        Err(e) => p2.graph == p.graph && match spec_resolve(
                            p.graph.nodes@,
                            path@,
                        ) {
                            Err(se) => resolve_err_matches(se, e),
                            Ok(h) => !spec_scalar_ok(&p.graph.attr_ty(h), input@)
                                && (e matches EngineError::TypeMismatch { input: s } && s@
                                == input@),
                        },
                    }
                },
            },
    {
        match &mut self.pipeline {
            Some(p) => crate::resolve::set_property(&mut p.graph, path, input),
            None => Err(EngineError::PipelineNotConfigured),
        }
    }

    /// Resolves a dotted property path against the pipeline's graph and
    /// reads the attribute it names.
    pub fn get_property<'a>(&'a self, path: &str) -> (r: Result<&'a Value, EngineError>)
        requires
            self.pipeline matches Some(p) ==> p.graph.wf(),
        ensures
            match self.pipeline {
                None => r == Err::<&'a Value, EngineError>(EngineError::PipelineNotConfigured),
                Some(p) => match r {
                    Ok(v) => spec_resolve(p.graph.nodes@, path@) matches Ok(h) && *v
                        == p.graph.attr_value(h),
                    Err(e) => spec_resolve(p.graph.nodes@, path@) matches Err(se)
                        && resolve_err_matches(se, e),
                },
            },
    {
        match &self.pipeline {
            Some(p) => crate::resolve::get_property(&p.graph, path),
            None => Err(EngineError::PipelineNotConfigured),
        }
    }

    /// Tears the run down: stops the pipeline, drain included, and then holds
    /// the monitor's finalization to the clean sentinel. A bus error during
    /// the drain does not keep the pipeline from stopping; a rejected state
    /// change or an unclean finalization fails the run.
    pub fn teardown(&mut self, bus: &Vec<BusMessage>, seq: u64, monitor_exit_code: u64) -> (r:
        Result<Vec<DrainAction>, EngineError>)
        requires
            (old(self).pipeline matches Some(p) && p.state != LifecycleState::Stopped)
                ==> spec_drain_outcome(bus@) is Some,
        ensures
            final(self).monitor == old(self).monitor,
            match r {
                Ok(plan) => {
                    &&& match old(self).pipeline {
                        None => plan@ =~= Seq::<DrainAction>::empty() && final(self).pipeline
                            is None,
                        Some(p) => {
                            &&& plan@ == spec_transition_plan(
                                p.state,
                                LifecycleState::Stopped,
                                old(self).monitor.active,
                                seq,
                            )
                            &&& (p.state == LifecycleState::Stopped ==> *final(self) == *old(
                                self,
                            ))
                            &&& (p.state != LifecycleState::Stopped ==> p.accepts_state_changes
                                && final(self).pipeline == Some(
                                PipelineModel {
                                    graph: p.graph,
                                    state: LifecycleState::Stopped,
                                    accepts_state_changes: p.accepts_state_changes,
                                },
                            ))
                        },
                    }
                    &&& (old(self).monitor.active ==> monitor_exit_code == CLEAN_EXIT)
                },
                Err(e) => match e {
                    EngineError::StateChangeFailed => {
                        &&& old(self).pipeline matches Some(p)
                        &&& p.state != LifecycleState::Stopped
                        &&& !p.accepts_state_changes
                        &&& *final(self) == *old(self)
                    },
                    EngineError::FinalizeFailed { code, summary } => {
                        &&& old(self).monitor.active
                        &&& code == monitor_exit_code
                        &&& code != CLEAN_EXIT
                        &&& summary@ == spec_summary(old(self).monitor.reports@)
                    },
                    _ => false,
                },
            },
    {
        if self.pipeline.is_some() {
            match self.set_pipeline_state("stop", bus, seq) {
                Ok(plan) => {
                    if self.monitor.active {
                        match self.monitor.finalize(monitor_exit_code) {
                            Ok(()) => {},
                            Err(e) => {
                                return Err(e);
                            },
                        }
                    }
                    Ok(plan)
                },
                Err(e) => Err(e),
            }
        } else {
            if self.monitor.active {
                match self.monitor.finalize(monitor_exit_code) {
                    Ok(()) => {},
                    Err(e) => {
                        return Err(e);
                    },
                }
            }
            Ok(Vec::new())
        }
    }
}

/// The scenario step that requests a lifecycle state on the run's pipeline.
pub fn set_state(w: &mut World, state_name: &str, bus: &Vec<BusMessage>, seq: u64) -> (r: Result<
    Vec<DrainAction>,
    EngineError,
>)
    requires
        (old(w).pipeline matches Some(p) && spec_state_for_name(state_name@) == Some(
            LifecycleState::Stopped,
        ) && p.state != LifecycleState::Stopped) ==> spec_drain_outcome(bus@) is Some,
    ensures
        final(w).monitor == old(w).monitor,
        match r {
            Ok(plan) => {
                &&& old(w).pipeline matches Some(p)
                &&& spec_state_for_name(state_name@) matches Some(target)
                &&& plan@ == spec_transition_plan(p.state, target, old(w).monitor.active, seq)
                &&& if p.state == LifecycleState::Stopped && target == LifecycleState::Stopped {
                    *final(w) == *old(w)
                } else {
                    &&& p.accepts_state_changes
                    &&& final(w).pipeline == Some(
                        PipelineModel {
                            graph: p.graph,
                            state: target,
                            accepts_state_changes: p.accepts_state_changes,
                        },
                    )
                }
            },
            Err(e) => *final(w) == *old(w) && match e {
                EngineError::PipelineNotConfigured => old(w).pipeline is None,
                EngineError::InvalidStateName { name } => old(w).pipeline is Some
                    && spec_state_for_name(state_name@) is None && name@ == state_name@,
                EngineError::StateChangeFailed => {
                    &&& old(w).pipeline matches Some(p)
                    &&& spec_state_for_name(state_name@) matches Some(target)
                    &&& !(p.state == LifecycleState::Stopped && target
                        == LifecycleState::Stopped)
                    &&& !p.accepts_state_changes
                },
                _ => false,
            },
        },
{
    w.set_pipeline_state(state_name, bus, seq)
}

/// The factor that takes a count of the named unit to microseconds, the unit
/// name compared ignoring ASCII case; `None` for an unrecognized unit.
pub open spec fn spec_unit_factor(unit: Seq<char>) -> Option<int> {
    if spec_eq_ci(unit, "min"@) || spec_eq_ci(unit, "mins"@) || spec_eq_ci(unit, "minute"@)
        || spec_eq_ci(unit, "minutes"@) {
        Some(60_000_000)
    } else if spec_eq_ci(unit, "sec"@) || spec_eq_ci(unit, "secs"@) || spec_eq_ci(
        unit,
        "second"@,
    ) || spec_eq_ci(unit, "seconds"@) {
        Some(1_000_000)
    } else if spec_eq_ci(unit, "ms"@) || spec_eq_ci(unit, "millisecond"@) || spec_eq_ci(
        unit,
        "milliseconds"@,
    ) {
        Some(1000)
    } else if spec_eq_ci(unit, "us"@) || spec_eq_ci(unit, "microsecond"@) || spec_eq_ci(
        unit,
        "microseconds"@,
    ) {
        Some(1)
    } else {
        None
    }
}

/// The duration of the timed-wait step, in microseconds: a count and a unit
/// name. An unrecognized unit is a misuse error naming the unit.
pub fn wait_duration_micros(v: u64, unit: &str) -> (r: Result<u128, EngineError>)
    ensures
        match r {
            Ok(d) => spec_unit_factor(unit@) matches Some(f) && d == v * f,
            Err(e) => spec_unit_factor(unit@) is None
                && (e matches EngineError::InvalidUnit { unit: u } && u@ == unit@),
        },
{
    let factor: u64 = if crate::value::eq_ignore_case(unit, "min") || crate::value::eq_ignore_case(
        unit,
        "mins",
    ) || crate::value::eq_ignore_case(unit, "minute") || crate::value::eq_ignore_case(
        unit,
        "minutes",
    ) {
        60_000_000
    } else if crate::value::eq_ignore_case(unit, "sec") || crate::value::eq_ignore_case(
        unit,
        "secs",
    ) || crate::value::eq_ignore_case(unit, "second") || crate::value::eq_ignore_case(
        unit,
        "seconds",
    ) {
        1_000_000
    } else if crate::value::eq_ignore_case(unit, "ms") || crate::value::eq_ignore_case(
        unit,
        "millisecond",
    ) || crate::value::eq_ignore_case(unit, "milliseconds") {
        1000
    } else if crate::value::eq_ignore_case(unit, "us") || crate::value::eq_ignore_case(
        unit,
        "microsecond",
    ) || crate::value::eq_ignore_case(unit, "microseconds") {
        1
    } else {
        return Err(EngineError::InvalidUnit { unit: unit.to_owned() });
    };
    proof {
        assert((v as int) * (factor as int) <= u128::MAX) by (nonlinear_arith)
            requires
                0 <= v <= u64::MAX,
                0 <= factor <= u64::MAX,
        ;
        assert((v as int) * (factor as int) >= 0) by (nonlinear_arith)
            requires
                v >= 0,
                factor >= 0,
        ;
    }
    Ok((v as u128) * (factor as u128))
}

} // verus!
