//! A scenario-driven control and verification engine for a streaming media
//! pipeline, modeled over plain data so that every rule is stated and proved.
//!
//! The engine has five parts:
//! - a property resolver that walks a dotted path through a graph of named
//!   processing nodes to a typed attribute handle (`graph`, `resolve`, `value`);
//! - a lifecycle controller that drives the pipeline through its states and
//!   runs a drain protocol before teardown (`lifecycle`);
//! - a frame sampler that reads the most recent output frame from a sink that
//!   retains one (`sampler`);
//! - a color verifier that extracts a dominant-color palette from sampled
//!   frames and checks that a target color persists for a dwell time within a
//!   timeout, over a simulated clock (`color`);
//! - a validation monitor that aggregates rule-violation reports (`monitor`).
//!
//! The `harness` module composes them per scenario run. The pipeline itself is
//! an external collaborator: the harness hands it events and reads back plain
//! values (bus messages, frames, state-change outcomes), and every decision
//! taken on those values is verified here.

pub mod color;
pub mod errors;
pub mod graph;
pub mod harness;
pub mod lifecycle;
pub mod monitor;
pub mod resolve;
pub mod sampler;
pub mod value;
