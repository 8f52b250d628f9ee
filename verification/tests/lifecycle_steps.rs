use pipeline_harness::errors::EngineError;
use pipeline_harness::graph::NodeGraph;
use pipeline_harness::harness::{PipelineModel, World, set_state, wait_duration_micros};
use pipeline_harness::lifecycle::{
    BusMessage, DrainAction, DrainOutcome, LifecycleState, drain_wait, parse_state_name,
    plan_transition,
};

fn empty_pipeline(state: LifecycleState, accepts: bool) -> PipelineModel {
    PipelineModel { graph: NodeGraph { nodes: vec![] }, state, accepts_state_changes: accepts }
}

#[test]
fn state_names_parse() {
    assert_eq!(parse_state_name("stop"), Ok(LifecycleState::Stopped));
    assert_eq!(parse_state_name("prepare"), Ok(LifecycleState::Prepared));
    assert_eq!(parse_state_name("pause"), Ok(LifecycleState::Paused));
    assert_eq!(parse_state_name("play"), Ok(LifecycleState::Playing));
    match parse_state_name("sprint") {
        Err(EngineError::InvalidStateName { name }) => assert_eq!(name, "sprint"),
        other => panic!("expected InvalidStateName, got {:?}", other),
    }
}

#[test]
fn readiness_order() {
    assert!(LifecycleState::Stopped.rank() < LifecycleState::Prepared.rank());
    assert!(LifecycleState::Prepared.rank() < LifecycleState::Paused.rank());
    assert!(LifecycleState::Paused.rank() < LifecycleState::Playing.rank());
}

#[test]
fn stop_when_stopped_is_a_no_op() {
    let plan = plan_transition(LifecycleState::Stopped, LifecycleState::Stopped, true, 7);
    assert!(plan.is_empty());
    // Through the harness: success, no drain, no request, state untouched.
    let mut w = World::new();
    w.set_pipeline(empty_pipeline(LifecycleState::Stopped, false));
    let plan = w.set_pipeline_state("stop", &vec![], 7).unwrap();
    assert!(plan.is_empty());
    assert_eq!(w.pipeline.as_ref().unwrap().state, LifecycleState::Stopped);
}

#[test]
fn drain_emits_flush_bracket_before_eos_with_one_seqnum() {
    let plan = plan_transition(LifecycleState::Playing, LifecycleState::Stopped, true, 41);
    assert_eq!(
        plan,
        vec![
            DrainAction::FlushStart { seq: 41 },
            DrainAction::FlushStop { seq: 41 },
            DrainAction::Eos { seq: 41 },
            DrainAction::AwaitDrained,
            DrainAction::SetState { target: LifecycleState::Stopped },
        ]
    );
    // Without monitoring there is no flush bracket, but the same handshake.
    let plan = plan_transition(LifecycleState::Paused, LifecycleState::Stopped, false, 41);
    assert_eq!(
        plan,
        vec![
            DrainAction::Eos { seq: 41 },
            DrainAction::AwaitDrained,
            DrainAction::SetState { target: LifecycleState::Stopped },
        ]
    );
}

#[test]
fn non_stop_transition_is_one_request() {
    let plan = plan_transition(LifecycleState::Stopped, LifecycleState::Playing, true, 9);
    assert_eq!(plan, vec![DrainAction::SetState { target: LifecycleState::Playing }]);
}

#[test]
fn drain_wait_takes_first_eos_or_error() {
    let eos = vec![BusMessage::Other, BusMessage::Other, BusMessage::Eos];
    assert_eq!(drain_wait(&eos), Some(DrainOutcome::Confirmed));
    let err = vec![
        BusMessage::Other,
        BusMessage::Error { source: "sink".to_string(), description: "late".to_string() },
        BusMessage::Eos,
    ];
    assert_eq!(
        drain_wait(&err),
        Some(DrainOutcome::Interrupted {
            source: "sink".to_string(),
            description: "late".to_string()
        })
    );
    assert_eq!(drain_wait(&vec![BusMessage::Other]), None);
}

#[test]
fn rejected_state_change_surfaces() {
    let mut w = World::new();
    w.set_pipeline(empty_pipeline(LifecycleState::Stopped, false));
    assert_eq!(
        w.set_pipeline_state("play", &vec![], 1),
        Err(EngineError::StateChangeFailed)
    );
    assert_eq!(w.pipeline.as_ref().unwrap().state, LifecycleState::Stopped);
}

#[test]
fn state_change_without_pipeline_fails() {
    let mut w = World::new();
    assert_eq!(
        w.set_pipeline_state("play", &vec![], 1),
        Err(EngineError::PipelineNotConfigured)
    );
}

#[test]
fn bus_error_does_not_abort_the_drain() {
    let mut w = World::new();
    w.set_pipeline(empty_pipeline(LifecycleState::Playing, true));
    let bus = vec![BusMessage::Error {
        source: "demux".to_string(),
        description: "stream stalls".to_string(),
    }];
    let plan = set_state(&mut w, "stop", &bus, 3).unwrap();
    assert_eq!(plan.len(), 3);
    assert_eq!(w.pipeline.as_ref().unwrap().state, LifecycleState::Stopped);
}

#[test]
fn wait_units() {
    assert_eq!(wait_duration_micros(2, "min"), Ok(120_000_000));
    assert_eq!(wait_duration_micros(2, "Minutes"), Ok(120_000_000));
    assert_eq!(wait_duration_micros(3, "sec"), Ok(3_000_000));
    assert_eq!(wait_duration_micros(3, "SECONDS"), Ok(3_000_000));
    assert_eq!(wait_duration_micros(7, "ms"), Ok(7_000));
    assert_eq!(wait_duration_micros(7, "us"), Ok(7));
    assert_eq!(wait_duration_micros(u64::MAX, "min"), Ok(u64::MAX as u128 * 60_000_000));
    match wait_duration_micros(1, "fortnight") {
        Err(EngineError::InvalidUnit { unit }) => assert_eq!(unit, "fortnight"),
        other => panic!("expected InvalidUnit, got {:?}", other),
    }
}

#[test]
fn pipeline_from_description_outcomes() {
    let mut w = World::new();
    match w.set_pipeline_from_description("videotestsrc ! nosuchsink".to_string(), None) {
        Err(EngineError::TopologyParseError { description }) => {
            assert_eq!(description, "videotestsrc ! nosuchsink")
        },
        other => panic!("expected TopologyParseError, got {:?}", other),
    }
    assert!(w.pipeline.is_none());
    assert!(matches!(w.get_pipeline(), Err(EngineError::PipelineNotConfigured)));
    let built = empty_pipeline(LifecycleState::Stopped, true);
    w.set_pipeline_from_description("videotestsrc ! fakesink".to_string(), Some(built))
        .unwrap();
    assert!(w.get_pipeline().is_ok());
}
