use pipeline_harness::color::{NamedColor, parse_color_name, verify_color};
use pipeline_harness::errors::EngineError;
use pipeline_harness::graph::{AttrKind, Attribute, Node, NodeGraph};
use pipeline_harness::harness::{PipelineModel, World};
use pipeline_harness::lifecycle::{BusMessage, DrainAction, LifecycleState};
use pipeline_harness::sampler::{Frame, PixelFormat, SinkState, get_last_frame_on_element};
use pipeline_harness::value::{ScalarType, Value};

fn red_frame() -> Frame {
    Frame {
        format: PixelFormat::Rgba,
        width: 2,
        height: 2,
        fps: 10,
        data: vec![
            255, 0, 0, 255, 255, 0, 0, 255, 255, 0, 0, 255, 255, 0, 0, 255,
        ],
    }
}

/// A trivial two-node pipeline: a solid-color source and a sink that retains
/// its last output.
fn two_node_pipeline() -> PipelineModel {
    let source = Node {
        name: "src".to_string(),
        attrs: vec![Attribute {
            name: "pattern".to_string(),
            kind: AttrKind::Scalar {
                ty: ScalarType::Enum {
                    names: vec!["smpte".to_string(), "solid-color".to_string()],
                },
                value: Value::EnumName("solid-color".to_string()),
            },
        }],
    };
    let sink = Node {
        name: "videosink0".to_string(),
        attrs: vec![Attribute {
            name: "enable-last-sample".to_string(),
            kind: AttrKind::Scalar { ty: ScalarType::Bool, value: Value::Bool(true) },
        }],
    };
    PipelineModel {
        graph: NodeGraph { nodes: vec![source, sink] },
        state: LifecycleState::Stopped,
        accepts_state_changes: true,
    }
}

#[test]
fn end_to_end_red_scenario() {
    let mut w = World::new();
    w.set_pipeline(two_node_pipeline());

    // Request Playing: one accepted state-change request.
    let plan = w.set_pipeline_state("play", &vec![], 1).unwrap();
    assert_eq!(plan, vec![DrainAction::SetState { target: LifecycleState::Playing }]);
    assert_eq!(w.pipeline.as_ref().unwrap().state, LifecycleState::Playing);

    // The sink retains the source's solid red output.
    let sink = SinkState {
        name: "videosink0".to_string(),
        enable_last_sample: Some(true),
        last_sample: Some(red_frame()),
    };
    let retained = get_last_frame_on_element(&sink).unwrap();
    assert!(retained.is_some());

    // Color verification for "red" with the default dwell and timeout
    // succeeds within ~1100 ms of simulated time.
    let expected = parse_color_name("red").unwrap();
    assert_eq!(expected, NamedColor::Red);
    let samples: Vec<Option<Frame>> = (0..60).map(|_| Some(red_frame())).collect();
    let elapsed = verify_color(&samples, 10, expected, 1000, 5000, "videosink0").unwrap();
    assert!(elapsed <= 1100, "verification took {} ms", elapsed);

    // Request Stopped: the drain protocol runs to completion and the final
    // state change is issued exactly once.
    let bus = vec![BusMessage::Other, BusMessage::Eos];
    let plan = w.set_pipeline_state("stop", &bus, 77).unwrap();
    assert_eq!(
        plan,
        vec![
            DrainAction::Eos { seq: 77 },
            DrainAction::AwaitDrained,
            DrainAction::SetState { target: LifecycleState::Stopped },
        ]
    );
    assert_eq!(w.pipeline.as_ref().unwrap().state, LifecycleState::Stopped);

    // Stopping again performs nothing: the state change happened once.
    let plan = w.set_pipeline_state("stop", &vec![], 78).unwrap();
    assert!(plan.is_empty());
    assert_eq!(w.pipeline.as_ref().unwrap().state, LifecycleState::Stopped);
}

#[test]
fn properties_resolve_through_the_run() {
    let mut w = World::new();
    w.set_pipeline(two_node_pipeline());
    w.set_property("src::pattern", "smpte").unwrap();
    assert_eq!(
        w.get_property("src::pattern").unwrap(),
        &Value::EnumName("smpte".to_string())
    );
    assert!(matches!(
        w.get_property("src::zoom"),
        Err(EngineError::NotFound { .. })
    ));
    let mut empty = World::new();
    assert_eq!(
        empty.set_property("src::pattern", "smpte"),
        Err(EngineError::PipelineNotConfigured)
    );
}

#[test]
fn monitored_run_tears_down_cleanly() {
    let mut w = World::new();
    w.set_pipeline(two_node_pipeline());
    w.monitor.add_config("flags=all".to_string());
    let flushed = w.monitor.activate().unwrap();
    assert_eq!(flushed, vec!["flags=all".to_string()]);

    w.set_pipeline_state("play", &vec![], 5).unwrap();

    // With monitoring active the drain brackets the end-of-stream with a
    // flush pair, all three sharing the drain's sequence identifier.
    let bus = vec![BusMessage::Eos];
    let plan = w.teardown(&bus, 9, 0).unwrap();
    assert_eq!(
        plan,
        vec![
            DrainAction::FlushStart { seq: 9 },
            DrainAction::FlushStop { seq: 9 },
            DrainAction::Eos { seq: 9 },
            DrainAction::AwaitDrained,
            DrainAction::SetState { target: LifecycleState::Stopped },
        ]
    );
    assert_eq!(w.pipeline.as_ref().unwrap().state, LifecycleState::Stopped);
    assert_eq!(w.monitor.assert_no_reports(), Ok(()));
}

#[test]
fn unclean_finalization_fails_the_run() {
    let mut w = World::new();
    w.set_pipeline(two_node_pipeline());
    w.monitor.activate().unwrap();
    w.monitor.record_report("rule violated".to_string());
    let bus = vec![BusMessage::Eos];
    w.set_pipeline_state("play", &vec![], 1).unwrap();
    match w.teardown(&bus, 2, 7) {
        Err(EngineError::FinalizeFailed { code, summary }) => {
            assert_eq!(code, 7);
            assert_eq!(summary, "rule violated\n");
        },
        other => panic!("expected FinalizeFailed, got {:?}", other),
    }
}
