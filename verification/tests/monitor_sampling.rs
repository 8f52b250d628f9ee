use pipeline_harness::errors::EngineError;
use pipeline_harness::monitor::MonitorState;
use pipeline_harness::sampler::{Frame, PixelFormat, SinkState, check_last_frame, get_last_frame,
    get_last_frame_on_element};

fn tiny_frame() -> Frame {
    Frame { format: PixelFormat::Rgb, width: 1, height: 1, fps: 30, data: vec![9, 9, 9] }
}

#[test]
fn sampling_needs_the_retention_capability() {
    // The capability flag missing entirely: a configuration error, never a
    // silent absent result.
    let sink = SinkState {
        name: "videosink0".to_string(),
        enable_last_sample: None,
        last_sample: Some(tiny_frame()),
    };
    match get_last_frame_on_element(&sink) {
        Err(EngineError::CapabilityNotEnabled { element }) => assert_eq!(element, "videosink0"),
        other => panic!("expected CapabilityNotEnabled, got {:?}", other),
    }
    // The capability exposed but disabled: the same error.
    let sink = SinkState { enable_last_sample: Some(false), ..sink };
    assert!(matches!(
        get_last_frame_on_element(&sink),
        Err(EngineError::CapabilityNotEnabled { .. })
    ));
}

#[test]
fn sampling_distinguishes_not_ready_from_misconfigured() {
    let sink = SinkState {
        name: "videosink0".to_string(),
        enable_last_sample: Some(true),
        last_sample: None,
    };
    assert_eq!(get_last_frame_on_element(&sink), Ok(&None));
    let sink = SinkState { last_sample: Some(tiny_frame()), ..sink };
    assert_eq!(get_last_frame_on_element(&sink), Ok(&Some(tiny_frame())));
}

#[test]
fn sampling_by_name_finds_the_sink() {
    let sinks = vec![
        SinkState {
            name: "audiosink0".to_string(),
            enable_last_sample: Some(false),
            last_sample: None,
        },
        SinkState {
            name: "videosink0".to_string(),
            enable_last_sample: Some(true),
            last_sample: Some(tiny_frame()),
        },
    ];
    assert_eq!(
        get_last_frame(&sinks, &"videosink0".to_string()),
        Ok(&Some(tiny_frame()))
    );
    match get_last_frame(&sinks, &"midisink0".to_string()) {
        Err(EngineError::NotFound { token }) => assert_eq!(token, "midisink0"),
        other => panic!("expected NotFound, got {:?}", other),
    }
    assert!(matches!(
        get_last_frame(&sinks, &"audiosink0".to_string()),
        Err(EngineError::CapabilityNotEnabled { .. })
    ));
}

#[test]
fn frame_poll_sees_the_first_retained_frame() {
    let present = vec![false, false, true];
    assert_eq!(check_last_frame("sink", Some(true), &present, 500, 5000), Ok(1000));
}

#[test]
fn frame_poll_times_out_without_a_frame() {
    let present = vec![false; 20];
    match check_last_frame("sink", Some(true), &present, 500, 5000) {
        Err(EngineError::FrameTimeout { element, elapsed_ms }) => {
            assert_eq!(element, "sink");
            assert_eq!(elapsed_ms, 5000);
        },
        other => panic!("expected FrameTimeout, got {:?}", other),
    }
}

#[test]
fn frame_poll_checks_the_capability_first() {
    let present = vec![true];
    assert!(matches!(
        check_last_frame("sink", Some(false), &present, 500, 5000),
        Err(EngineError::CapabilityNotEnabled { .. })
    ));
}

#[test]
fn monitor_asserting_before_activation_is_misuse() {
    let m = MonitorState::new();
    assert_eq!(m.report_count(), Err(EngineError::NotActivated));
    assert_eq!(m.assert_no_reports(), Err(EngineError::NotActivated));
}

#[test]
fn monitor_activates_once() {
    let mut m = MonitorState::new();
    m.add_config("flags=all".to_string());
    m.add_config("max-latency=20".to_string());
    let flushed = m.activate().unwrap();
    assert_eq!(flushed, vec!["flags=all".to_string(), "max-latency=20".to_string()]);
    assert_eq!(m.activate(), Err(EngineError::AlreadyActivated));
    // Configuration after activation is ignored for the rest of the run.
    m.add_config("too-late".to_string());
    assert_eq!(m.config.len(), 2);
}

#[test]
fn monitor_assertion_passes_only_without_reports() {
    let mut m = MonitorState::new();
    m.activate().unwrap();
    assert_eq!(m.report_count(), Ok(0));
    assert_eq!(m.assert_no_reports(), Ok(()));
    m.record_report("buffer dropped".to_string());
    m.record_report("late rendering".to_string());
    assert_eq!(m.report_count(), Ok(2));
    match m.assert_no_reports() {
        Err(EngineError::ViolationsReported { count, summary }) => {
            assert_eq!(count, 2);
            assert_eq!(summary, "buffer dropped\nlate rendering\n");
        },
        other => panic!("expected ViolationsReported, got {:?}", other),
    }
}

#[test]
fn monitor_finalization_needs_the_clean_sentinel() {
    let mut m = MonitorState::new();
    m.activate().unwrap();
    assert_eq!(m.finalize(0), Ok(()));
    m.record_report("one issue".to_string());
    match m.finalize(18) {
        Err(EngineError::FinalizeFailed { code, summary }) => {
            assert_eq!(code, 18);
            assert_eq!(summary, "one issue\n");
        },
        other => panic!("expected FinalizeFailed, got {:?}", other),
    }
}
