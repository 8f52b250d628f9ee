use pipeline_harness::color::{
    NamedColor, Rgba, extract_palette, frame_matches, nearest_named, parse_color_name, quantize,
    to_rgba, verify_color,
};
use pipeline_harness::errors::EngineError;
use pipeline_harness::sampler::{Frame, PixelFormat};

fn solid(r: u8, g: u8, b: u8, pixels: u32, fps: u32) -> Frame {
    let mut data = Vec::new();
    for _ in 0..pixels {
        data.extend_from_slice(&[r, g, b, 255]);
    }
    Frame { format: PixelFormat::Rgba, width: pixels, height: 1, fps, data }
}

fn red_frame() -> Frame {
    solid(255, 0, 0, 4, 10)
}

fn blue_frame() -> Frame {
    solid(0, 0, 255, 4, 10)
}

#[test]
fn conversion_reads_each_layout() {
    let f = Frame {
        format: PixelFormat::Bgra,
        width: 2,
        height: 1,
        fps: 30,
        data: vec![10, 20, 30, 40, 50, 60, 70, 80],
    };
    let px = to_rgba(&f);
    assert_eq!(px, vec![
        Rgba { r: 30, g: 20, b: 10, a: 40 },
        Rgba { r: 70, g: 60, b: 50, a: 80 },
    ]);
    let f = Frame {
        format: PixelFormat::Rgb,
        width: 2,
        height: 1,
        fps: 30,
        data: vec![1, 2, 3, 4, 5, 6],
    };
    let px = to_rgba(&f);
    assert_eq!(px, vec![
        Rgba { r: 1, g: 2, b: 3, a: 255 },
        Rgba { r: 4, g: 5, b: 6, a: 255 },
    ]);
}

#[test]
fn quantization_pools_close_shades() {
    assert_eq!(
        quantize(Rgba { r: 250, g: 13, b: 7, a: 9 }),
        Rgba { r: 240, g: 0, b: 0, a: 255 }
    );
    assert_eq!(
        quantize(Rgba { r: 255, g: 0, b: 0, a: 255 }),
        Rgba { r: 240, g: 0, b: 0, a: 255 }
    );
}

#[test]
fn nearest_named_colors() {
    assert_eq!(nearest_named(Rgba { r: 250, g: 10, b: 10, a: 255 }), NamedColor::Red);
    assert_eq!(nearest_named(Rgba { r: 5, g: 5, b: 5, a: 255 }), NamedColor::Black);
    assert_eq!(nearest_named(Rgba { r: 240, g: 240, b: 250, a: 255 }), NamedColor::White);
    assert_eq!(nearest_named(Rgba { r: 10, g: 240, b: 240, a: 255 }), NamedColor::Cyan);
}

#[test]
fn color_names_parse_case_insensitively() {
    assert_eq!(parse_color_name("red"), Some(NamedColor::Red));
    assert_eq!(parse_color_name("RED"), Some(NamedColor::Red));
    assert_eq!(parse_color_name("Magenta"), Some(NamedColor::Magenta));
    assert_eq!(parse_color_name("chartreuse"), None);
}

#[test]
fn palette_puts_the_dominant_color_first() {
    // Four reddish pixels, two blue ones: red dominates the palette.
    let q = vec![
        quantize(Rgba { r: 255, g: 0, b: 0, a: 255 }),
        quantize(Rgba { r: 250, g: 5, b: 3, a: 255 }),
        quantize(Rgba { r: 0, g: 0, b: 255, a: 255 }),
        quantize(Rgba { r: 248, g: 2, b: 9, a: 255 }),
        quantize(Rgba { r: 3, g: 1, b: 250, a: 255 }),
        quantize(Rgba { r: 244, g: 12, b: 1, a: 255 }),
    ];
    let palette = extract_palette(&q);
    assert_eq!(palette.len(), 2);
    assert_eq!(palette[0], Rgba { r: 240, g: 0, b: 0, a: 255 });
    assert_eq!(palette[1], Rgba { r: 0, g: 0, b: 240, a: 255 });
    // A count tie keeps first-appearance order.
    let q = vec![
        Rgba { r: 240, g: 0, b: 0, a: 255 },
        Rgba { r: 0, g: 240, b: 0, a: 255 },
    ];
    let palette = extract_palette(&q);
    assert_eq!(palette, vec![
        Rgba { r: 240, g: 0, b: 0, a: 255 },
        Rgba { r: 0, g: 240, b: 0, a: 255 },
    ]);
}

#[test]
fn frame_match_decides_by_palette() {
    assert!(frame_matches(&red_frame(), NamedColor::Red));
    assert!(!frame_matches(&red_frame(), NamedColor::Green));
    assert!(frame_matches(&blue_frame(), NamedColor::Blue));
}

#[test]
fn continuous_match_passes_at_the_dwell_and_not_before() {
    // The target color from the first poll on, at 10 frames per second: the
    // pass comes exactly when the elapsed dwell reaches 1000 ms.
    let samples: Vec<Option<Frame>> = (0..60).map(|_| Some(red_frame())).collect();
    let r = verify_color(&samples, 10, NamedColor::Red, 1000, 5000, "sink");
    assert_eq!(r, Ok(1000));
}

#[test]
fn never_matching_source_times_out_at_the_deadline() {
    let samples: Vec<Option<Frame>> = (0..60).map(|_| Some(blue_frame())).collect();
    match verify_color(&samples, 10, NamedColor::Red, 1000, 5000, "videosink0") {
        Err(EngineError::VerificationTimeout { element, elapsed_ms }) => {
            assert_eq!(element, "videosink0");
            assert_eq!(elapsed_ms, 5000);
        },
        other => panic!("expected VerificationTimeout, got {:?}", other),
    }
}

#[test]
fn a_miss_does_not_reset_the_dwell() {
    // The target shows for 400 ms, something else for 200 ms, then the target
    // again. The dwell start is armed at the very first match and a miss
    // never clears it, so the pass comes at 1000 ms — the first matching poll
    // a full dwell after the first match — not at 1600 ms as a reset-on-miss
    // policy would give.
    let mut samples: Vec<Option<Frame>> = Vec::new();
    for _ in 0..4 {
        samples.push(Some(red_frame()));
    }
    for _ in 4..6 {
        samples.push(Some(blue_frame()));
    }
    for _ in 6..40 {
        samples.push(Some(red_frame()));
    }
    let r = verify_color(&samples, 10, NamedColor::Red, 1000, 5000, "sink");
    assert_eq!(r, Ok(1000));
}

#[test]
fn absent_frames_do_not_fail_the_poll() {
    // Nothing sampled for the first three polls, then the target color: the
    // absent polls are not errors, and the dwell starts at the first match.
    let mut samples: Vec<Option<Frame>> = vec![None, None, None];
    for _ in 3..40 {
        samples.push(Some(red_frame()));
    }
    let r = verify_color(&samples, 10, NamedColor::Red, 1000, 5000, "sink");
    assert_eq!(r, Ok(1300));
}

#[test]
fn zero_frame_rate_is_a_configuration_error() {
    let samples: Vec<Option<Frame>> = vec![Some(red_frame())];
    assert_eq!(
        verify_color(&samples, 0, NamedColor::Red, 1000, 5000, "sink"),
        Err(EngineError::ZeroFrameRate)
    );
}
