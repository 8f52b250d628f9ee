//! Frame sampling: reading the most recent output frame from a sink node.
//!
//! A sink can only be sampled when it exposes and enables the retention
//! capability (it keeps its most recent output). A missing or disabled
//! capability is a configuration error, never a silent "no frame"; a sink
//! that simply has not produced anything yet answers with an explicit absent
//! result that callers may retry on.

use vstd::prelude::*;
use crate::errors::EngineError;

verus! {

/// The layout of a frame's pixel data.
#[derive(Debug, Clone, Copy, PartialEq, Eq, Structural)]
pub enum PixelFormat {
    /// Four bytes per pixel: red, green, blue, alpha.
    Rgba,
    /// Four bytes per pixel: blue, green, red, alpha.
    Bgra,
    /// Three bytes per pixel: red, green, blue.
    Rgb,
}

impl PixelFormat {
    /// Bytes per pixel of the layout.
    pub open spec fn spec_bytes_per_pixel(self) -> int {
        match self {
            PixelFormat::Rgba => 4,
            PixelFormat::Bgra => 4,
            PixelFormat::Rgb => 3,
        }
    }

    /// Bytes per pixel of the layout.
    pub fn bytes_per_pixel(self) -> (r: usize)
        ensures
            r as int == self.spec_bytes_per_pixel(),
    {
        match self {
            PixelFormat::Rgba => 4,
            PixelFormat::Bgra => 4,
            PixelFormat::Rgb => 3,
        }
    }
}

/// An immutable captured output unit: format and dimensions metadata and the
/// raw pixel data, read-only once captured.
#[derive(Debug, Clone, PartialEq, Eq)]
pub struct Frame {
    pub format: PixelFormat,
    pub width: u32,
    pub height: u32,
    /// Frames per second of the producing source.
    pub fps: u32,
    pub data: Vec<u8>,
}

impl Frame {
    /// The number of pixels the metadata announces.
    pub open spec fn spec_pixel_count(self) -> int {
        self.width * self.height
    }

    /// Well-formedness: the data is exactly the announced pixels in the
    /// announced layout.
    pub open spec fn wf(self) -> bool {
        self.data@.len() == self.spec_pixel_count() * self.format.spec_bytes_per_pixel()
    }
}

/// The sampling-relevant state of a sink node: whether the retention
/// capability is exposed and enabled, and the frame retained right now.
#[derive(Debug, Clone, PartialEq, Eq)]
pub struct SinkState {
    pub name: String,
    /// `None` when the sink does not expose the capability at all.
    pub enable_last_sample: Option<bool>,
    /// The most recent output, superseded by the next one; `None` until the
    /// pipeline produces the first frame.
    pub last_sample: Option<Frame>,
}

/// Retrieves the most recent frame retained by the given sink. The sink must
/// expose and enable the retention capability; an absent or disabled
/// capability is a configuration error naming the sink. A sink that has not
/// produced a frame yet answers `Ok` with an absent frame.
pub fn get_last_frame_on_element<'a>(element: &'a SinkState) -> (r: Result<
    &'a Option<Frame>,
    EngineError,
>)
    ensures
        match r {
            Ok(frame) => element.enable_last_sample == Some(true) && *frame
                == element.last_sample,
            Err(e) => element.enable_last_sample != Some(true)
                && (e matches EngineError::CapabilityNotEnabled { element: n }
                    && n@ == element.name@),
        },
{
    let enabled = match element.enable_last_sample {
        Some(b) => b,
        None => false,
    };
    if !enabled {
        return Err(EngineError::CapabilityNotEnabled { element: element.name.clone() });
    }
    Ok(&element.last_sample)
}

/// The first sink of the run carrying the given name.
pub open spec fn spec_find_sink(sinks: Seq<SinkState>, name: Seq<char>, i: int) -> Option<int>
    decreases sinks.len() - i when 0 <= i <= sinks.len()
{
    if i >= sinks.len() {
        None
    } else if sinks[i].name@ == name {
        Some(i)
    } else {
        spec_find_sink(sinks, name, i + 1)
    }
}

/// Looks a sink up by name and retrieves its most recent frame. A name that
/// matches no sink is a `NotFound` carrying that exact name; the rest follows
/// the capability contract of the sink itself.
pub fn get_last_frame<'a>(sinks: &'a Vec<SinkState>, element_name: &String) -> (r: Result<
    &'a Option<Frame>,
    EngineError,
>)
    ensures
        match r {
            Ok(frame) => spec_find_sink(sinks@, element_name@, 0) matches Some(i)
                && sinks@[i].enable_last_sample == Some(true) && *frame == sinks@[i].last_sample,
            Err(e) => match e {
                EngineError::NotFound { token } => spec_find_sink(sinks@, element_name@, 0)
                    is None && token@ == element_name@,
                EngineError::CapabilityNotEnabled { element } => spec_find_sink(
                    sinks@,
                    element_name@,
                    0,
                ) matches Some(i) && sinks@[i].enable_last_sample != Some(true) && element@
                    == sinks@[i].name@,
                _ => false,
            },
        },
{
    let count = sinks.len();
    let mut i: usize = 0;
    while i < count
        invariant
            i <= count,
            count == sinks@.len(),
            spec_find_sink(sinks@, element_name@, 0) == spec_find_sink(
                sinks@,
                element_name@,
                i as int,
            ),
        decreases count - i,
    {
        if sinks[i].name.eq(element_name) {
            return get_last_frame_on_element(&sinks[i]);
        }
        i = i + 1;
    }
    Err(EngineError::NotFound { token: element_name.clone() })
}

/// How a frame poll ended: a frame was seen at the given elapsed time, or the
/// deadline passed first.
#[derive(Debug, Clone, Copy, PartialEq, Eq, Structural)]
pub enum PollOutcome {
    Seen { at: u64 },
    TimedOut { at: u64 },
}

/// The outcome of polling a sink whose retention store holds a frame at poll
/// `i` exactly when `present[i]` (a poll past the trace sees nothing). Poll
/// `i` happens at `i * interval`; a missed poll sleeps one interval and gives
/// up as soon as the elapsed time reaches the timeout.
pub open spec fn spec_frame_poll(
    present: Seq<bool>,
    interval: u64,
    timeout: u64,
    i: nat,
    now: u64,
) -> PollOutcome
    decreases timeout - now
        when interval >= 1 && now == i * interval && now <= timeout && timeout + interval
            <= u64::MAX
{
    if i < present.len() && present[i as int] {
        PollOutcome::Seen { at: now }
    } else {
        let next = (now + interval) as u64;
        if next >= timeout {
            PollOutcome::TimedOut { at: next }
        } else {
            spec_frame_poll(present, interval, timeout, i + 1, next)
        }
    }
}

/// Polls a sink for its first retained frame, sleeping one interval between
/// polls, until the deadline. The sink must have the retention capability
/// enabled, else the poll is a configuration error; a deadline reached before
/// any frame is a `FrameTimeout` naming the sink and the elapsed time.
pub fn check_last_frame(
    sink_name: &str,
    enable_last_sample: Option<bool>,
    present: &Vec<bool>,
    interval_ms: u64,
    timeout_ms: u64,
) -> (r: Result<u64, EngineError>)
    requires
        interval_ms >= 1,
        timeout_ms + interval_ms <= u64::MAX,
    ensures
        match r {
            Ok(at) => enable_last_sample == Some(true) && spec_frame_poll(
                present@,
                interval_ms,
                timeout_ms,
                0,
                0,
            ) == (PollOutcome::Seen { at }),
            Err(e) => match e {
                EngineError::CapabilityNotEnabled { element } => enable_last_sample
                    != Some(true) && element@ == sink_name@,
                EngineError::FrameTimeout { element, elapsed_ms } => enable_last_sample
                    == Some(true) && element@ == sink_name@ && spec_frame_poll(
                    present@,
                    interval_ms,
                    timeout_ms,
                    0,
                    0,
                ) == (PollOutcome::TimedOut { at: elapsed_ms }),
                _ => false,
            },
        },
{
    let enabled = match enable_last_sample {
        Some(b) => b,
        None => false,
    };
    if !enabled {
        return Err(EngineError::CapabilityNotEnabled { element: sink_name.to_owned() });
    }
    let mut i: u64 = 0;
    let mut now: u64 = 0;
    loop
        invariant
            interval_ms >= 1,
            timeout_ms + interval_ms <= u64::MAX,
            now == i * interval_ms,
            i <= now || i == 0,
            now < timeout_ms || (i == 0 && now == 0),
            enable_last_sample == Some(true),
            spec_frame_poll(present@, interval_ms, timeout_ms, 0, 0) == spec_frame_poll(
                present@,
                interval_ms,
                timeout_ms,
                i as nat,
                now,
            ),
        decreases timeout_ms - now,
    {
        let len = present.len();
        let seen = i < (len as u64) && present[i as usize];
        if seen {
            return Ok(now);
        }
        let next = now + interval_ms;
        if next >= timeout_ms {
            return Err(
                EngineError::FrameTimeout { element: sink_name.to_owned(), elapsed_ms: next },
            );
        }
        proof {
            assert((i + 1) * interval_ms == i * interval_ms + interval_ms) by (nonlinear_arith);
        }
        i = i + 1;
        now = next;
    }
}

/// Law: a sink without the retention capability never answers "absent": the
/// sample is a configuration error, whatever the sink retains.
pub proof fn lemma_capability_gate(element: SinkState, r: Result<&Option<Frame>, EngineError>)
    requires
        element.enable_last_sample != Some(true),
        match r {
            Ok(frame) => element.enable_last_sample == Some(true) && *frame
                == element.last_sample,
            Err(e) => element.enable_last_sample != Some(true)
                && (e matches EngineError::CapabilityNotEnabled { element: n }
                    && n@ == element.name@),
        },
    ensures
        r matches Err(e) && (e matches EngineError::CapabilityNotEnabled { element: n }
            && n@ == element.name@),
{
}

} // verus!
