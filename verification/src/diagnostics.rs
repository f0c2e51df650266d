//! The frame-rate readout shown by the host's stats overlay.
//!
//! Frames are counted between readings; once at least a second has
//! passed, the rate is recomputed from the frames seen in that window and
//! the counter restarts. Time is carried in milliseconds and the rate in
//! thousandths of a frame per second, so the bookkeeping is exact.

use vstd::prelude::*;

verus! {

/// The stats overlay's frame-rate widget.
pub struct UsageDiagnostics;

/// The widget's state between frames: frames since the last reading, when
/// that reading was taken, and the rate it produced.
#[derive(Clone, Copy, Debug, PartialEq, Eq, Structural)]
pub struct DiagnosticsState {
    /// Frames counted since the last reading.
    pub frame_count: u32,
    /// When the last reading was taken, in milliseconds.
    pub last_frame_ms: u64,
    /// The last reading, in thousandths of a frame per second.
    pub fps_milli: u64,
}

impl UsageDiagnostics {
    /// Count one frame at `now_ms`; once a full second has passed since
    /// the last reading, produce a new rate over that window and restart
    /// the counter.
    pub fn update(state: DiagnosticsState, now_ms: u64) -> (r: DiagnosticsState)
        requires
            state.last_frame_ms <= now_ms,
            state.frame_count < u32::MAX,
        ensures
            now_ms - state.last_frame_ms >= 1000 ==> ({
                &&& r.frame_count == 0
                &&& r.last_frame_ms == now_ms
                &&& r.fps_milli == (state.frame_count + 1) * 1_000_000 / (
                now_ms - state.last_frame_ms)
            }),
            now_ms - state.last_frame_ms < 1000 ==> ({
                &&& r.frame_count == state.frame_count + 1
                &&& r.last_frame_ms == state.last_frame_ms
                &&& r.fps_milli == state.fps_milli
            }),
    {
        let frame_count: u32 = state.frame_count + 1;
        let elapsed_ms: u64 = now_ms - state.last_frame_ms;
        if elapsed_ms >= 1000 {
            proof {
                assert((frame_count as int) * 1_000_000 <= 0xf_4240_0000_0000) by (nonlinear_arith)
                    requires
                        frame_count <= 0xffff_ffff;
            }
            DiagnosticsState {
                frame_count: 0,
                last_frame_ms: now_ms,
                fps_milli: (frame_count as u64) * 1_000_000 / elapsed_ms,
            }
        } else {
            DiagnosticsState { frame_count, last_frame_ms: state.last_frame_ms, fps_milli: state.fps_milli }
        }
    }
}

} // verus!
