//! The hardware encoder of Windows: how it is set up and what its events lead to.

use crate::engine::EncodedFrame;
use crate::payload::held;
use bytes::Bytes;
use vstd::prelude::*;

verus! {

/// Two numbers in one, the way the encoder takes sizes and rates.
pub open spec fn packed(hi: u32, lo: u32) -> int {
    hi * 0x1_0000_0000 + lo
}

/// Two numbers in one, the way the encoder takes sizes and rates.
pub fn pack(hi: u32, lo: u32) -> (r: u64)
    ensures
        r == packed(hi, lo),
{
    hi as u64 * 0x1_0000_0000 + lo as u64
}

/// The numbers can be told apart again.
pub proof fn law_packed_apart(hi: u32, lo: u32)
    ensures
        packed(hi, lo) / 0x1_0000_0000 == hi,
        packed(hi, lo) % 0x1_0000_0000 == lo,
{
}

/// The duration of a frame, in units of 100 ns.
pub open spec fn frame_ticks(fps: u32) -> int {
    if fps == 0 {
        10_000_000
    } else {
        10_000_000int / fps as int
    }
}

/// The duration of a frame, in units of 100 ns.
pub fn frame_dur_100ns(fps: u32) -> (r: i64)
    ensures
        r == frame_ticks(fps),
{
    if fps == 0 {
        10_000_000
    } else {
        10_000_000 / fps as i64
    }
}

/// A setting of the encoder.
#[derive(Clone, Copy, Debug, PartialEq, Eq, Structural)]
pub enum CodecSetting {
    /// Hold no frames back: a switch.
    LowLatencyMode,
    /// The same, for encoders that know it under the common name: a switch.
    CommonLowLatency,
    /// How the bit rate is kept.
    RateControl,
    /// The bit rate, in bit/s.
    MeanBitRate,
    /// The distance of key frames, in frames.
    GopSize,
    /// How many frames may wait for a later one.
    BPictureCount,
    /// From 0, for speed, to 100, for quality.
    QualityVsSpeed,
}

/// The system's number for a constant bit rate.
pub const RATE_CBR: u32 = 0;

/// The balance of speed and quality.
pub const SPEED: u32 = 33;

/// The settings for a stream with little delay, in the order in which they are made:
/// no frame is held back, the bit rate is constant, no frame waits for a later one.
pub open spec fn setting_list(bitrate_bps: u32, gop_frames: u32) -> Seq<(CodecSetting, u32)> {
    seq![
        (CodecSetting::LowLatencyMode, 1u32),
        (CodecSetting::CommonLowLatency, 1u32),
        (CodecSetting::RateControl, RATE_CBR),
        (CodecSetting::MeanBitRate, bitrate_bps),
        (CodecSetting::GopSize, gop_frames),
        (CodecSetting::BPictureCount, 0u32),
        (CodecSetting::QualityVsSpeed, SPEED),
    ]
}

/// The settings for a stream with little delay, in the order in which they are made. A
/// switch that is on has the value one.
pub fn codec_settings(bitrate_bps: u32, gop_frames: u32) -> (r: Vec<(CodecSetting, u32)>)
    ensures
        r@ == setting_list(bitrate_bps, gop_frames),
{
    let mut r: Vec<(CodecSetting, u32)> = Vec::new();
    r.push((CodecSetting::LowLatencyMode, 1));
    r.push((CodecSetting::CommonLowLatency, 1));
    r.push((CodecSetting::RateControl, RATE_CBR));
    r.push((CodecSetting::MeanBitRate, bitrate_bps));
    r.push((CodecSetting::GopSize, gop_frames));
    r.push((CodecSetting::BPictureCount, 0));
    r.push((CodecSetting::QualityVsSpeed, SPEED));
    r
}

/// How many input types the encoder is asked for.
pub const MAX_INPUT_TYPES: usize = 64;

/// The number of the first type that is NV12, from `i` on, or nothing.
pub open spec fn first_nv12(types: Seq<bool>, i: int) -> Option<usize>
    decreases types.len() - i,
{
    if i < 0 || i >= types.len() || i >= MAX_INPUT_TYPES {
        None
    } else if types[i] {
        Some(i as usize)
    } else {
        first_nv12(types, i + 1)
    }
}

/// Which input type is taken: the first of those that the encoder offers that is
/// NV12. `types` says of each whether it is.
pub fn choose_input(types: &Vec<bool>) -> (r: Option<usize>)
    ensures
        r == first_nv12(types@, 0),
{
    let mut i: usize = 0;
    while i < types.len() && i < MAX_INPUT_TYPES
        invariant
            i <= types@.len(),
            i <= MAX_INPUT_TYPES,
            first_nv12(types@, 0) == first_nv12(types@, i as int),
        decreases types@.len() - i,
    {
        if types[i] {
            return Some(i);
        }
        i += 1;
    }
    None
}

/// The system's numbers for the encoder's events.
pub const EV_NEED_INPUT: u32 = 601;

pub const EV_HAVE_OUTPUT: u32 = 602;

/// The system's code for: the form of the output has changed.
pub const STREAM_CHANGE: u32 = 0xc00d6d61;

/// The system's code for: there is no output yet.
pub const NEED_MORE_INPUT: u32 = 0xc00d6d72;

/// What an attempt to take output leads to.
#[derive(Clone, Copy, Debug, PartialEq, Eq, Structural)]
pub enum DrainStep {
    /// Make a frame of the sample.
    Frame,
    /// There is nothing to take.
    Nothing,
    /// Agree on the new form, and try again.
    Renegotiate,
    /// The encoder has failed with this code.
    Fail(u32),
}

/// What an attempt to take output leads to.
pub open spec fn drain_of(result: Result<bool, u32>) -> DrainStep {
    match result {
        Ok(true) => DrainStep::Frame,
        Ok(false) => DrainStep::Nothing,
        Err(code) => if code == STREAM_CHANGE {
            DrainStep::Renegotiate
        } else if code == NEED_MORE_INPUT {
            DrainStep::Nothing
        } else {
            DrainStep::Fail(code)
        },
    }
}

/// What an attempt to take output leads to: `Ok` says whether there is a sample.
pub fn drain_output(result: Result<bool, u32>) -> (r: DrainStep)
    ensures
        r == drain_of(result),
{
    match result {
        Ok(sample) => if sample {
            DrainStep::Frame
        } else {
            DrainStep::Nothing
        },
        Err(code) => if code == STREAM_CHANGE {
            DrainStep::Renegotiate
        } else if code == NEED_MORE_INPUT {
            DrainStep::Nothing
        } else {
            DrainStep::Fail(code)
        },
    }
}

/// What has come of the last action.
#[derive(Clone, Copy, Debug, PartialEq, Eq)]
pub enum EncoderEvent {
    /// The encoder has sent the event with this number.
    Event(u32),
    /// There are no more frames.
    NoFrame,
    /// A frame has been handed to the encoder.
    Submitted,
    /// Output was asked for: `Ok` says whether there is a sample.
    Output(Result<bool, u32>),
    /// The new form of the output is agreed on.
    Renegotiated,
    /// An encoded frame has been handed on.
    HandedOn,
    /// The action has failed.
    Failed,
}

/// What is done next.
#[derive(Clone, Copy, Debug, PartialEq, Eq, Structural)]
pub enum EncoderAction {
    /// Wait for an event of the encoder.
    GetEvent,
    /// Ask for the next frame, and hand it to the encoder.
    AskFrame,
    /// Ask the encoder for output.
    Drain,
    /// Agree on the new form of the output.
    Renegotiate,
    /// Hand the encoded frame on.
    HandOn,
    /// It is over, in order.
    EndWell,
    /// It is over, with the error that came last.
    EndError,
}

/// What a round begins with: an event is waited for, unless it is time to stop.
pub open spec fn round(stop: bool) -> EncoderAction {
    if stop {
        EncoderAction::EndWell
    } else {
        EncoderAction::GetEvent
    }
}

/// What an event leads to.
pub open spec fn encoder_action(stop: bool, event: EncoderEvent) -> EncoderAction {
    match event {
        EncoderEvent::Event(n) => if n == EV_NEED_INPUT {
            EncoderAction::AskFrame
        } else if n == EV_HAVE_OUTPUT {
            EncoderAction::Drain
        } else {
            round(stop)
        },
        EncoderEvent::NoFrame => EncoderAction::EndWell,
        EncoderEvent::Submitted => round(stop),
        EncoderEvent::Output(result) => match drain_of(result) {
            DrainStep::Frame => EncoderAction::HandOn,
            DrainStep::Nothing => round(stop),
            DrainStep::Renegotiate => EncoderAction::Renegotiate,
            DrainStep::Fail(_) => EncoderAction::EndError,
        },
        EncoderEvent::Renegotiated => EncoderAction::Drain,
        EncoderEvent::HandedOn => round(stop),
        EncoderEvent::Failed => EncoderAction::EndError,
    }
}

/// What an event leads to. `stop` tells whether it is time to stop; that is heeded
/// where a new event would be waited for.
pub fn encoder_next(stop: bool, event: EncoderEvent) -> (r: EncoderAction)
    ensures
        r == encoder_action(stop, event),
{
    let top = if stop {
        EncoderAction::EndWell
    } else {
        EncoderAction::GetEvent
    };
    match event {
        EncoderEvent::Event(n) => if n == EV_NEED_INPUT {
            EncoderAction::AskFrame
        } else if n == EV_HAVE_OUTPUT {
            EncoderAction::Drain
        } else {
            top
        },
        EncoderEvent::NoFrame => EncoderAction::EndWell,
        EncoderEvent::Submitted => top,
        EncoderEvent::Output(result) => match drain_output(result) {
            DrainStep::Frame => EncoderAction::HandOn,
            DrainStep::Nothing => top,
            DrainStep::Renegotiate => EncoderAction::Renegotiate,
            DrainStep::Fail(_) => EncoderAction::EndError,
        },
        EncoderEvent::Renegotiated => EncoderAction::Drain,
        EncoderEvent::HandedOn => top,
        EncoderEvent::Failed => EncoderAction::EndError,
    }
}

/// It is over.
pub open spec fn encoder_over(action: EncoderAction) -> bool {
    action == EncoderAction::EndWell || action == EncoderAction::EndError
}

/// What is done after an action that an event came of.
pub open spec fn encoder_after(
    action: EncoderAction,
    stop: bool,
    event: EncoderEvent,
) -> EncoderAction {
    if encoder_over(action) {
        action
    } else {
        encoder_action(stop, event)
    }
}

/// Drives the encoder: the caller does what `action` says, and tells what came of
/// it.
pub struct EncoderLoop {
    pub action: EncoderAction,
}

impl EncoderLoop {
    /// The beginning.
    pub fn new(stop: bool) -> (r: EncoderLoop)
        ensures
            r.action == round(stop),
    {
        EncoderLoop {
            action: if stop {
                EncoderAction::EndWell
            } else {
                EncoderAction::GetEvent
            },
        }
    }

    /// Goes on with what came of the action. What is over stays over.
    pub fn advance(&mut self, stop: bool, event: EncoderEvent)
        ensures
            final(self).action == encoder_after(old(self).action, stop, event),
    {
        match self.action {
            EncoderAction::EndWell => {},
            EncoderAction::EndError => {},
            _ => {
                self.action = encoder_next(stop, event);
            },
        }
    }
}

/// The action after the first `n` events. `stops[i]` tells whether it is time to
/// stop when the action with number `i` is chosen.
pub open spec fn encoder_run(
    stops: Seq<bool>,
    events: Seq<EncoderEvent>,
    n: int,
) -> EncoderAction
    decreases n,
{
    if n <= 0 {
        round(stops[0])
    } else {
        encoder_after(encoder_run(stops, events, n - 1), stops[n], events[n - 1])
    }
}

/// Once it is over, nothing is asked for and nothing is handed on, whatever comes.
pub proof fn law_encoder_over(stops: Seq<bool>, events: Seq<EncoderEvent>, i: int, j: int)
    requires
        0 <= i <= j,
        encoder_over(encoder_run(stops, events, i)),
    ensures
        encoder_run(stops, events, j) == encoder_run(stops, events, i),
    decreases j,
{
    if i < j {
        law_encoder_over(stops, events, i, j - 1);
    }
}

/// While it is not over, a frame is asked for exactly where the encoder needs one,
/// a frame is handed on exactly where the encoder gave one, and it ends with an
/// error exactly where something has failed. It ends in order exactly where there
/// are no more frames, or where it is time to stop and a new event would be waited
/// for.
pub proof fn law_encoder_steps(stops: Seq<bool>, events: Seq<EncoderEvent>, k: int)
    requires
        0 <= k,
        !encoder_over(encoder_run(stops, events, k)),
    ensures
        ({
            let a = encoder_run(stops, events, k + 1);
            let e = events[k];
            &&& a == EncoderAction::AskFrame <==> e == EncoderEvent::Event(EV_NEED_INPUT)
            &&& a == EncoderAction::HandOn <==> e == EncoderEvent::Output(Ok(true))
            &&& a == EncoderAction::Drain <==> e == EncoderEvent::Event(EV_HAVE_OUTPUT) || e
                == EncoderEvent::Renegotiated
            &&& a == EncoderAction::Renegotiate <==> e == EncoderEvent::Output(
                Err(STREAM_CHANGE),
            )
            &&& a == EncoderAction::EndError <==> e == EncoderEvent::Failed || (e matches
                EncoderEvent::Output(Err(code)) && code != STREAM_CHANGE && code
                != NEED_MORE_INPUT)
            &&& a == EncoderAction::EndWell <==> e == EncoderEvent::NoFrame || (stops[k + 1]
                && encoder_action(false, e) == EncoderAction::GetEvent)
        }),
{
}

/// The frame that a sample makes. The encoder marks a key frame with a one, and
/// hands on the time of the capture.
pub fn sample_frame(data: &[u8], clean_point: Option<u32>, time: Option<i64>, fps: u32) -> (r:
    EncodedFrame)
    ensures
        held(r.data) == data@,
        r.is_keyframe == (clean_point == Some(1u32)),
        r.duration_ns == frame_ticks(fps) * 100,
        r.ts_100ns == (match time {
            Some(t) => t,
            None => 0,
        }),
{
    let ticks = frame_dur_100ns(fps);
    assert(0 <= ticks <= 10_000_000) by {
        if fps > 0 {
            assert(0 <= 10_000_000int / fps as int <= 10_000_000) by (nonlinear_arith)
                requires
                    fps > 0,
            ;
        }
    }
    EncodedFrame {
        data: Bytes::copy_from_slice(data),
        is_keyframe: match clean_point {
            Some(n) => n == 1,
            None => false,
        },
        duration_ns: ticks as u64 * 100,
        ts_100ns: match time {
            Some(t) => t,
            None => 0,
        },
    }
}

/// The frames of a second fill it, up to a tick for each.
pub proof fn law_ticks_fill_a_second(fps: u32)
    requires
        fps > 0,
    ensures
        frame_ticks(fps) * fps <= 10_000_000,
        10_000_000 < (frame_ticks(fps) + 1) * fps,
        frame_ticks(0) == 10_000_000,
{
    assert(10_000_000int / fps as int * fps <= 10_000_000) by (nonlinear_arith)
        requires
            fps > 0,
    ;
    assert(10_000_000 < (10_000_000int / fps as int + 1) * fps) by (nonlinear_arith)
        requires
            fps > 0,
    ;
}

/// Of the first 64 types that the encoder offers, the first that is NV12 is taken; no
/// other is taken in its place.
pub proof fn law_first_fitting_type(types: Seq<bool>)
    ensures
        match first_nv12(types, 0) {
            Some(k) => k < types.len() && k < 64 && types[k as int] && forall|j: int|
                0 <= j < k ==> !#[trigger] types[j],
            None => forall|j: int| 0 <= j < types.len() && j < 64 ==> !#[trigger] types[j],
        },
{
    lemma_first_nv12(types, 0);
}

/// The first type that is NV12, from `i` on.
proof fn lemma_first_nv12(types: Seq<bool>, i: int)
    requires
        0 <= i <= 64,
    ensures
        match first_nv12(types, i) {
            Some(k) => i <= k < types.len() && k < 64 && types[k as int] && forall|j: int|
                i <= j < k ==> !#[trigger] types[j],
            None => forall|j: int| i <= j < types.len() && j < 64 ==> !#[trigger] types[j],
        },
    decreases 64 - i,
{
    if i < types.len() && i < 64 && !types[i] {
        lemma_first_nv12(types, i + 1);
    }
}

/// Output is a frame where there is a sample; without one, and where the encoder wants
/// more input first, there is nothing; a new form of the output is agreed on; every
/// other error is one, and keeps its code.
pub proof fn law_drain_outcomes(code: u32)
    ensures
        drain_of(Ok(true)) == DrainStep::Frame,
        drain_of(Ok(false)) == DrainStep::Nothing,
        drain_of(Err(code)) == DrainStep::Renegotiate <==> code == 0xc00d_6d61,
        drain_of(Err(code)) == DrainStep::Nothing <==> code == 0xc00d_6d72,
        code != 0xc00d_6d61 && code != 0xc00d_6d72 ==> drain_of(Err(code)) == DrainStep::Fail(code),
{
}

/// The encoder asks for input with event 601 and offers output with event 602; on
/// every other event it is waited for the next one, unless it is time to stop.
pub proof fn law_encoder_events(stop: bool, n: u32)
    ensures
        encoder_action(stop, EncoderEvent::Event(n)) == EncoderAction::AskFrame <==> n == 601,
        encoder_action(stop, EncoderEvent::Event(n)) == EncoderAction::Drain <==> n == 602,
        n != 601 && n != 602 ==> encoder_action(false, EncoderEvent::Event(n))
            == EncoderAction::GetEvent && encoder_action(true, EncoderEvent::Event(n))
            == EncoderAction::EndWell,
        encoder_action(stop, EncoderEvent::NoFrame) == EncoderAction::EndWell,
        encoder_action(stop, EncoderEvent::Failed) == EncoderAction::EndError,
{
}

/// Whatever the bit rate and the distance of key frames are, the encoder holds nothing
/// back, keeps the bit rate constant, uses no frames that wait for later ones, and
/// leans towards speed; there are no other settings.
pub proof fn law_settings(bitrate_bps: u32, gop_frames: u32)
    ensures
        ({
            let s = setting_list(bitrate_bps, gop_frames);
            &&& s.len() == 7
            &&& s[0] == (CodecSetting::LowLatencyMode, 1u32)
            &&& s[1] == (CodecSetting::CommonLowLatency, 1u32)
            &&& s[2] == (CodecSetting::RateControl, 0u32)
            &&& s[3] == (CodecSetting::MeanBitRate, bitrate_bps)
            &&& s[4] == (CodecSetting::GopSize, gop_frames)
            &&& s[5] == (CodecSetting::BPictureCount, 0u32)
            &&& s[6] == (CodecSetting::QualityVsSpeed, 33u32)
        }),
{
}

} // verus!
