//! Capture and encoding inside the host, on Windows without `ffmpeg`.
//!
//! One thread captures and converts, another encodes. Between them is a slot for
//! one frame, in which a newer frame replaces an older one: a queue would be a
//! delay.

use crate::capture::Grab;
use crate::engine::PipelineConfig;
use vstd::prelude::*;

verus! {

/// The pause before a lost capture is set up again, in milliseconds.
pub const REOPEN_PAUSE_MS: u64 = 200;

/// How long the encoding thread waits for a frame before it looks up, in
/// milliseconds.
pub const SLOT_WAIT_MS: u64 = 100;

/// Only outputs of the main adapter can be captured this way.
#[derive(Clone, Copy, Debug, PartialEq, Eq, Structural)]
pub struct OtherAdapter;

/// What a pipeline goes by.
#[derive(Clone, Copy, Debug, PartialEq, Eq, Structural)]
pub struct Timing {
    /// The time between two frames, in microseconds.
    pub interval_us: u64,
    /// How long an attempt to get a frame may take, in milliseconds.
    pub timeout_ms: u32,
}

/// The frame rate, at least one.
pub open spec fn rate(cfg: PipelineConfig) -> int {
    if cfg.fps == 0 {
        1
    } else {
        cfg.fps as int
    }
}

/// What a pipeline goes by, where it can run at all.
pub fn plan(cfg: &PipelineConfig) -> (r: Result<Timing, OtherAdapter>)
    ensures
        r is Err <==> cfg.adapter_index != 0,
        r matches Ok(t) ==> {
            &&& t.interval_us == 1_000_000int / rate(*cfg)
            &&& t.timeout_ms == 1000int / rate(*cfg)
            &&& cfg.fps > 0 ==> t.interval_us == 1_000_000int / cfg.fps as int && t.timeout_ms
                == 1000int / cfg.fps as int
            &&& cfg.fps == 0 ==> t.interval_us == 1_000_000 && t.timeout_ms == 1000
        },
{
    if cfg.adapter_index != 0 {
        return Err(OtherAdapter);
    }
    let fps: u32 = if cfg.fps == 0 {
        1
    } else {
        cfg.fps
    };
    Ok(Timing { interval_us: 1_000_000 / fps as u64, timeout_ms: 1000 / fps })
}

/// The size that is encoded: the picture format needs even sides.
pub fn encode_size(w: u32, h: u32) -> (r: (u32, u32))
    ensures
        r.0 == w - w % 2,
        r.1 == h - h % 2,
{
    (w - w % 2, h - h % 2)
}

/// Whether a frame is due, so that the picture is worth copying: a panel may
/// refresh faster than frames are wanted.
pub fn due(elapsed_us: u64, interval_us: u64) -> (r: bool)
    ensures
        r == (elapsed_us >= interval_us),
{
    elapsed_us >= interval_us
}

/// What happened to the capturing thread.
#[derive(Clone, Copy, Debug, PartialEq, Eq, Structural)]
pub enum CaptureEvent {
    Grabbed(Grab),
    GrabFailed,
    Converted,
    ConvertFailed,
    Published,
    Reopened,
    ReopenFailed,
}

/// What the capturing thread does next.
#[derive(Clone, Copy, Debug, PartialEq, Eq, Structural)]
pub enum CaptureAction {
    /// Try to get a frame.
    Grab,
    /// Convert the picture.
    Convert,
    /// Put the frame into the slot.
    Publish,
    /// Pause, and set the capture up again.
    Reopen,
    /// End.
    Stop,
}

/// What the capturing thread does next.
pub open spec fn capture_next(stop: bool, e: CaptureEvent) -> CaptureAction {
    match e {
        CaptureEvent::Grabbed(Grab::New) => CaptureAction::Convert,
        CaptureEvent::Converted => CaptureAction::Publish,
        CaptureEvent::GrabFailed => CaptureAction::Stop,
        CaptureEvent::ConvertFailed => CaptureAction::Stop,
        CaptureEvent::Grabbed(Grab::Lost) => if stop {
            CaptureAction::Stop
        } else {
            CaptureAction::Reopen
        },
        CaptureEvent::ReopenFailed => if stop {
            CaptureAction::Stop
        } else {
            CaptureAction::Reopen
        },
        _ => if stop {
            CaptureAction::Stop
        } else {
            CaptureAction::Grab
        },
    }
}

/// What the capturing thread does next. A loss of the desktop is waited out;
/// errors end the thread.
pub fn capture_step(stop: bool, e: CaptureEvent) -> (r: CaptureAction)
    ensures
        r == capture_next(stop, e),
{
    match e {
        CaptureEvent::Grabbed(Grab::New) => CaptureAction::Convert,
        CaptureEvent::Converted => CaptureAction::Publish,
        CaptureEvent::GrabFailed => CaptureAction::Stop,
        CaptureEvent::ConvertFailed => CaptureAction::Stop,
        CaptureEvent::Grabbed(Grab::Lost) => if stop {
            CaptureAction::Stop
        } else {
            CaptureAction::Reopen
        },
        CaptureEvent::ReopenFailed => if stop {
            CaptureAction::Stop
        } else {
            CaptureAction::Reopen
        },
        _ => if stop {
            CaptureAction::Stop
        } else {
            CaptureAction::Grab
        },
    }
}

/// The place for one frame between two threads.
pub struct Slot<T> {
    pub frame: Option<T>,
}

/// What the encoding thread finds.
pub enum SlotStep<T> {
    Frame(T),
    Wait,
    Stop,
}

impl<T> Slot<T> {
    /// A slot without a frame.
    pub fn new() -> (r: Slot<T>)
        ensures
            r.frame is None,
    {
        Slot { frame: None }
    }

    /// Puts a frame in, in the place of one that was not taken.
    pub fn put(&mut self, frame: T)
        ensures
            final(self).frame == Some(frame),
    {
        self.frame = Some(frame);
    }

    /// Takes the frame out, where there is one and the thread is to go on.
    pub fn next(&mut self, stop: bool) -> (r: SlotStep<T>)
        ensures
            stop ==> r is Stop && final(self).frame == old(self).frame,
            !stop ==> final(self).frame is None && match old(self).frame {
                Some(f) => r == SlotStep::Frame(f),
                None => r is Wait,
            },
    {
        if stop {
            return SlotStep::Stop;
        }
        match self.frame.take() {
            Some(f) => SlotStep::Frame(f),
            None => SlotStep::Wait,
        }
    }
}

/// What is done to a slot.
pub enum SlotOp<T> {
    Put(T),
    Take,
}

/// What is in a slot after the first `n` operations.
pub open spec fn slot_after<T>(ops: Seq<SlotOp<T>>, n: int) -> Option<T>
    decreases n,
{
    if n <= 0 {
        None
    } else {
        match ops[n - 1] {
            SlotOp::Put(f) => Some(f),
            SlotOp::Take => None,
        }
    }
}

/// The newest frame wins: what is taken is the last frame that was put in, and no
/// frame is taken twice.
pub proof fn law_newest_wins<T>(ops: Seq<SlotOp<T>>, n: int)
    requires
        0 <= n < ops.len(),
        ops[n] is Take,
    ensures
        slot_after(ops, n) is Some <==> n > 0 && ops[n - 1] is Put,
        n > 0 && ops[n - 1] is Put ==> slot_after(ops, n) == Some(ops[n - 1]->Put_0),
        slot_after(ops, n + 1) is None,
{
}

/// While the desktop is lost the thread does nothing but set the capture up again,
/// until it succeeds or the stream ends.
pub proof fn law_loss_is_waited_out(stop: bool, e: CaptureEvent)
    requires
        e == CaptureEvent::Grabbed(Grab::Lost) || e == CaptureEvent::ReopenFailed,
    ensures
        capture_next(stop, e) == (if stop {
            CaptureAction::Stop
        } else {
            CaptureAction::Reopen
        }),
        !stop ==> capture_next(stop, CaptureEvent::Reopened) == CaptureAction::Grab,
{
}

/// The capturing thread converts exactly the new pictures and hands on exactly what
/// was converted; a failure of either ends it. It stops where it would try again once
/// the stream ends, and a picture that was begun is still handed on.
pub proof fn law_capture_steps(stop: bool, e: CaptureEvent)
    ensures
        capture_next(stop, e) == CaptureAction::Convert <==> e == CaptureEvent::Grabbed(Grab::New),
        capture_next(stop, e) == CaptureAction::Publish <==> e == CaptureEvent::Converted,
        capture_next(false, e) == CaptureAction::Stop <==> e == CaptureEvent::GrabFailed || e
            == CaptureEvent::ConvertFailed,
        capture_next(false, e) == CaptureAction::Reopen <==> e == CaptureEvent::Grabbed(Grab::Lost)
            || e == CaptureEvent::ReopenFailed,
        capture_next(true, e) == CaptureAction::Stop <==> e != CaptureEvent::Grabbed(Grab::New)
            && e != CaptureEvent::Converted,
{
}

} // verus!
