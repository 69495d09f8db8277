//! Which encoder a stream uses.
//!
//! The encoders are tried in order of preference. One that does not start, or
//! does not pass its probe, is given up for the next. Behind a large screen a
//! second, light stream is started with the encoder that passed, for viewers
//! that cannot keep up with the full picture; the full stream goes on without it
//! if that fails.

use crate::engine::PipelineConfig;
use vstd::prelude::*;

verus! {

/// The light stream is made for pictures higher than full HD.
pub const LITE_ABOVE: u32 = 1080;

/// What to do next, and with which encoder.
#[derive(Clone, Copy, Debug, PartialEq, Eq, Structural)]
pub enum Phase {
    /// Start the full stream.
    Start { encoder: usize },
    /// Probe the full stream.
    Probe { encoder: usize },
    /// Start the light stream.
    StartLite { encoder: usize },
    /// Probe the light stream.
    ProbeLite { encoder: usize },
    /// The streams run.
    Done { encoder: usize, lite: bool },
    /// No encoder works.
    Failed,
}

impl Phase {
    /// The streams run, or none will.
    pub open spec fn over(self) -> bool {
        self is Done || self is Failed
    }
}

/// The choice of an encoder out of `count`, in order of preference.
#[derive(Clone, Copy, Debug, PartialEq, Eq, Structural)]
pub struct Selection {
    pub count: usize,
    /// A light stream is wanted beside the full one.
    pub lite: bool,
    pub phase: Phase,
}

/// What follows a phase that went well (`ok`) or not.
pub open spec fn next_phase(count: usize, lite: bool, phase: Phase, ok: bool) -> Phase {
    match phase {
        Phase::Start { encoder } => if ok {
            Phase::Probe { encoder }
        } else {
            try_encoder(count, encoder + 1)
        },
        Phase::Probe { encoder } => if !ok {
            try_encoder(count, encoder + 1)
        } else if lite {
            Phase::StartLite { encoder }
        } else {
            Phase::Done { encoder, lite: false }
        },
        Phase::StartLite { encoder } => if ok {
            Phase::ProbeLite { encoder }
        } else {
            Phase::Done { encoder, lite: false }
        },
        Phase::ProbeLite { encoder } => Phase::Done { encoder, lite: ok },
        Phase::Done { encoder, lite } => Phase::Done { encoder, lite },
        Phase::Failed => Phase::Failed,
    }
}

/// Encoder number `n`, if there is one.
pub open spec fn try_encoder(count: usize, n: int) -> Phase {
    if 0 <= n < count {
        Phase::Start { encoder: n as usize }
    } else {
        Phase::Failed
    }
}

impl Selection {
    /// Only encoders that exist are tried.
    pub open spec fn wf(self) -> bool {
        match self.phase {
            Phase::Start { encoder } => encoder < self.count,
            Phase::Probe { encoder } => encoder < self.count,
            Phase::StartLite { encoder } => encoder < self.count,
            Phase::ProbeLite { encoder } => encoder < self.count,
            Phase::Done { encoder, lite } => encoder < self.count,
            Phase::Failed => true,
        }
    }

    /// The choice among `count` encoders for a picture of the given height.
    pub fn new(count: usize, height: u32) -> (r: Selection)
        ensures
            r.wf(),
            r.count == count,
            r.lite == (height > LITE_ABOVE),
            r.phase == try_encoder(count, 0),
            r.lite <==> height > 1080,
            count > 0 ==> r.phase == (Phase::Start { encoder: 0 }),
            count == 0 ==> r.phase == Phase::Failed,
    {
        let phase = if count > 0 {
            Phase::Start { encoder: 0 }
        } else {
            Phase::Failed
        };
        Selection { count, lite: height > LITE_ABOVE, phase }
    }

    /// Goes on after the current phase went well (`ok`) or not. True where the
    /// attempt that was just probed has to be aborted.
    pub fn advance(&mut self, ok: bool) -> (abort: bool)
        requires
            old(self).wf(),
        ensures
            final(self).wf(),
            final(self).count == old(self).count,
            final(self).lite == old(self).lite,
            final(self).phase == next_phase(old(self).count, old(self).lite, old(self).phase, ok),
            abort == (!ok && (old(self).phase is Probe || old(self).phase is ProbeLite)),
    {
        match self.phase {
            Phase::Start { encoder } => {
                if ok {
                    self.phase = Phase::Probe { encoder };
                } else if encoder + 1 < self.count {
                    self.phase = Phase::Start { encoder: encoder + 1 };
                } else {
                    self.phase = Phase::Failed;
                }
                false
            },
            Phase::Probe { encoder } => {
                if !ok {
                    if encoder + 1 < self.count {
                        self.phase = Phase::Start { encoder: encoder + 1 };
                    } else {
                        self.phase = Phase::Failed;
                    }
                } else if self.lite {
                    self.phase = Phase::StartLite { encoder };
                } else {
                    self.phase = Phase::Done { encoder, lite: false };
                }
                !ok
            },
            Phase::StartLite { encoder } => {
                if ok {
                    self.phase = Phase::ProbeLite { encoder };
                } else {
                    self.phase = Phase::Done { encoder, lite: false };
                }
                false
            },
            Phase::ProbeLite { encoder } => {
                self.phase = Phase::Done { encoder, lite: ok };
                !ok
            },
            Phase::Done { encoder, lite } => false,
            Phase::Failed => false,
        }
    }
}

/// The bit rate of the light stream.
pub open spec fn lite_bitrate(fps: u32) -> u32 {
    if fps >= 60 {
        12_000_000
    } else {
        8_000_000
    }
}

/// What the light stream is asked for: as the full stream, at its own bit rate.
pub fn lite_config(cfg: &PipelineConfig) -> (r: PipelineConfig)
    ensures
        r == (PipelineConfig { bitrate_bps: lite_bitrate(cfg.fps), ..*cfg }),
        cfg.fps >= 60 ==> r.bitrate_bps == 12_000_000,
        cfg.fps < 60 ==> r.bitrate_bps == 8_000_000,
{
    let bitrate_bps: u32 = if cfg.fps >= 60 {
        12_000_000
    } else {
        8_000_000
    };
    PipelineConfig {
        fps: cfg.fps,
        bitrate_bps,
        gop_frames: cfg.gop_frames,
        output_index: cfg.output_index,
        adapter_index: cfg.adapter_index,
        capture_size: cfg.capture_size,
    }
}

/// What the phases meet on a machine: `starts(n)` and `passes(n)` speak of the
/// full stream of encoder `n`, `lite_starts(n)` and `lite_passes(n)` of its light
/// one.
pub struct Machine {
    pub starts: spec_fn(int) -> bool,
    pub passes: spec_fn(int) -> bool,
    pub lite_starts: spec_fn(int) -> bool,
    pub lite_passes: spec_fn(int) -> bool,
}

/// Whether a phase goes well on a machine.
pub open spec fn goes_well(m: Machine, phase: Phase) -> bool {
    match phase {
        Phase::Start { encoder } => (m.starts)(encoder as int),
        Phase::Probe { encoder } => (m.passes)(encoder as int),
        Phase::StartLite { encoder } => (m.lite_starts)(encoder as int),
        Phase::ProbeLite { encoder } => (m.lite_passes)(encoder as int),
        Phase::Done { encoder, lite } => true,
        Phase::Failed => true,
    }
}

/// How far a phase is from the end.
pub open spec fn distance(count: usize, phase: Phase) -> nat {
    match phase {
        Phase::Start { encoder } => if encoder < count {
            (4 * (count - encoder)) as nat
        } else {
            4
        },
        Phase::Probe { encoder } => if encoder < count {
            (4 * (count - encoder) - 1) as nat
        } else {
            3
        },
        Phase::StartLite { encoder } => 2,
        Phase::ProbeLite { encoder } => 1,
        Phase::Done { encoder, lite } => 0,
        Phase::Failed => 0,
    }
}

/// Where the choice ends on a machine, from a phase on.
pub open spec fn outcome(m: Machine, count: usize, lite: bool, phase: Phase) -> Phase
    decreases distance(count, phase),
{
    if phase.over() {
        phase
    } else {
        outcome(m, count, lite, next_phase(count, lite, phase, goes_well(m, phase)))
    }
}

/// Encoder `n` works on a machine.
pub open spec fn works(m: Machine, n: int) -> bool {
    (m.starts)(n) && (m.passes)(n)
}

/// From encoder `n` on: where one works, the first that does is chosen, and the
/// light stream runs exactly where it is wanted and works too.
proof fn lemma_first_working_from(m: Machine, count: usize, lite: bool, n: usize, chosen: usize)
    requires
        n <= chosen < count,
        works(m, chosen as int),
        forall|k: int| n <= k < chosen ==> !#[trigger] works(m, k),
    ensures
        outcome(m, count, lite, Phase::Start { encoder: n }) == (Phase::Done {
            encoder: chosen,
            lite: lite && (m.lite_starts)(chosen as int) && (m.lite_passes)(chosen as int),
        }),
    decreases chosen - n,
{
    reveal_with_fuel(outcome, 5);
    if n < chosen {
        assert(!works(m, n as int));
        lemma_first_working_from(m, count, lite, (n + 1) as usize, chosen);
    }
}

/// The first encoder that works is chosen, whatever the others would do, and the
/// light stream runs exactly where it is wanted and works too.
pub proof fn law_first_working(m: Machine, count: usize, height: u32, chosen: usize)
    requires
        chosen < count,
        works(m, chosen as int),
        forall|k: int| 0 <= k < chosen ==> !#[trigger] works(m, k),
    ensures
        outcome(m, count, height > LITE_ABOVE, try_encoder(count, 0)) == (Phase::Done {
            encoder: chosen,
            lite: height > LITE_ABOVE && (m.lite_starts)(chosen as int) && (m.lite_passes)(
                chosen as int,
            ),
        }),
{
    lemma_first_working_from(m, count, height > LITE_ABOVE, 0, chosen);
}

/// The choice fails where no encoder from `n` on works.
proof fn lemma_none_working(m: Machine, count: usize, lite: bool, n: int)
    requires
        0 <= n <= count,
        forall|k: int| n <= k < count ==> !#[trigger] works(m, k),
    ensures
        outcome(m, count, lite, try_encoder(count, n)) == Phase::Failed,
    decreases count - n,
{
    reveal_with_fuel(outcome, 3);
    if n < count {
        assert(!works(m, n));
        lemma_none_working(m, count, lite, n + 1);
    }
}

/// The choice fails only where no encoder works, and there it always does.
pub proof fn law_fails_only_without_encoder(m: Machine, count: usize, height: u32)
    ensures
        outcome(m, count, height > LITE_ABOVE, try_encoder(count, 0)) == Phase::Failed <==> forall|
            k: int,
        |
            0 <= k < count ==> !#[trigger] works(m, k),
{
    if forall|k: int| 0 <= k < count ==> !#[trigger] works(m, k) {
        lemma_none_working(m, count, height > LITE_ABOVE, 0);
    } else {
        let w = choose|k: int| 0 <= k < count && #[trigger] works(m, k);
        let chosen = lemma_first(m, w);
        law_first_working(m, count, height, chosen as usize);
    }
}

/// The first encoder that works, where some does.
proof fn lemma_first(m: Machine, w: int) -> (first: int)
    requires
        0 <= w,
        works(m, w),
    ensures
        0 <= first <= w,
        works(m, first),
        forall|k: int| 0 <= k < first ==> !#[trigger] works(m, k),
    decreases w,
{
    if exists|k: int| 0 <= k < w && #[trigger] works(m, k) {
        let v = choose|k: int| 0 <= k < w && #[trigger] works(m, k);
        lemma_first(m, v)
    } else {
        w
    }
}

/// An attempt that was started and does not end up as a running stream is
/// aborted: the streams that go on after a phase are those that went on before
/// it, without the one that failed its probe.
pub proof fn law_no_stray_attempt(s: Selection, ok: bool)
    requires
        s.wf(),
    ensures
        running(next_phase(s.count, s.lite, s.phase, ok)) == running(s.phase) + started(s.phase, ok)
            - failed_probe(s.phase, ok),
{
}

/// How many started attempts exist in a phase.
pub open spec fn running(phase: Phase) -> int {
    match phase {
        Phase::Start { encoder } => 0,
        Phase::Probe { encoder } => 1,
        Phase::StartLite { encoder } => 1,
        Phase::ProbeLite { encoder } => 2,
        Phase::Done { encoder, lite } => if lite {
            2
        } else {
            1
        },
        Phase::Failed => 0,
    }
}

/// How many attempts a phase starts.
pub open spec fn started(phase: Phase, ok: bool) -> int {
    if ok && (phase is Start || phase is StartLite) {
        1
    } else {
        0
    }
}

/// How many attempts have to be aborted after a phase.
pub open spec fn failed_probe(phase: Phase, ok: bool) -> int {
    if !ok && (phase is Probe || phase is ProbeLite) {
        1
    } else {
        0
    }
}

} // verus!
