//! What both capture engines share: the configuration, the encoded frame, and
//! the way from an encoder's output stream to frames.
//!
//! An encoder runs as a child process and writes raw Annex-B H.264. The stream
//! is split at its access unit delimiters, and each access unit becomes a frame
//! that is handed to every viewer.

use crate::annexb::{
    aud_positions, auds_below, frame_data, has_nal, known_sets, lemma_auds_ascend, lemma_auds_tail,
    lemma_codes_apart, lemma_nal_extent, lemma_sets_tail, nal_at, nal_end, nal_start, next_code,
    parameter_sets, rest, sets_below, start_code, units, NAL_AUD, NAL_IDR, NAL_PPS, NAL_SPS,
};
use crate::payload::{from_vec, held};
use bytes::Bytes;
use vstd::prelude::*;

verus! {

/// A rectangle of the desktop, in pixels.
#[derive(Clone, Copy, Debug, PartialEq, Eq, Structural)]
pub struct Rect {
    pub left: i32,
    pub top: i32,
    pub right: i32,
    pub bottom: i32,
}

impl Rect {
    /// Both sides of the rectangle fit into 32 bits.
    pub open spec fn measurable(self) -> bool {
        &&& i32::MIN <= self.right - self.left <= i32::MAX
        &&& i32::MIN <= self.bottom - self.top <= i32::MAX
    }

    /// The width, at least one.
    pub open spec fn width_of(self) -> int {
        if self.right - self.left >= 1 {
            self.right - self.left
        } else {
            1
        }
    }

    /// The height, at least one.
    pub open spec fn height_of(self) -> int {
        if self.bottom - self.top >= 1 {
            self.bottom - self.top
        } else {
            1
        }
    }

    /// The width, at least one.
    pub fn width(&self) -> (r: i32)
        requires
            i32::MIN <= self.right - self.left <= i32::MAX,
        ensures
            r == self.width_of(),
            self.right > self.left ==> r == self.right - self.left,
            self.right <= self.left ==> r == 1,
    {
        let w: i32 = self.right - self.left;
        if w >= 1 {
            w
        } else {
            1
        }
    }

    /// The height, at least one.
    pub fn height(&self) -> (r: i32)
        requires
            i32::MIN <= self.bottom - self.top <= i32::MAX,
        ensures
            r == self.height_of(),
            self.bottom > self.top ==> r == self.bottom - self.top,
            self.bottom <= self.top ==> r == 1,
    {
        let h: i32 = self.bottom - self.top;
        if h >= 1 {
            h
        } else {
            1
        }
    }
}

/// What an engine is asked to capture and how to encode it.
#[derive(Clone, Copy, Debug, PartialEq, Eq)]
pub struct PipelineConfig {
    pub fps: u32,
    pub bitrate_bps: u32,
    /// Frames between key frames, for encoders that are driven in process;
    /// child processes always get one second.
    pub gop_frames: u32,
    /// The output to capture.
    pub output_index: u32,
    /// The graphics adapter of that output; zero is the main one.
    pub adapter_index: u32,
    /// The size of the captured screen, where it is known.
    pub capture_size: Option<(u32, u32)>,
}

/// One encoded picture: a complete access unit.
pub struct EncodedFrame {
    pub data: Bytes,
    pub is_keyframe: bool,
    /// The nominal duration of a frame, in nanoseconds.
    pub duration_ns: u64,
    /// The time of the capture, in units of 100 ns. A child process does not tell it;
    /// its frames carry the time at which they came out.
    pub ts_100ns: i64,
}

/// The nominal duration of a frame, in nanoseconds.
pub open spec fn frame_ns(fps: u32) -> int {
    if fps == 0 {
        1_000_000_000
    } else {
        1_000_000_000int / fps as int
    }
}

/// The nominal duration of a frame, in nanoseconds.
pub fn nominal_ns(fps: u32) -> (r: u64)
    ensures
        r == frame_ns(fps),
{
    if fps == 0 {
        1_000_000_000
    } else {
        1_000_000_000 / fps as u64
    }
}

/// The positions as integers.
pub open spec fn as_ints(v: Seq<usize>) -> Seq<int> {
    v.map_values(|n: usize| n as int)
}

/// The contents of a list of byte strings.
pub open spec fn contents(v: Seq<Vec<u8>>) -> Seq<Seq<u8>> {
    v.map_values(|b: Vec<u8>| b@)
}

/// Where the access unit delimiters in `buf` begin.
pub fn find_aud_positions(buf: &[u8]) -> (out: Vec<usize>)
    ensures
        as_ints(out@) == aud_positions(buf@),
{
    let mut out: Vec<usize> = Vec::new();
    let mut i: usize = 0;
    assert(as_ints(out@) =~= auds_below(buf@, 0));
    while buf.len() > 3 && i < buf.len() - 3
        invariant
            i <= buf@.len(),
            as_ints(out@) == auds_below(buf@, i as int),
        decreases buf@.len() - i,
    {
        let ghost before = as_ints(out@);
        if buf[i] == 0 && buf[i + 1] == 0 && buf[i + 2] == 1 {
            proof {
                lemma_codes_apart(buf@, i as int);
                reveal_with_fuel(auds_below, 4);
            }
            if buf[i + 3] & 0x1f == NAL_AUD {
                let p: usize = if i > 0 && buf[i - 1] == 0 {
                    i - 1
                } else {
                    i
                };
                out.push(p);
                assert(as_ints(out@) =~= before.push(nal_start(buf@, i as int)));
            }
            i += 3;
        } else {
            i += 1;
        }
    }
    proof {
        lemma_auds_tail(buf@, i as int);
    }
    out
}

/// What one access unit holds that matters to viewers.
pub struct UnitScan {
    pub has_idr: bool,
    pub has_sps: bool,
    /// The parameter sets, one after the other.
    pub sets: Vec<u8>,
}

/// `s` has a NAL unit of type `ty` whose start code is below `n`.
pub open spec fn has_nal_below(s: Seq<u8>, n: int, ty: u8) -> bool {
    exists|k: int| 0 <= k < n && #[trigger] nal_at(s, k, ty)
}

/// Where the NAL unit whose start code is at `i` ends.
fn find_nal_end(au: &[u8], i: usize) -> (end: usize)
    requires
        start_code(au@, i as int),
    ensures
        end == nal_end(au@, i as int),
{
    let n: usize = au.len();
    let mut j: usize = i + 3;
    while j < n - 3 && !(au[j] == 0 && au[j + 1] == 0 && au[j + 2] == 1)
        invariant
            i + 3 <= j <= n,
            i + 3 < n,
            n == au@.len(),
            next_code(au@, i + 3) == next_code(au@, j as int),
        decreases au@.len() - j,
    {
        j += 1;
    }
    if j < n - 3 {
        if au[j - 1] == 0 {
            j - 1
        } else {
            j
        }
    } else {
        n
    }
}

/// Appends `s[from..to]`.
fn push_bytes(v: &mut Vec<u8>, s: &[u8], from: usize, to: usize)
    requires
        from <= to <= s@.len(),
    ensures
        final(v)@ == old(v)@ + s@.subrange(from as int, to as int),
{
    let mut k: usize = from;
    while k < to
        invariant
            from <= k <= to <= s@.len(),
            v@ == old(v)@ + s@.subrange(from as int, k as int),
        decreases to - k,
    {
        v.push(s[k]);
        k += 1;
        assert(s@.subrange(from as int, k as int) =~= s@.subrange(from as int, k - 1).push(
            s@[k - 1],
        ));
        assert(v@ =~= old(v)@ + s@.subrange(from as int, k as int));
    }
}

/// Looks through an access unit.
pub fn scan_unit(au: &[u8]) -> (r: UnitScan)
    ensures
        r.has_idr == has_nal(au@, NAL_IDR),
        r.has_sps == has_nal(au@, NAL_SPS),
        r.sets@ == parameter_sets(au@),
{
    let mut has_idr = false;
    let mut has_sps = false;
    let mut sets: Vec<u8> = Vec::new();
    let mut i: usize = 0;
    while au.len() > 3 && i < au.len() - 3
        invariant
            i <= au@.len(),
            has_idr == has_nal_below(au@, i as int, NAL_IDR),
            has_sps == has_nal_below(au@, i as int, NAL_SPS),
            sets@ == sets_below(au@, i as int),
        decreases au@.len() - i,
    {
        if au[i] == 0 && au[i + 1] == 0 && au[i + 2] == 1 {
            let ty: u8 = au[i + 3] & 0x1f;
            proof {
                lemma_codes_apart(au@, i as int);
                reveal_with_fuel(sets_below, 4);
                assert(nal_at(au@, i as int, ty));
                assert(forall|k: int, t: u8| i < k < i + 3 ==> !nal_at(au@, k, t));
            }
            if ty == NAL_IDR {
                has_idr = true;
            }
            if ty == NAL_SPS {
                has_sps = true;
            }
            if ty == NAL_SPS || ty == NAL_PPS {
                proof {
                    lemma_nal_extent(au@, i as int);
                }
                let start: usize = if i > 0 && au[i - 1] == 0 {
                    i - 1
                } else {
                    i
                };
                let end = find_nal_end(au, i);
                push_bytes(&mut sets, au, start, end);
            }
            assert(has_nal_below(au@, i + 3, NAL_IDR) == has_idr);
            assert(has_nal_below(au@, i + 3, NAL_SPS) == has_sps);
            i += 3;
        } else {
            assert(forall|t: u8| !nal_at(au@, i as int, t));
            i += 1;
        }
    }
    proof {
        lemma_sets_tail(au@, i as int);
        assert(forall|k: int, t: u8| i <= k ==> !nal_at(au@, k, t));
    }
    UnitScan { has_idr, has_sps, sets }
}

/// Turns an access unit into a frame, and keeps the parameter sets up to date.
pub fn emit_au(au: &[u8], sps_pps: &mut Vec<u8>, ts_100ns: i64, nominal: u64) -> (r: EncodedFrame)
    ensures
        held(r.data) == frame_data(old(sps_pps)@, au@),
        r.is_keyframe == has_nal(au@, NAL_IDR),
        r.duration_ns == nominal,
        r.ts_100ns == ts_100ns,
        final(sps_pps)@ == known_sets(old(sps_pps)@, au@),
{
    let scan = scan_unit(au);
    if scan.sets.len() > 0 {
        *sps_pps = scan.sets;
    }
    let data = if scan.has_idr && !scan.has_sps && sps_pps.len() > 0 {
        let mut v: Vec<u8> = Vec::new();
        push_bytes(&mut v, sps_pps.as_slice(), 0, sps_pps.len());
        push_bytes(&mut v, au, 0, au.len());
        assert(v@ =~= sps_pps@ + au@);
        from_vec(v)
    } else {
        assert(known_sets(old(sps_pps)@, au@).len() == 0 ==> known_sets(old(sps_pps)@, au@) + au@
            =~= au@);
        Bytes::copy_from_slice(au)
    };
    EncodedFrame { data, is_keyframe: scan.has_idr, duration_ns: nominal, ts_100ns }
}

/// Reads an Annex-B stream: takes in what the encoder wrote, hands out access
/// units.
pub struct AuReader {
    /// What has come in and belongs to no complete access unit yet.
    pub buf: Vec<u8>,
    /// The parameter sets that the stream last carried.
    pub sps_pps: Vec<u8>,
}

impl AuReader {
    /// A reader that has seen nothing.
    pub fn new() -> (r: AuReader)
        ensures
            r.buf@ == Seq::<u8>::empty(),
            r.sps_pps@ == Seq::<u8>::empty(),
    {
        AuReader { buf: Vec::new(), sps_pps: Vec::new() }
    }

    /// Takes in what the encoder wrote, and hands out the access units that are
    /// now complete.
    pub fn split(&mut self, chunk: &[u8]) -> (out: Vec<Vec<u8>>)
        ensures
            contents(out@) == units(old(self).buf@ + chunk@),
            final(self).buf@ == rest(old(self).buf@ + chunk@),
            final(self).sps_pps@ == old(self).sps_pps@,
    {
        push_bytes(&mut self.buf, chunk, 0, chunk.len());
        let ghost s = self.buf@;
        assert(s =~= old(self).buf@ + chunk@);
        let auds = find_aud_positions(self.buf.as_slice());
        let mut out: Vec<Vec<u8>> = Vec::new();
        let ghost p = aud_positions(s);
        proof {
            lemma_auds_ascend(s, s.len() as int);
            assert(forall|k: int| 0 <= k < auds@.len() ==> auds@[k] == as_ints(auds@)[k]);
        }
        if auds.len() >= 2 {
            let mut k: usize = 0;
            while k < auds.len() - 1
                invariant
                    auds@.len() >= 2,
                    k <= auds@.len() - 1,
                    self.buf@ == s,
                    self.sps_pps@ == old(self).sps_pps@,
                    p == aud_positions(s),
                    as_ints(auds@) == p,
                    forall|j: int| 0 <= j < auds@.len() ==> auds@[j] == p[j],
                    forall|i: int, j: int| 0 <= i < j < p.len() ==> p[i] < p[j],
                    forall|j: int| 0 <= j < p.len() ==> 0 <= #[trigger] p[j] <= s.len(),
                    contents(out@) == units(s).take(k as int),
                decreases auds@.len() - k,
            {
                let ghost before = contents(out@);
                let mut unit: Vec<u8> = Vec::new();
                assert(p[k as int] < p[k + 1]);
                push_bytes(&mut unit, self.buf.as_slice(), auds[k], auds[k + 1]);
                assert(unit@ =~= s.subrange(p[k as int], p[k + 1]));
                out.push(unit);
                assert(contents(out@) =~= before.push(s.subrange(p[k as int], p[k + 1])));
                k += 1;
                assert(units(s).take(k as int) =~= units(s).take(k - 1).push(units(s)[k - 1]));
            }
            assert(units(s).take(k as int) =~= units(s));
            let last: usize = auds[auds.len() - 1];
            let tail = self.buf.split_off(last);
            self.buf = tail;
            assert(self.buf@ =~= rest(s));
        } else {
            assert(contents(out@) =~= units(s));
        }
        out
    }

    /// Turns one access unit into a frame that came out at `ts_100ns`.
    pub fn emit(&mut self, au: &Vec<u8>, ts_100ns: i64, fps: u32) -> (r: EncodedFrame)
        ensures
            held(r.data) == frame_data(old(self).sps_pps@, au@),
            r.is_keyframe == has_nal(au@, NAL_IDR),
            r.duration_ns == frame_ns(fps),
            r.ts_100ns == ts_100ns,
            final(self).sps_pps@ == known_sets(old(self).sps_pps@, au@),
            final(self).buf@ == old(self).buf@,
    {
        let nominal = nominal_ns(fps);
        emit_au(au.as_slice(), &mut self.sps_pps, ts_100ns, nominal)
    }
}

/// How often a new encoder is looked at before it counts as working, and the
/// pause before each look, in milliseconds.
pub const PROBE_POLLS: u32 = 12;

pub const PROBE_PAUSE_MS: u64 = 250;

/// What a look at a new encoder leads to.
#[derive(Clone, Copy, Debug, PartialEq, Eq, Structural)]
pub enum ProbeStep {
    /// Pause, and look again.
    Wait,
    /// That was the last look: the encoder works unless it is dead by now.
    Settle,
    Alive,
    Dead,
}

/// What the look number `poll` leads to.
pub open spec fn probe_step(poll: int, frames: u64, dead: bool) -> ProbeStep {
    if frames > 0 {
        ProbeStep::Alive
    } else if dead {
        ProbeStep::Dead
    } else if poll < PROBE_POLLS {
        ProbeStep::Wait
    } else {
        ProbeStep::Settle
    }
}

/// Whether a new encoder works, by the look number `poll` at it: it works once a
/// frame has come out, and also when it stays alive without one, because a still
/// desktop may give no frame at all.
pub fn probe_alive(poll: u32, frames: u64, dead: bool) -> (r: ProbeStep)
    ensures
        r == probe_step(poll as int, frames, dead),
{
    if frames > 0 {
        ProbeStep::Alive
    } else if dead {
        ProbeStep::Dead
    } else if poll < PROBE_POLLS {
        ProbeStep::Wait
    } else {
        ProbeStep::Settle
    }
}

/// Whether an encoder passes, looked at from number `poll` on. `frames` and
/// `dead` say what each look finds; a look behind the last one only asks whether
/// the encoder is dead.
pub open spec fn probe_verdict(
    frames: spec_fn(int) -> u64,
    dead: spec_fn(int) -> bool,
    poll: int,
) -> bool
    decreases PROBE_POLLS - poll,
{
    match probe_step(poll, frames(poll), dead(poll)) {
        ProbeStep::Alive => true,
        ProbeStep::Dead => false,
        ProbeStep::Settle => !dead(poll + 1),
        ProbeStep::Wait => probe_verdict(frames, dead, poll + 1),
    }
}

/// An encoder that stays alive passes, whether it gives a frame or not.
pub proof fn law_probe_patient(frames: spec_fn(int) -> u64, dead: spec_fn(int) -> bool, poll: int)
    requires
        1 <= poll <= PROBE_POLLS,
        forall|k: int| poll <= k <= PROBE_POLLS + 1 ==> !#[trigger] dead(k),
    ensures
        probe_verdict(frames, dead, poll),
    decreases PROBE_POLLS - poll,
{
    if poll < PROBE_POLLS {
        law_probe_patient(frames, dead, poll + 1);
    }
    assert(!dead(poll));
    assert(!dead(poll + 1));
}

/// An encoder that dies before it has given a frame does not pass.
pub proof fn law_probe_dead(
    frames: spec_fn(int) -> u64,
    dead: spec_fn(int) -> bool,
    poll: int,
    at: int,
)
    requires
        1 <= poll <= at <= PROBE_POLLS + 1,
        poll <= PROBE_POLLS,
        forall|k: int| poll <= k <= at ==> #[trigger] frames(k) == 0,
        forall|k: int| at <= k <= PROBE_POLLS + 1 ==> #[trigger] dead(k),
    ensures
        !probe_verdict(frames, dead, poll),
    decreases PROBE_POLLS - poll,
{
    assert(frames(poll) == 0);
    if poll == at {
        assert(dead(poll));
    } else if poll < PROBE_POLLS {
        law_probe_dead(frames, dead, poll + 1, at);
    } else {
        assert(dead(poll + 1));
    }
}

/// What is known of an encoder's process.
#[derive(Clone, Copy, Debug, PartialEq, Eq, Structural)]
pub enum ChildState {
    Running,
    Exited,
    /// The system did not say.
    Unknown,
}

/// What the watchdog of an encoder's process does next.
#[derive(Clone, Copy, Debug, PartialEq, Eq, Structural)]
pub enum WatchAction {
    /// Ask for the state of the process.
    Poll,
    /// Kill the process, and leave.
    Kill,
    /// Note that the process is dead, and leave.
    MarkDead,
    /// Pause, and begin again.
    Sleep,
    Leave,
}

/// The watchdog's pause, in milliseconds.
pub const WATCH_PAUSE_MS: u64 = 300;

/// What the watchdog does next: `stop` ends every encoder, `abort` this one, and
/// `state` is what a poll found, once there was one.
pub fn watchdog(stop: bool, abort: bool, state: Option<ChildState>) -> (r: WatchAction)
    ensures
        (stop || abort) ==> r == WatchAction::Kill,
        !(stop || abort) ==> match state {
            None => r == WatchAction::Poll,
            Some(ChildState::Exited) => r == WatchAction::MarkDead,
            Some(ChildState::Running) => r == WatchAction::Sleep,
            Some(ChildState::Unknown) => r == WatchAction::Leave,
        },
{
    if stop || abort {
        return WatchAction::Kill;
    }
    match state {
        None => WatchAction::Poll,
        Some(ChildState::Exited) => WatchAction::MarkDead,
        Some(ChildState::Running) => WatchAction::Sleep,
        Some(ChildState::Unknown) => WatchAction::Leave,
    }
}

/// A rectangle has sides of at least one, and those of a proper one are the distances
/// of its edges.
pub proof fn law_sides(r: Rect)
    ensures
        r.width_of() >= 1,
        r.height_of() >= 1,
        r.right > r.left ==> r.width_of() == r.right - r.left,
        r.bottom > r.top ==> r.height_of() == r.bottom - r.top,
        r.right <= r.left ==> r.width_of() == 1,
        r.bottom <= r.top ==> r.height_of() == 1,
{
}

/// The frames of a second fill it: none is missing, and what is left is less than a
/// nanosecond for each.
pub proof fn law_frames_fill_a_second(fps: u32)
    requires
        fps > 0,
    ensures
        frame_ns(fps) * fps <= 1_000_000_000,
        1_000_000_000 < (frame_ns(fps) + 1) * fps,
        frame_ns(0) == 1_000_000_000,
{
    assert(1_000_000_000int / fps as int * fps <= 1_000_000_000) by (nonlinear_arith)
        requires
            fps > 0,
    ;
    assert(1_000_000_000 < (1_000_000_000int / fps as int + 1) * fps) by (nonlinear_arith)
        requires
            fps > 0,
    ;
}

/// An encoder that gives a frame before it is found dead passes at once, whatever
/// becomes of it later.
pub proof fn law_probe_frame(
    frames: spec_fn(int) -> u64,
    dead: spec_fn(int) -> bool,
    poll: int,
    at: int,
)
    requires
        1 <= poll <= at <= 12,
        frames(at) > 0,
        forall|k: int| poll <= k < at ==> !#[trigger] dead(k),
    ensures
        probe_verdict(frames, dead, poll),
    decreases at - poll,
{
    if poll < at && frames(poll) == 0 {
        assert(!dead(poll));
        law_probe_frame(frames, dead, poll + 1, at);
    }
}

/// An encoder is waited for three seconds, and no longer: a look that finds neither a
/// frame nor a dead process leads to another one up to the eleventh, and the twelfth
/// settles it.
pub proof fn law_probe_time(poll: int)
    ensures
        1 <= poll < 12 ==> probe_step(poll, 0, false) == ProbeStep::Wait,
        poll >= 12 ==> probe_step(poll, 0, false) == ProbeStep::Settle,
        probe_step(poll, 0, true) == ProbeStep::Dead,
        12 * PROBE_PAUSE_MS == 3000,
{
}

} // verus!
