//! How frames get to a viewer: which ones are sent, in which pieces, and with
//! which clock.

use crate::engine::EncodedFrame;
use crate::payload::{as_slice, from_vec, held};
use bytes::Bytes;
use vstd::bytes::{
    lemma_auto_spec_u64_to_from_le_bytes, spec_u64_from_le_bytes, spec_u64_to_le_bytes,
    u64_to_le_bytes,
};
use vstd::prelude::*;

verus! {

/// What the data channel may hold back before the stream is taken up again at a
/// fresh key frame, in bytes.
pub const BUFFER_LIMIT: usize = 2_000_000;

/// Something that a pump meets.
#[derive(Clone, Copy, Debug, PartialEq, Eq, Structural)]
pub enum PumpEvent {
    /// A frame, while the channel holds back `buffered` bytes.
    Frame { key: bool, buffered: usize },
    /// Frames were lost on the way to the pump.
    Lagged,
}

/// Whether the frame is sent. `wait` says that the viewer needs a key frame first.
pub open spec fn sends(wait: bool, e: PumpEvent) -> bool {
    match e {
        PumpEvent::Frame { key, buffered } => (key || !wait) && buffered <= BUFFER_LIMIT,
        PumpEvent::Lagged => false,
    }
}

/// Whether the viewer needs a key frame after the event.
pub open spec fn wait_after(wait: bool, e: PumpEvent) -> bool {
    !sends(wait, e)
}

/// Whether the encoder is asked for a key frame: where a frame was given up that
/// could have been sent, or frames were lost.
pub open spec fn requests(wait: bool, e: PumpEvent) -> bool {
    match e {
        PumpEvent::Frame { key, buffered } => (key || !wait) && buffered > BUFFER_LIMIT,
        PumpEvent::Lagged => true,
    }
}

/// What a pump does with a frame.
#[derive(Clone, Copy, Debug, PartialEq, Eq, Structural)]
pub enum PumpAction {
    Send,
    Skip,
    /// Skip, and ask the encoder for a key frame.
    Resync,
}

/// What a pump does about an event.
pub open spec fn pump_action(wait: bool, e: PumpEvent) -> PumpAction {
    if sends(wait, e) {
        PumpAction::Send
    } else if requests(wait, e) {
        PumpAction::Resync
    } else {
        PumpAction::Skip
    }
}

/// A pump begins, and begins again after a gap, with a key frame.
pub struct Pump {
    pub wait_key: bool,
}

impl Pump {
    /// A pump that has sent nothing. The encoder is asked for a key frame as it
    /// begins.
    pub fn new() -> (r: Pump)
        ensures
            r.wait_key,
    {
        Pump { wait_key: true }
    }

    /// Whether a frame could be sent, as far as key frames go. Only for such a
    /// frame the channel has to be looked at.
    pub fn accepts(&self, key: bool) -> (r: bool)
        ensures
            r == (key || !self.wait_key),
    {
        key || !self.wait_key
    }

    /// Handles a frame, while the channel holds back `buffered` bytes.
    pub fn frame(&mut self, key: bool, buffered: usize) -> (r: PumpAction)
        ensures
            r == pump_action(old(self).wait_key, PumpEvent::Frame { key, buffered }),
            final(self).wait_key == wait_after(
                old(self).wait_key,
                PumpEvent::Frame { key, buffered },
            ),
            (key || !old(self).wait_key) && buffered <= 2_000_000 ==> r == PumpAction::Send,
            (key || !old(self).wait_key) && buffered > 2_000_000 ==> r == PumpAction::Resync,
            !key && old(self).wait_key ==> r == PumpAction::Skip,
            final(self).wait_key == (r != PumpAction::Send),
    {
        if self.wait_key {
            if !key {
                return PumpAction::Skip;
            }
            self.wait_key = false;
        }
        if buffered > BUFFER_LIMIT {
            self.wait_key = true;
            return PumpAction::Resync;
        }
        PumpAction::Send
    }

    /// Handles a loss of frames.
    pub fn lagged(&mut self) -> (r: PumpAction)
        ensures
            r == pump_action(old(self).wait_key, PumpEvent::Lagged),
            final(self).wait_key == wait_after(old(self).wait_key, PumpEvent::Lagged),
            r == PumpAction::Resync,
            final(self).wait_key,
    {
        self.wait_key = true;
        PumpAction::Resync
    }
}

/// Whether the viewer needs a key frame after the first `n` events.
pub open spec fn waits(events: Seq<PumpEvent>, n: int) -> bool
    decreases n,
{
    if n <= 0 {
        true
    } else {
        wait_after(waits(events, n - 1), events[n - 1])
    }
}

/// Whether event number `k` is a frame that is sent.
pub open spec fn sent(events: Seq<PumpEvent>, k: int) -> bool {
    0 <= k < events.len() && sends(waits(events, k), events[k])
}

/// A viewer can decode whatever it gets: a frame that is no key frame is sent
/// only right behind another frame that was sent, with nothing lost between.
pub proof fn law_no_gap(events: Seq<PumpEvent>, k: int)
    requires
        sent(events, k),
        !(events[k] matches PumpEvent::Frame { key, buffered } && key),
    ensures
        sent(events, k - 1),
{
    assert(!waits(events, k));
}

/// After a loss of frames, and at the start, nothing is sent before a key frame:
/// the first frame that is sent from `from` on is one.
pub proof fn law_resumes_with_key(events: Seq<PumpEvent>, from: int, k: int)
    requires
        0 <= from <= k,
        waits(events, from),
        sent(events, k),
        forall|j: int| from <= j < k ==> !#[trigger] sent(events, j),
    ensures
        events[k] matches PumpEvent::Frame { key, buffered } && key,
{
    if k > from {
        assert(!sent(events, k - 1));
    }
}

/// A viewer is served: a key frame is sent whatever came before it, as long as the
/// channel holds back no more than 2 MB.
pub proof fn law_key_frame_sent(events: Seq<PumpEvent>, k: int, held_back: usize)
    requires
        0 <= k < events.len(),
        events[k] == (PumpEvent::Frame { key: true, buffered: held_back }),
        held_back <= 2_000_000,
    ensures
        sent(events, k),
{
}

/// A stream that runs goes on: right behind a frame that was sent, the next one is
/// sent, of whatever kind it is, as long as the channel holds back no more than 2 MB.
pub proof fn law_stream_goes_on(events: Seq<PumpEvent>, k: int, kind: bool, held_back: usize)
    requires
        1 <= k < events.len(),
        sent(events, k - 1),
        events[k] == (PumpEvent::Frame { key: kind, buffered: held_back }),
        held_back <= 2_000_000,
    ensures
        sent(events, k),
{
}

/// Nothing is piled up: no frame is sent while the channel holds back more than 2 MB.
pub proof fn law_nothing_piled_up(events: Seq<PumpEvent>, k: int)
    requires
        sent(events, k),
    ensures
        events[k] matches PumpEvent::Frame { key, buffered } && buffered <= 2_000_000,
{
}

/// The encoder is asked for a key frame exactly where a viewer lost something: frames
/// were lost, or a frame that a viewer could use was held up by a full channel. While a
/// key frame is waited for, none is asked for again on account of other frames.
pub proof fn law_asks_only_after_loss(wait: bool, e: PumpEvent)
    ensures
        pump_action(wait, e) == PumpAction::Resync <==> (e == PumpEvent::Lagged || (e matches
            PumpEvent::Frame { key, buffered } && buffered > 2_000_000 && (key || !wait))),
        pump_action(wait, e) == PumpAction::Skip <==> (wait && (e matches PumpEvent::Frame {
            key,
            buffered,
        } && !key)),
{
}

/// The payload of a piece of an access unit on the data channel. A whole key
/// frame in one message could exceed what a browser takes, and would silently
/// kill the channel.
pub const CHUNK: usize = 16 * 1024;

/// The bytes before the payload.
pub const HEADER: usize = 9;

/// The flags of a piece: bit 0 for a key frame, bit 1 for the last piece.
pub open spec fn flags(key: bool, last: bool) -> u8 {
    if key {
        if last {
            3
        } else {
            1
        }
    } else if last {
        2
    } else {
        0
    }
}

/// Where the piece that begins at `off` ends.
pub open spec fn chunk_end(len: int, off: int) -> int {
    if off + CHUNK < len {
        off + CHUNK
    } else {
        len
    }
}

/// The piece of an access unit that begins at `off`: flags, time, payload.
pub open spec fn chunk_at(data: Seq<u8>, key: bool, ts: u64, off: int) -> Seq<u8> {
    let end = chunk_end(data.len() as int, off);
    seq![flags(key, end == data.len())] + spec_u64_to_le_bytes(ts) + data.subrange(off, end)
}

/// The pieces of an access unit, from `off` on.
pub open spec fn chunks_from(data: Seq<u8>, key: bool, ts: u64, off: int) -> Seq<Seq<u8>>
    decreases data.len() - off,
{
    if off < 0 || off >= data.len() {
        Seq::empty()
    } else {
        seq![chunk_at(data, key, ts, off)] + chunks_from(
            data,
            key,
            ts,
            chunk_end(data.len() as int, off),
        )
    }
}

/// The bytes behind a list of handles.
pub open spec fn held_all(v: Seq<Bytes>) -> Seq<Seq<u8>> {
    v.map_values(|b: Bytes| held(b))
}

/// Cuts an access unit into pieces for the data channel. The channel keeps their
/// order, so that the viewer can put them together again.
pub fn au_chunks(frame: &EncodedFrame) -> (r: Vec<Bytes>)
    ensures
        held_all(r@) == chunks_from(
            held(frame.data),
            frame.is_keyframe,
            frame.ts_100ns as u64,
            0,
        ),
{
    let ts = frame.ts_100ns as u64;
    let data = as_slice(&frame.data);
    let stamp = u64_to_le_bytes(ts);
    let total: usize = data.len();
    let mut out: Vec<Bytes> = Vec::new();
    let mut off: usize = 0;
    let ghost all = chunks_from(data@, frame.is_keyframe, ts, 0);
    assert(held_all(out@) + all =~= all);
    while off < total
        invariant
            off <= total,
            total == data@.len(),
            data@ == held(frame.data),
            stamp@ == spec_u64_to_le_bytes(ts),
            all == held_all(out@) + chunks_from(data@, frame.is_keyframe, ts, off as int),
        decreases total - off,
    {
        let ghost before = held_all(out@);
        let end: usize = if total - off > CHUNK {
            off + CHUNK
        } else {
            total
        };
        let last = end == total;
        let flag: u8 = if frame.is_keyframe {
            if last {
                3
            } else {
                1
            }
        } else if last {
            2
        } else {
            0
        };
        let mut buf: Vec<u8> = Vec::new();
        buf.push(flag);
        buf.extend_from_slice(stamp.as_slice());
        let part = vstd::slice::slice_subrange(data, off, end);
        buf.extend_from_slice(part);
        assert(buf@ =~= chunk_at(data@, frame.is_keyframe, ts, off as int));
        out.push(from_vec(buf));
        assert(held_all(out@) =~= before.push(
            chunk_at(data@, frame.is_keyframe, ts, off as int),
        ));
        proof {
            let tail = chunks_from(data@, frame.is_keyframe, ts, end as int);
            let piece = chunk_at(data@, frame.is_keyframe, ts, off as int);
            assert(before + (seq![piece] + tail) =~= before.push(piece) + tail);
        }
        off = end;
    }
    assert(held_all(out@) + Seq::<Seq<u8>>::empty() =~= held_all(out@));
    out
}

/// What a viewer makes of pieces: their payloads, one after the other.
pub open spec fn reassembled(chunks: Seq<Seq<u8>>) -> Seq<u8>
    decreases chunks.len(),
{
    if chunks.len() == 0 {
        Seq::empty()
    } else {
        chunks[0].skip(HEADER as int) + reassembled(chunks.skip(1))
    }
}

/// The payloads of the pieces from `off` on make up the rest of the access unit.
proof fn lemma_reassembled(data: Seq<u8>, key: bool, ts: u64, off: int)
    requires
        0 <= off <= data.len(),
    ensures
        reassembled(chunks_from(data, key, ts, off)) == data.skip(off),
    decreases data.len() - off,
{
    lemma_auto_spec_u64_to_from_le_bytes();
    let all = chunks_from(data, key, ts, off);
    if off < data.len() {
        let end = chunk_end(data.len() as int, off);
        lemma_reassembled(data, key, ts, end);
        assert(all.skip(1) =~= chunks_from(data, key, ts, end));
        assert(all[0].skip(HEADER as int) =~= data.subrange(off, end));
        assert(data.subrange(off, end) + data.skip(end) =~= data.skip(off));
    } else {
        assert(data.skip(off) =~= Seq::<u8>::empty());
    }
}

/// The viewer gets back the access unit that was cut up.
pub proof fn law_chunks_reassemble(data: Seq<u8>, key: bool, ts: u64)
    ensures
        reassembled(chunks_from(data, key, ts, 0)) == data,
{
    lemma_reassembled(data, key, ts, 0);
    assert(data.skip(0) =~= data);
}

/// Each piece, from `off` on, is small, says whether it belongs to a key frame,
/// gives the time of the frame, and says whether it is the last one.
proof fn lemma_chunk_headers(data: Seq<u8>, key: bool, ts: u64, off: int, k: int)
    requires
        0 <= off,
        0 <= k < chunks_from(data, key, ts, off).len(),
    ensures
        ({
            let all = chunks_from(data, key, ts, off);
            &&& HEADER < all[k].len() <= HEADER + CHUNK
            &&& all[k][0] == flags(key, k == all.len() - 1)
            &&& spec_u64_from_le_bytes(all[k].subrange(1, HEADER as int)) == ts
        }),
    decreases data.len() - off,
{
    lemma_auto_spec_u64_to_from_le_bytes();
    let all = chunks_from(data, key, ts, off);
    let end = chunk_end(data.len() as int, off);
    let tail = chunks_from(data, key, ts, end);
    assert(all =~= seq![chunk_at(data, key, ts, off)] + tail);
    if k > 0 {
        assert(all[k] == tail[k - 1]);
        lemma_chunk_headers(data, key, ts, end, k - 1);
    } else {
        assert(all[0].subrange(1, HEADER as int) =~= spec_u64_to_le_bytes(ts));
        assert((end == data.len()) == (tail.len() == 0));
    }
}

/// No piece is larger than a browser takes, each gives the time of the frame and
/// whether it is a key frame, and exactly the last one says that it is the last.
pub proof fn law_chunk_headers(data: Seq<u8>, key: bool, ts: u64, k: int)
    requires
        0 <= k < chunks_from(data, key, ts, 0).len(),
    ensures
        ({
            let all = chunks_from(data, key, ts, 0);
            &&& HEADER < all[k].len() <= HEADER + CHUNK
            &&& all[k][0] == flags(key, k == all.len() - 1)
            &&& spec_u64_from_le_bytes(all[k].subrange(1, HEADER as int)) == ts
        }),
{
    lemma_chunk_headers(data, key, ts, 0, k);
}

/// A piece begins with a byte that is 1 for a key frame, plus 2 for the last piece of
/// the frame. Eight bytes give the time, the lowest first. Every piece but the last
/// carries 16384 bytes of the frame, and piece number `k` those from `16384 * k` on.
pub proof fn law_piece_layout(data: Seq<u8>, key: bool, ts: u64, k: int)
    requires
        0 <= 16384 * k < data.len(),
    ensures
        ({
            let all = chunks_from(data, key, ts, 0);
            let from = 16384 * k;
            let to = if from + 16384 < data.len() {
                from + 16384
            } else {
                data.len() as int
            };
            let a: int = if key {
                1
            } else {
                0
            };
            let b: int = if to == data.len() {
                2
            } else {
                0
            };
            &&& k < all.len()
            &&& all[k].len() == 9 + (to - from)
            &&& all[k][0] == a + b
            &&& spec_u64_from_le_bytes(all[k].subrange(1, 9)) == ts
            &&& all[k].subrange(9, all[k].len() as int) == data.subrange(from, to)
            &&& to == data.len() ==> all.len() == k + 1
        }),
{
    lemma_piece_layout(data, key, ts, 0, k);
}

/// The layout of the pieces from `off` on.
proof fn lemma_piece_layout(data: Seq<u8>, key: bool, ts: u64, off: int, k: int)
    requires
        0 <= off,
        0 <= k,
        off + 16384 * k < data.len(),
    ensures
        ({
            let all = chunks_from(data, key, ts, off);
            let from = off + 16384 * k;
            let to = if from + 16384 < data.len() {
                from + 16384
            } else {
                data.len() as int
            };
            let a: int = if key {
                1
            } else {
                0
            };
            let b: int = if to == data.len() {
                2
            } else {
                0
            };
            &&& k < all.len()
            &&& all[k].len() == 9 + (to - from)
            &&& all[k][0] == a + b
            &&& spec_u64_from_le_bytes(all[k].subrange(1, 9)) == ts
            &&& all[k].subrange(9, all[k].len() as int) == data.subrange(from, to)
            &&& to == data.len() ==> all.len() == k + 1
        }),
    decreases k,
{
    lemma_auto_spec_u64_to_from_le_bytes();
    let all = chunks_from(data, key, ts, off);
    let end = chunk_end(data.len() as int, off);
    let tail = chunks_from(data, key, ts, end);
    assert(all =~= seq![chunk_at(data, key, ts, off)] + tail);
    if k > 0 {
        assert(end == off + 16384);
        lemma_piece_layout(data, key, ts, end, k - 1);
        assert(all[k] == tail[k - 1]);
    } else {
        assert(all[0].subrange(1, 9) =~= spec_u64_to_le_bytes(ts));
        assert(all[0].subrange(9, all[0].len() as int) =~= data.subrange(off, end));
    }
}

/// The longest step of the media clock, in units of 100 ns.
pub const LONGEST_STEP: i64 = 100_000_000;

/// How long a frame lasts on the media clock, in nanoseconds: the time that has
/// really passed since the one before it, at most ten seconds, or the nominal
/// duration where that is not known.
pub open spec fn sample_duration(last: Option<i64>, ts: i64, nominal: u64) -> int {
    match last {
        Some(prev) => if ts > prev {
            100 * if ts - prev < LONGEST_STEP {
                ts - prev
            } else {
                LONGEST_STEP as int
            }
        } else {
            nominal as int
        },
        None => nominal as int,
    }
}

/// The media clock of one viewer. It goes by the time that has really passed:
/// with the nominal duration it would fall behind where frames are left out, and
/// the viewer's buffer would grow.
pub struct MediaClock {
    pub last: Option<i64>,
}

impl MediaClock {
    /// A clock before its first frame.
    pub fn new() -> (r: MediaClock)
        ensures
            r.last is None,
    {
        MediaClock { last: None }
    }

    /// How long a frame lasts, in nanoseconds.
    pub fn step(&mut self, ts: i64, nominal: u64) -> (r: u64)
        requires
            old(self).last matches Some(prev) ==> ts - prev <= i64::MAX,
        ensures
            r == sample_duration(old(self).last, ts, nominal),
            final(self).last == Some(ts),
    {
        let r: u64 = match self.last {
            Some(prev) => if ts > prev {
                let step: i64 = ts - prev;
                let step: i64 = if step < LONGEST_STEP {
                    step
                } else {
                    LONGEST_STEP
                };
                step as u64 * 100
            } else {
                nominal
            },
            None => nominal,
        };
        self.last = Some(ts);
        r
    }
}

/// The time on the media clock after the first `n` frames of a stream.
pub open spec fn clock_after(stamps: Seq<i64>, nominal: u64, n: int) -> int
    decreases n,
{
    if n <= 0 {
        0
    } else {
        clock_after(stamps, nominal, n - 1) + sample_duration(
            if n == 1 {
                None
            } else {
                Some(stamps[n - 2])
            },
            stamps[n - 1],
            nominal,
        )
    }
}

/// The media clock keeps up with real time: over frames that follow each other
/// within ten seconds it runs exactly as far as the capture times do, whichever
/// frames were left out in between.
pub proof fn law_clock_keeps_up(stamps: Seq<i64>, nominal: u64, n: int)
    requires
        1 <= n <= stamps.len(),
        forall|k: int|
            0 <= k < n - 1 ==> 0 < #[trigger] stamps[k + 1] - stamps[k] <= LONGEST_STEP,
    ensures
        clock_after(stamps, nominal, n) == nominal + 100 * (stamps[n - 1] - stamps[0]),
    decreases n,
{
    if n > 1 {
        law_clock_keeps_up(stamps, nominal, n - 1);
        assert(stamps[(n - 2) + 1] - stamps[n - 2] > 0);
    } else {
        assert(clock_after(stamps, nominal, 0) == 0);
    }
}

/// The time that a frame lasts is what has really passed, up to ten seconds; a clock
/// that has not moved on, or has no frame before, counts the nominal duration.
pub proof fn law_clock_steps(prev: i64, ts: i64, nominal: u64)
    ensures
        sample_duration(None, ts, nominal) == nominal,
        ts <= prev ==> sample_duration(Some(prev), ts, nominal) == nominal,
        0 < ts - prev <= 100_000_000 ==> sample_duration(Some(prev), ts, nominal) == 100 * (ts
            - prev),
        ts - prev > 100_000_000 ==> sample_duration(Some(prev), ts, nominal) == 10_000_000_000,
{
}

} // verus!
