//! Sound: from what the capture hands over to the frames that Opus encodes.
//!
//! The samples themselves are floating point numbers; what is said here holds
//! whatever a sample is.

use crate::payload::{from_vec, held};
use crate::text::{push_text, texts};
use bytes::Bytes;
use vstd::prelude::*;

verus! {

/// The sampling rate of Opus.
pub const TARGET_RATE: u32 = 48_000;

/// The length of a frame, in milliseconds.
pub const FRAME_MS: u64 = 20;

/// The samples of a frame, in each channel.
pub const FRAME_SAMPLES: usize = 960;

/// The samples of a stereo frame.
pub const FRAME_LEN: usize = 1920;

/// The bit rate of Opus.
pub const OPUS_BITRATE: i32 = 128_000;

/// The longest packet that Opus may make of a frame.
pub const PACKET_LIMIT: usize = 1500;

/// One packet of Opus.
pub struct AudioFrame {
    pub data: Bytes,
    /// In nanoseconds.
    pub duration_ns: u64,
}

/// A packet of Opus, as it goes to the viewers.
pub fn audio_frame(packet: Vec<u8>) -> (r: AudioFrame)
    ensures
        held(r.data) == packet@,
        r.duration_ns == FRAME_MS * 1_000_000,
{
    AudioFrame { data: from_vec(packet), duration_ns: FRAME_MS * 1_000_000 }
}

/// How many sampling times a run of interleaved samples covers.
pub open spec fn times(len: int, channels: int) -> int {
    if channels > 0 {
        len / channels
    } else {
        len
    }
}

/// The left sample of a sampling time.
pub open spec fn left<T>(s: Seq<T>, channels: int, t: int) -> T {
    s[t * channels]
}

/// The right sample of a sampling time: the second channel, or the only one.
pub open spec fn right<T>(s: Seq<T>, channels: int, t: int) -> T {
    if channels >= 2 {
        s[t * channels + 1]
    } else {
        s[t * channels]
    }
}

/// The first `n` sampling times as interleaved stereo.
pub open spec fn stereo<T>(s: Seq<T>, channels: int, n: int) -> Seq<T>
    decreases n,
{
    if n <= 0 {
        Seq::empty()
    } else {
        stereo(s, channels, n - 1) + seq![left(s, channels, n - 1), right(s, channels, n - 1)]
    }
}

/// Makes stereo of any number of channels: one is doubled, of more than two the
/// first two are taken.
pub fn downmix<T: Copy>(chunk: &[T], channels: usize) -> (r: Vec<T>)
    ensures
        r@ == stereo(chunk@, channels as int, times(chunk@.len() as int, channels as int)),
{
    let n: usize = if channels > 0 {
        chunk.len() / channels
    } else {
        chunk.len()
    };
    let mut r: Vec<T> = Vec::new();
    let mut t: usize = 0;
    let mut at: usize = 0;
    proof {
        if channels > 0 {
            assert(n * channels <= chunk@.len()) by (nonlinear_arith)
                requires
                    n == chunk@.len() / channels as nat,
                    channels > 0,
            ;
        }
    }
    while t < n
        invariant
            t <= n,
            n == times(chunk@.len() as int, channels as int),
            channels > 0 ==> n * channels <= chunk@.len(),
            at == t * channels,
            r@ == stereo(chunk@, channels as int, t as int),
        decreases n - t,
    {
        proof {
            assert((t + 1) * channels <= n * channels) by (nonlinear_arith)
                requires
                    t + 1 <= n,
            ;
            assert((t + 1) * channels == t * channels + channels) by (nonlinear_arith);
        }
        let l = chunk[at];
        let second = if channels >= 2 {
            chunk[at + 1]
        } else {
            l
        };
        r.push(l);
        r.push(second);
        assert(r@ =~= stereo(chunk@, channels as int, t as int) + seq![
            left(chunk@, channels as int, t as int),
            right(chunk@, channels as int, t as int),
        ]);
        t += 1;
        if t < n {
            at += channels;
        } else {
            return r;
        }
    }
    r
}

/// Every sampling time gives two samples.
pub proof fn law_stereo_length<T>(s: Seq<T>, channels: int, n: int)
    requires
        0 <= n,
    ensures
        stereo(s, channels, n).len() == 2 * n,
    decreases n,
{
    if n > 0 {
        law_stereo_length(s, channels, n - 1);
    }
}

/// What is already stereo comes through as it is.
pub proof fn law_stereo_unchanged<T>(s: Seq<T>, n: int)
    requires
        0 <= 2 * n <= s.len(),
    ensures
        stereo(s, 2, n) == s.take(2 * n),
    decreases n,
{
    if n > 0 {
        law_stereo_unchanged(s, n - 1);
        assert(s.take(2 * n) =~= s.take(2 * (n - 1)) + seq![s[2 * n - 2], s[2 * n - 1]]);
    } else {
        assert(s.take(0) =~= Seq::<T>::empty());
    }
}

/// The complete frames of a run of samples.
pub open spec fn frames<T>(s: Seq<T>) -> Seq<Seq<T>>
    decreases s.len(),
{
    if s.len() < FRAME_LEN {
        Seq::empty()
    } else {
        seq![s.take(FRAME_LEN as int)] + frames(s.skip(FRAME_LEN as int))
    }
}

/// What is left of a run of samples behind its complete frames.
pub open spec fn leftover<T>(s: Seq<T>) -> Seq<T>
    decreases s.len(),
{
    if s.len() < FRAME_LEN {
        s
    } else {
        leftover(s.skip(FRAME_LEN as int))
    }
}

/// Collects samples and hands them out in frames.
pub struct Framer<T> {
    pub pending: Vec<T>,
}

impl<T: Copy> Framer<T> {
    /// A framer without samples.
    pub fn new() -> (r: Framer<T>)
        ensures
            r.pending@ == Seq::<T>::empty(),
    {
        Framer { pending: Vec::new() }
    }

    /// Takes in the two samples of a sampling time.
    pub fn push(&mut self, l: T, r: T)
        ensures
            final(self).pending@ == old(self).pending@ + seq![l, r],
    {
        self.pending.push(l);
        self.pending.push(r);
        assert(self.pending@ =~= old(self).pending@ + seq![l, r]);
    }

    /// Hands out a frame, where one is complete.
    pub fn next(&mut self) -> (r: Option<Vec<T>>)
        ensures
            old(self).pending@.len() < FRAME_LEN ==> r is None && final(self).pending@ == old(
                self,
            ).pending@,
            old(self).pending@.len() >= FRAME_LEN ==> {
                &&& r matches Some(f) && f@ == old(self).pending@.take(FRAME_LEN as int)
                &&& final(self).pending@ == old(self).pending@.skip(FRAME_LEN as int)
            },
    {
        if self.pending.len() < FRAME_LEN {
            return None;
        }
        let ghost all = self.pending@;
        let tail = self.pending.split_off(FRAME_LEN);
        let mut frame: Vec<T> = tail;
        std::mem::swap(&mut self.pending, &mut frame);
        assert(frame@ =~= all.take(FRAME_LEN as int));
        assert(self.pending@ =~= all.skip(FRAME_LEN as int));
        Some(frame)
    }

    /// Hands out all frames that are complete.
    pub fn drain(&mut self) -> (r: Vec<Vec<T>>)
        ensures
            r@.map_values(|f: Vec<T>| f@) == frames(old(self).pending@),
            final(self).pending@ == leftover(old(self).pending@),
    {
        let mut r: Vec<Vec<T>> = Vec::new();
        let ghost all = frames(self.pending@);
        assert(r@.map_values(|f: Vec<T>| f@) + all =~= all);
        while self.pending.len() >= FRAME_LEN
            invariant
                all == r@.map_values(|f: Vec<T>| f@) + frames(self.pending@),
                leftover(old(self).pending@) == leftover(self.pending@),
            decreases self.pending@.len(),
        {
            let ghost before = r@.map_values(|f: Vec<T>| f@);
            let ghost s = self.pending@;
            if let Some(frame) = self.next() {
                r.push(frame);
            }
            assert(r@.map_values(|f: Vec<T>| f@) =~= before.push(s.take(FRAME_LEN as int)));
            assert(before + (seq![s.take(FRAME_LEN as int)] + frames(self.pending@))
                =~= before.push(s.take(FRAME_LEN as int)) + frames(self.pending@));
        }
        assert(r@.map_values(|f: Vec<T>| f@) + Seq::<Seq<T>>::empty() =~= r@.map_values(
            |f: Vec<T>| f@,
        ));
        r
    }
}

/// The frames, one after the other.
pub open spec fn flat<T>(f: Seq<Seq<T>>) -> Seq<T>
    decreases f.len(),
{
    if f.len() == 0 {
        Seq::empty()
    } else {
        f[0] + flat(f.skip(1))
    }
}

/// No sample is lost or doubled: the frames and what is left make up what came
/// in, in order, and every frame has the length that Opus wants.
pub proof fn law_samples_kept<T>(s: Seq<T>)
    ensures
        flat(frames(s)) + leftover(s) == s,
        leftover(s).len() < FRAME_LEN,
        forall|k: int| 0 <= k < frames(s).len() ==> (#[trigger] frames(s)[k]).len() == FRAME_LEN,
    decreases s.len(),
{
    if s.len() >= FRAME_LEN {
        let t = s.skip(FRAME_LEN as int);
        law_samples_kept(t);
        let all = frames(s);
        assert(all.skip(1) =~= frames(t));
        assert(flat(all) + leftover(s) =~= s.take(FRAME_LEN as int) + (flat(frames(t)) + leftover(
            t,
        )));
        assert(s.take(FRAME_LEN as int) + t =~= s);
        assert forall|k: int| 0 <= k < all.len() implies (#[trigger] all[k]).len() == FRAME_LEN by {
            if k > 0 {
                assert(all[k] == frames(t)[k - 1]);
            }
        }
    } else {
        assert(flat(frames(s)) + s =~= s);
    }
}

/// It does not matter in which portions the samples come: frames that are drained
/// in between are those that one drain at the end gives.
pub proof fn law_portions<T>(a: Seq<T>, b: Seq<T>)
    ensures
        frames(a + b) == frames(a) + frames(leftover(a) + b),
        leftover(a + b) == leftover(leftover(a) + b),
    decreases a.len(),
{
    if a.len() >= FRAME_LEN {
        let t = a.skip(FRAME_LEN as int);
        law_portions(t, b);
        assert((a + b).skip(FRAME_LEN as int) =~= t + b);
        assert((a + b).take(FRAME_LEN as int) =~= a.take(FRAME_LEN as int));
        assert(frames(a + b) =~= frames(a) + frames(leftover(a) + b));
    } else {
        assert(frames(a) + frames(a + b) =~= frames(a + b));
    }
}

/// The arguments of the process that records what the machine plays on Linux: the
/// monitor of whichever output is the default one, as stereo at the rate of Opus.
pub open spec fn monitor_list() -> Seq<Seq<char>> {
    seq![
        "-q"@,
        "pulsesrc"@,
        "device=@DEFAULT_MONITOR@"@,
        "!"@,
        "audioconvert"@,
        "!"@,
        "audioresample"@,
        "!"@,
        "audio/x-raw,format=F32LE,rate=48000,channels=2"@,
        "!"@,
        "fdsink"@,
        "fd=1"@,
        "sync=false"@,
    ]
}

/// The arguments of the process that records what the machine plays on Linux.
pub fn monitor_args() -> (r: Vec<String>)
    ensures
        texts(r@) == monitor_list(),
{
    let mut v: Vec<String> = Vec::new();
    push_text(&mut v, "-q");
    push_text(&mut v, "pulsesrc");
    push_text(&mut v, "device=@DEFAULT_MONITOR@");
    push_text(&mut v, "!");
    push_text(&mut v, "audioconvert");
    push_text(&mut v, "!");
    push_text(&mut v, "audioresample");
    push_text(&mut v, "!");
    push_text(&mut v, "audio/x-raw,format=F32LE,rate=48000,channels=2");
    push_text(&mut v, "!");
    push_text(&mut v, "fdsink");
    push_text(&mut v, "fd=1");
    push_text(&mut v, "sync=false");
    assert(texts(v@) =~= monitor_list());
    v
}

/// Of every sampling time the first two channels are taken, however many there are:
/// the left sample is that of the first channel, the right one that of the second, and
/// a single channel is both. No sampling time is left out and none is added.
pub proof fn law_first_two_channels<T>(s: Seq<T>, channels: int, t: int)
    requires
        1 <= channels,
        0 <= t < s.len() as int / channels,
    ensures
        ({
            let r = stereo(s, channels, times(s.len() as int, channels));
            &&& r.len() == 2 * (s.len() as int / channels)
            &&& r[2 * t] == s[t * channels]
            &&& channels >= 2 ==> r[2 * t + 1] == s[t * channels + 1]
            &&& channels == 1 ==> r[2 * t + 1] == s[t]
        }),
{
    let n = times(s.len() as int, channels);
    law_stereo_length(s, channels, n);
    lemma_stereo_at(s, channels, n, t);
}

/// The two samples of a sampling time.
proof fn lemma_stereo_at<T>(s: Seq<T>, channels: int, n: int, t: int)
    requires
        0 <= t < n,
    ensures
        stereo(s, channels, n).len() == 2 * n,
        stereo(s, channels, n)[2 * t] == left(s, channels, t),
        stereo(s, channels, n)[2 * t + 1] == right(s, channels, t),
    decreases n,
{
    law_stereo_length(s, channels, n);
    law_stereo_length(s, channels, n - 1);
    if t < n - 1 {
        lemma_stereo_at(s, channels, n - 1, t);
    }
}

/// A frame is 20 ms of stereo at the rate of Opus.
pub proof fn law_frame_is_20_ms<T>(s: Seq<T>, k: int)
    requires
        0 <= k < frames(s).len(),
    ensures
        frames(s)[k].len() == 1920,
        frames(s)[k] == s.subrange(1920 * k, 1920 * k + 1920),
    decreases s.len(),
{
    let t = s.skip(FRAME_LEN as int);
    let all = frames(s);
    assert(all =~= seq![s.take(FRAME_LEN as int)] + frames(t));
    if k > 0 {
        law_frame_is_20_ms(t, k - 1);
        assert(t.subrange(1920 * (k - 1), 1920 * (k - 1) + 1920) =~= s.subrange(
            1920 * k,
            1920 * k + 1920,
        )) by {
            law_frames_fit(t, k - 1);
        }
    } else {
        assert(s.take(1920) =~= s.subrange(0, 1920));
    }
}

/// There are as many frames as fit.
pub proof fn law_frames_fit<T>(s: Seq<T>, k: int)
    requires
        0 <= k,
    ensures
        k < frames(s).len() <==> 1920 * k + 1920 <= s.len(),
    decreases s.len(),
{
    if s.len() >= FRAME_LEN {
        let t = s.skip(FRAME_LEN as int);
        assert(frames(s).len() == 1 + frames(t).len());
        if k > 0 {
            law_frames_fit(t, k - 1);
        }
    }
}

/// The numbers of a frame fit together: 20 ms at 48 kHz in two channels.
pub proof fn law_frame_numbers()
    ensures
        1000 * FRAME_SAMPLES == TARGET_RATE * FRAME_MS,
        FRAME_LEN == 2 * FRAME_SAMPLES,
        TARGET_RATE == 48_000,
        FRAME_MS == 20,
        OPUS_BITRATE == 128_000,
{
}

/// Without a number of channels, every sampling time is the first sample.
pub proof fn law_no_channels<T>(s: Seq<T>, t: int)
    requires
        0 <= t < s.len(),
    ensures
        ({
            let r = stereo(s, 0, times(s.len() as int, 0));
            &&& r.len() == 2 * s.len()
            &&& r[2 * t] == s[0]
            &&& r[2 * t + 1] == s[0]
        }),
{
    lemma_stereo_at(s, 0, s.len() as int, t);
}

} // verus!
