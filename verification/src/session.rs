//! The session of one viewer: what is sent to whom, and in which form.

use crate::protocol::SignalMessage;
use crate::text::{
    contains, is_text, law_nothing_replaced, law_replaced, lines, lines_of, occurs, occurs_at,
    optional, replace, replaced, starts_with, texts,
};
use vstd::prelude::*;

verus! {

/// The UDP ports for media. The range is fixed and narrow, so that a firewall can
/// be opened for it.
pub const ICE_PORT_MIN: u16 = 47100;

pub const ICE_PORT_MAX: u16 = 47120;

/// The channel for the cursor. Both ends open it under this number.
pub const CURSOR_CHANNEL: u16 = 0;

/// The channel for bare access units. Its number is even: an odd one belongs to
/// the other role of the handshake, and would never open.
pub const VIDEO_CHANNEL: u16 = 2;

/// How long to wait for candidates before the answer is sent, in seconds.
pub const GATHER_SECONDS: u64 = 3;

/// A codec that the host offers.
pub struct Codec {
    pub clock_rate: u32,
    pub channels: u16,
    pub parameters: String,
    pub payload_type: u8,
}

/// The video codec, H.264. No other is offered: it is the one that televisions
/// decode in hardware.
pub fn video_codec() -> (r: Codec)
    ensures
        r.clock_rate == 90000,
        r.channels == 0,
        r.parameters@
            == "level-asymmetry-allowed=1;packetization-mode=1;profile-level-id=42e01f"@,
        r.payload_type == 102,
{
    Codec {
        clock_rate: 90000,
        channels: 0,
        parameters:
            "level-asymmetry-allowed=1;packetization-mode=1;profile-level-id=42e01f".to_owned(),
        payload_type: 102,
    }
}

/// The audio codec, Opus.
pub fn audio_codec() -> (r: Codec)
    ensures
        r.clock_rate == 48000,
        r.channels == 2,
        r.parameters@ == "minptime=10;useinbandfec=1"@,
        r.payload_type == 111,
{
    Codec {
        clock_rate: 48000,
        channels: 2,
        parameters: "minptime=10;useinbandfec=1".to_owned(),
        payload_type: 111,
    }
}

/// An IP address, as the number that its bytes make up in network order.
#[derive(Clone, Copy, Debug, PartialEq, Eq, Structural)]
pub enum Address {
    V4(u32),
    V6(u128),
}

/// The address never leaves the machine: 127.0.0.0/8, or ::1.
pub open spec fn loopback(a: Address) -> bool {
    match a {
        Address::V4(n) => n / 0x1000000 == 127,
        Address::V6(n) => n == 1,
    }
}

/// What a socket is bound to that looks for the way to a peer.
pub fn bind_address(peer: Address) -> (r: &'static str)
    ensures
        peer is V4 ==> r@ == "0.0.0.0:0"@,
        peer is V6 ==> r@ == "[::]:0"@,
{
    match peer {
        Address::V4(_) => "0.0.0.0:0",
        Address::V6(_) => "[::]:0",
    }
}

/// Whether a viewer runs on this machine: on the loopback, or at an address that
/// is its own way back. `source` is the local end of the way to the peer, where
/// one was found.
pub fn is_same_machine(peer: Address, source: Option<Address>) -> (r: bool)
    ensures
        r == (loopback(peer) || source == Some(peer)),
{
    let own = match peer {
        Address::V4(n) => n / 0x1000000 == 127,
        Address::V6(n) => n == 1,
    };
    if own {
        return true;
    }
    match source {
        Some(a) => a == peer,
        None => false,
    }
}

/// Whether a viewer gets the sound: not one on this machine, whose speakers would
/// feed the capture.
pub fn sends_audio(captured: bool, same_machine: bool) -> (r: bool)
    ensures
        r == (captured && !same_machine),
{
    captured && !same_machine
}

/// How a viewer gets the picture.
#[derive(Clone, Copy, Debug, PartialEq, Eq, Structural)]
pub struct VideoPlan {
    /// The light stream, instead of the full one.
    pub lite: bool,
    /// Bare access units on the data channel, instead of RTP.
    pub webcodecs: bool,
}

/// What an offer asks for: the light stream where it wants it and there is one.
pub open spec fn planned(
    profile: Option<String>,
    video_path: Option<String>,
    lite_available: bool,
) -> VideoPlan {
    VideoPlan {
        lite: lite_available && optional(profile) == Some("lite"@),
        webcodecs: optional(video_path) == Some("webcodecs"@),
    }
}

/// How many of the first `n` lines are candidates.
pub open spec fn candidate_count(list: Seq<Seq<char>>, n: int) -> int
    decreases n,
{
    if n <= 0 {
        0
    } else {
        candidate_count(list, n - 1) + if occurs_at(list[n - 1], "a=candidate:"@, 0) {
            1int
        } else {
            0int
        }
    }
}

/// How many of the first `n` lines are candidates that hide their address behind
/// a name of the local network.
pub open spec fn mdns_count(list: Seq<Seq<char>>, n: int) -> int
    decreases n,
{
    if n <= 0 {
        0
    } else {
        mdns_count(list, n - 1) + if occurs_at(list[n - 1], "a=candidate:"@, 0) && occurs(
            list[n - 1],
            ".local"@,
        ) {
            1int
        } else {
            0int
        }
    }
}

/// The candidates that an offer carries.
#[derive(Clone, Copy, Debug, PartialEq, Eq, Structural)]
pub struct IceReport {
    pub candidates: usize,
    /// Those behind a name of the local network.
    pub mdns: usize,
    /// There are candidates, and none of them can be reached without such a name.
    pub only_mdns: bool,
}

/// Counts the candidates that an offer carries.
pub fn ice_report(sdp: &str) -> (r: IceReport)
    ensures
        r.candidates == candidate_count(lines_of(sdp@), lines_of(sdp@).len() as int),
        r.mdns == mdns_count(lines_of(sdp@), lines_of(sdp@).len() as int),
        r.only_mdns == (r.mdns > 0 && r.mdns == r.candidates),
{
    let list = lines(sdp);
    let mut candidates: usize = 0;
    let mut mdns: usize = 0;
    let mut i: usize = 0;
    while i < list.len()
        invariant
            i <= list@.len(),
            texts(list@) == lines_of(sdp@),
            candidates == candidate_count(lines_of(sdp@), i as int),
            mdns == mdns_count(lines_of(sdp@), i as int),
            mdns <= candidates <= i,
        decreases list@.len() - i,
    {
        assert(lines_of(sdp@)[i as int] == list@[i as int]@);
        if starts_with(list[i].as_str(), "a=candidate:") {
            candidates += 1;
            if contains(list[i].as_str(), ".local") {
                mdns += 1;
            }
        }
        i += 1;
    }
    assert(lines_of(sdp@).len() == list@.len());
    IceReport { candidates, mdns, only_mdns: mdns > 0 && mdns == candidates }
}

/// What the host does about a signaling message.
#[derive(Clone, Copy, Debug, PartialEq, Eq, Structural)]
pub enum SignalAction {
    /// Start the video, where a plan is given, and answer the offer.
    Answer { video: Option<VideoPlan>, ice: IceReport },
    Ignore,
}

/// The signaling side of a session.
pub struct Signaling {
    /// The video has been started.
    pub video_configured: bool,
}

impl Signaling {
    /// A session before its first offer.
    pub fn new() -> (r: Signaling)
        ensures
            !r.video_configured,
    {
        Signaling { video_configured: false }
    }

    /// Handles a message: each offer is answered, the first one also decides on
    /// the video, and anything else is passed over.
    pub fn receive(&mut self, msg: &SignalMessage, lite_available: bool) -> (r: SignalAction)
        ensures
            match *msg {
                SignalMessage::Offer { sdp, profile, video_path } => {
                    &&& final(self).video_configured
                    &&& r matches SignalAction::Answer { video, ice } && {
                        &&& video == (if old(self).video_configured {
                            None::<VideoPlan>
                        } else {
                            Some(planned(profile, video_path, lite_available))
                        })
                        &&& ice.candidates == candidate_count(
                            lines_of(sdp@),
                            lines_of(sdp@).len() as int,
                        )
                        &&& ice.mdns == mdns_count(lines_of(sdp@), lines_of(sdp@).len() as int)
                        &&& ice.only_mdns == (ice.mdns > 0 && ice.mdns == ice.candidates)
                    }
                },
                SignalMessage::Answer { sdp } => {
                    &&& final(self).video_configured == old(self).video_configured
                    &&& r == SignalAction::Ignore
                },
            },
    {
        match msg {
            SignalMessage::Offer { sdp, profile, video_path } => {
                let video = if self.video_configured {
                    None
                } else {
                    Some(
                        VideoPlan {
                            lite: lite_available && is_text(profile, "lite"),
                            webcodecs: is_text(video_path, "webcodecs"),
                        },
                    )
                };
                self.video_configured = true;
                SignalAction::Answer { video, ice: ice_report(sdp.as_str()) }
            },
            SignalMessage::Answer { sdp: _ } => SignalAction::Ignore,
        }
    }
}

/// The reply to a text on the cursor channel: a ping comes back as it is, with
/// the word changed, so that the viewer can measure the way.
pub fn pong(text: &str) -> (r: Option<String>)
    ensures
        r is Some <==> occurs(text@, "\"ping\""@),
        r matches Some(t) ==> t@ == replaced(text@, "\"ping\""@, "\"pong\""@),
{
    if contains(text, "\"ping\"") {
        proof {
            reveal_strlit("\"ping\"");
        }
        Some(replace(text, "\"ping\"", "\"pong\""))
    } else {
        None
    }
}

/// A replacement by something of the same length keeps the length.
proof fn lemma_replaced_len(s: Seq<char>, from: Seq<char>, to: Seq<char>)
    requires
        from.len() == to.len(),
    ensures
        replaced(s, from, to).len() == s.len(),
    decreases s.len(),
{
    if s.len() > 0 && from.len() > 0 {
        if occurs_at(s, from, 0) {
            lemma_replaced_len(s.skip(from.len() as int), from, to);
        } else {
            lemma_replaced_len(s.skip(1), from, to);
        }
    }
}

/// The reply to a ping is as long as the ping.
pub proof fn law_pong_length(text: Seq<char>)
    ensures
        replaced(text, "\"ping\""@, "\"pong\""@).len() == text.len(),
{
    reveal_strlit("\"ping\"");
    reveal_strlit("\"pong\"");
    lemma_replaced_len(text, "\"ping\""@, "\"pong\""@);
}

/// Whether the video has been started after the first `n` messages.
pub open spec fn configured_after(msgs: Seq<SignalMessage>, n: int) -> bool
    decreases n,
{
    n > 0 && (configured_after(msgs, n - 1) || msgs[n - 1] is Offer)
}

/// Whether message number `k` starts the video.
pub open spec fn starts_video(msgs: Seq<SignalMessage>, k: int) -> bool {
    0 <= k < msgs.len() && msgs[k] is Offer && !configured_after(msgs, k)
}

/// Once the video is started it stays so.
proof fn lemma_configured_stays(msgs: Seq<SignalMessage>, m: int, n: int)
    requires
        0 <= m <= n,
        configured_after(msgs, m),
    ensures
        configured_after(msgs, n),
    decreases n - m,
{
    if m < n {
        lemma_configured_stays(msgs, m, n - 1);
    }
}

/// A viewer that makes several offers, as it does when it connects again, gets one
/// video: the first offer starts it, and no other does.
pub proof fn law_one_video(msgs: Seq<SignalMessage>, first: int, k: int)
    requires
        0 <= first < msgs.len(),
        msgs[first] is Offer,
        forall|j: int| 0 <= j < first ==> !(#[trigger] msgs[j] is Offer),
        0 <= k < msgs.len(),
    ensures
        starts_video(msgs, k) <==> k == first,
{
    lemma_not_configured(msgs, first, first);
    if k > first {
        assert(configured_after(msgs, first + 1));
        lemma_configured_stays(msgs, first + 1, k);
    } else if k < first {
        assert(!(msgs[k] is Offer));
    }
}

/// Without an offer the video is not started.
proof fn lemma_not_configured(msgs: Seq<SignalMessage>, first: int, n: int)
    requires
        0 <= n <= first,
        forall|j: int| 0 <= j < first ==> !(#[trigger] msgs[j] is Offer),
    ensures
        !configured_after(msgs, n),
    decreases n,
{
    if n > 0 {
        lemma_not_configured(msgs, first, n - 1);
        assert(!(msgs[n - 1] is Offer));
    }
}

/// A viewer is on this machine where its address begins with 127, or is the loopback
/// of IPv6.
pub proof fn law_loopback(n: u32, m: u128)
    ensures
        loopback(Address::V4(n)) <==> 0x7f00_0000 <= n <= 0x7fff_ffff,
        loopback(Address::V6(m)) <==> m == 1,
{
}

/// A viewer gets the light stream where it asks for it by its name and there is one,
/// and the bare access units where it asks for them; the one has nothing to do with
/// the other.
pub proof fn law_plan_follows_offer(
    profile: Option<String>,
    path: Option<String>,
    lite_available: bool,
)
    ensures
        planned(profile, path, false).lite == false,
        planned(profile, path, true).lite <==> (profile matches Some(p) && p@ == "lite"@),
        planned(None, path, lite_available).lite == false,
        planned(profile, path, lite_available).webcodecs <==> (path matches Some(p) && p@
            == "webcodecs"@),
{
}

/// The candidates of an offer are its lines that begin with `a=candidate:`; those
/// among them that name a host of the local network are counted apart.
pub proof fn law_candidates_counted(list: Seq<Seq<char>>, line: Seq<char>)
    ensures
        candidate_count(Seq::<Seq<char>>::empty(), 0) == 0,
        mdns_count(Seq::<Seq<char>>::empty(), 0) == 0,
        ({
            let more = list.push(line);
            let n = list.len() as int;
            let is_candidate = line.len() >= 12 && line.take(12) == "a=candidate:"@;
            let hidden = exists|i: int|
                0 <= i && i + 6 <= line.len() && #[trigger] line.subrange(i, i + 6) == ".local"@;
            &&& is_candidate ==> candidate_count(more, n + 1) == candidate_count(list, n) + 1
            &&& !is_candidate ==> candidate_count(more, n + 1) == candidate_count(list, n)
            &&& is_candidate && hidden ==> mdns_count(more, n + 1) == mdns_count(list, n) + 1
            &&& !is_candidate || !hidden ==> mdns_count(more, n + 1) == mdns_count(list, n)
        }),
{
    let more = list.push(line);
    let n = list.len() as int;
    lemma_counts_of_front(list, line, n);
    reveal_strlit("a=candidate:");
    reveal_strlit(".local");
    assert(more[n] == line);
    if line.len() >= 12 {
        assert(line.take(12) =~= line.subrange(0, 12));
    }
    if occurs(line, ".local"@) {
        let i = choose|i: int| #[trigger] occurs_at(line, ".local"@, i);
        assert(line.subrange(i, i + 6) == ".local"@);
    }
    if exists|i: int| 0 <= i && i + 6 <= line.len() && #[trigger] line.subrange(i, i + 6)
        == ".local"@ {
        let i = choose|i: int|
            0 <= i && i + 6 <= line.len() && #[trigger] line.subrange(i, i + 6) == ".local"@;
        assert(occurs_at(line, ".local"@, i));
    }
}

/// A line at the end does not change the counts before it.
proof fn lemma_counts_of_front(list: Seq<Seq<char>>, line: Seq<char>, n: int)
    requires
        0 <= n <= list.len(),
    ensures
        candidate_count(list.push(line), n) == candidate_count(list, n),
        mdns_count(list.push(line), n) == mdns_count(list, n),
    decreases n,
{
    if n > 0 {
        lemma_counts_of_front(list, line, n - 1);
        assert(list.push(line)[n - 1] == list[n - 1]);
    }
}

/// A ping comes back with its word changed, and with everything around it as it was.
pub proof fn law_pong_answers(a: Seq<char>, b: Seq<char>)
    requires
        forall|i: int|
            0 <= i < a.len() ==> !#[trigger] occurs_at(a + "\"ping\""@ + b, "\"ping\""@, i),
        !occurs(b, "\"ping\""@),
    ensures
        replaced(a + "\"ping\""@ + b, "\"ping\""@, "\"pong\""@) == a + "\"pong\""@ + b,
{
    reveal_strlit("\"ping\"");
    law_replaced(a, "\"ping\""@, b, "\"pong\""@);
    law_nothing_replaced(b, "\"ping\""@, "\"pong\""@);
}

/// The ports of media are those that a firewall is opened for, and the numbers of the
/// channels are even, so that both ends can open them.
pub proof fn law_ports_and_channels()
    ensures
        ICE_PORT_MIN == 47100,
        ICE_PORT_MAX == 47120,
        CURSOR_CHANNEL == 0,
        VIDEO_CHANNEL == 2,
        CURSOR_CHANNEL % 2 == 0 && VIDEO_CHANNEL % 2 == 0,
{
}

} // verus!
