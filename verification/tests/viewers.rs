use bytes::Bytes;
use mirror_host::engine::EncodedFrame;
use mirror_host::protocol::SignalMessage;
use mirror_host::pump::{au_chunks, MediaClock, Pump, PumpAction, BUFFER_LIMIT, CHUNK};
use mirror_host::session::{
    audio_codec, bind_address, ice_report, is_same_machine, pong, sends_audio, video_codec,
    Address, SignalAction, Signaling, VideoPlan, ICE_PORT_MAX, ICE_PORT_MIN,
};
use mirror_host::signaling::{host_name, ping_body};

fn v4(a: u8, b: u8, c: u8, d: u8) -> Address {
    Address::V4(u32::from_be_bytes([a, b, c, d]))
}

#[test]
fn viewers_on_this_machine_are_known() {
    assert!(is_same_machine(v4(127, 0, 0, 1), None));
    assert!(is_same_machine(v4(127, 9, 9, 9), None));
    assert!(is_same_machine(Address::V6(1), None));
    assert!(!is_same_machine(Address::V6(2), None));
    let own = v4(192, 168, 1, 77);
    assert!(is_same_machine(own, Some(own)));
    assert!(!is_same_machine(v4(192, 168, 1, 5), Some(own)));
    assert!(!is_same_machine(v4(128, 0, 0, 1), None));
    assert_eq!(bind_address(own), "0.0.0.0:0");
    assert_eq!(bind_address(Address::V6(9)), "[::]:0");
}

#[test]
fn sound_is_kept_from_viewers_on_this_machine() {
    assert!(sends_audio(true, false));
    assert!(!sends_audio(true, true));
    assert!(!sends_audio(false, false));
}

#[test]
fn codecs() {
    let v = video_codec();
    assert_eq!((v.clock_rate, v.channels, v.payload_type), (90000, 0, 102));
    assert_eq!(
        v.parameters,
        "level-asymmetry-allowed=1;packetization-mode=1;profile-level-id=42e01f"
    );
    let a = audio_codec();
    assert_eq!((a.clock_rate, a.channels, a.payload_type), (48000, 2, 111));
    assert_eq!(a.parameters, "minptime=10;useinbandfec=1");
    assert_eq!((ICE_PORT_MIN, ICE_PORT_MAX), (47100, 47120));
}

fn offer(profile: Option<&str>, path: Option<&str>) -> SignalMessage {
    SignalMessage::Offer {
        sdp: "v=0\r\na=candidate:1 1 udp 1 192.168.1.2 5 typ host\r\n".to_string(),
        profile: profile.map(str::to_string),
        video_path: path.map(str::to_string),
    }
}

fn video_of(a: SignalAction) -> Option<VideoPlan> {
    match a {
        SignalAction::Answer { video, ice } => {
            assert_eq!((ice.candidates, ice.mdns, ice.only_mdns), (1, 0, false));
            video
        }
        SignalAction::Ignore => panic!("an offer is answered"),
    }
}

#[test]
fn the_first_offer_starts_the_video() {
    let mut s = Signaling::new();
    let other = SignalMessage::Answer { sdp: String::new() };
    assert_eq!(s.receive(&other, true), SignalAction::Ignore);
    let first = video_of(s.receive(&offer(Some("lite"), Some("webcodecs")), true));
    assert_eq!(first, Some(VideoPlan { lite: true, webcodecs: true }));
    assert_eq!(video_of(s.receive(&offer(None, None), true)), None);
}

#[test]
fn plans_follow_the_offer_and_what_is_there() {
    let plan = |p, v, lite| video_of(Signaling::new().receive(&offer(p, v), lite));
    assert_eq!(plan(Some("lite"), None, false), Some(VideoPlan { lite: false, webcodecs: false }));
    assert_eq!(plan(None, None, true), Some(VideoPlan { lite: false, webcodecs: false }));
    assert_eq!(plan(Some("full"), Some("rtp"), true), Some(VideoPlan { lite: false, webcodecs: false }));
    assert_eq!(plan(Some("lite"), None, true), Some(VideoPlan { lite: true, webcodecs: false }));
}

#[test]
fn candidates_are_counted() {
    let sdp = "a=candidate:1 x.local\na=candidate:2 10.0.0.1\r\n a=candidate:3\nb=.local\n";
    let r = ice_report(sdp);
    assert_eq!((r.candidates, r.mdns, r.only_mdns), (2, 1, false));
    let r = ice_report("a=candidate:1 a.local\na=candidate:2 b.local");
    assert_eq!((r.candidates, r.mdns, r.only_mdns), (2, 2, true));
    let r = ice_report("");
    assert_eq!((r.candidates, r.mdns, r.only_mdns), (0, 0, false));
}

#[test]
fn pings_come_back_as_pongs() {
    let text = "{\"type\":\"ping\",\"t\":12.5}";
    let reply = pong(text).unwrap();
    assert_eq!(reply, "{\"type\":\"pong\",\"t\":12.5}");
    assert_eq!(reply.len(), text.len());
    assert_eq!(pong("{\"type\":ping}"), None);
    assert_eq!(pong("\"ping\"ping\"\"ping\"").unwrap(), "\"ping\"ping\"\"ping\"".replace("\"ping\"", "\"pong\""));
}

#[test]
fn a_pump_begins_with_a_key_frame() {
    let mut p = Pump::new();
    assert!(!p.accepts(false));
    assert_eq!(p.frame(false, 0), PumpAction::Skip);
    assert!(p.accepts(true));
    assert_eq!(p.frame(true, 0), PumpAction::Send);
    assert_eq!(p.frame(false, BUFFER_LIMIT), PumpAction::Send);
}

#[test]
fn a_full_channel_and_a_loss_lead_to_a_key_frame() {
    let mut p = Pump::new();
    assert_eq!(p.frame(true, BUFFER_LIMIT + 1), PumpAction::Resync);
    assert_eq!(p.frame(false, 0), PumpAction::Skip);
    assert_eq!(p.frame(true, 0), PumpAction::Send);
    assert_eq!(p.lagged(), PumpAction::Resync);
    assert_eq!(p.frame(false, 0), PumpAction::Skip);
    assert_eq!(p.frame(true, 0), PumpAction::Send);
    assert_eq!(p.frame(false, 0), PumpAction::Send);
}

fn frame(len: usize, key: bool, ts: i64) -> EncodedFrame {
    let data: Vec<u8> = (0..len).map(|i| (i % 251) as u8).collect();
    EncodedFrame { data: Bytes::from(data), is_keyframe: key, duration_ns: 1, ts_100ns: ts }
}

#[test]
fn access_units_are_cut_and_put_together() {
    for len in [1, CHUNK - 1, CHUNK, CHUNK + 1, 3 * CHUNK, 500_000] {
        for key in [false, true] {
            let f = frame(len, key, 0x0102030405060708);
            let chunks = au_chunks(&f);
            assert_eq!(chunks.len(), (len + CHUNK - 1) / CHUNK);
            let mut all = Vec::new();
            for (i, c) in chunks.iter().enumerate() {
                let last = i == chunks.len() - 1;
                assert_eq!(c[0], key as u8 + 2 * last as u8);
                assert_eq!(&c[1..9], &[8, 7, 6, 5, 4, 3, 2, 1]);
                assert!(c.len() <= CHUNK + 9);
                all.extend_from_slice(&c[9..]);
            }
            assert_eq!(all, f.data.to_vec());
        }
    }
}

#[test]
fn an_empty_unit_has_no_pieces_and_a_negative_time_wraps() {
    assert!(au_chunks(&frame(0, true, 0)).is_empty());
    let c = au_chunks(&frame(2, false, -1));
    assert_eq!(c[0].to_vec(), vec![2, 255, 255, 255, 255, 255, 255, 255, 255, 0, 1]);
}

#[test]
fn the_media_clock_goes_by_real_time() {
    let mut c = MediaClock::new();
    assert_eq!(c.step(1000, 777), 777);
    assert_eq!(c.step(1500, 777), 50_000);
    assert_eq!(c.step(1500, 777), 777);
    assert_eq!(c.step(100, 777), 777);
    assert_eq!(c.step(200_000_000, 777), 10_000_000_000);
}

#[test]
fn the_media_clock_keeps_up_over_left_out_frames() {
    let stamps = [0i64, 166_666, 333_333, 5_000_000, 5_166_666, 90_000_000];
    let mut c = MediaClock::new();
    let total: u64 = stamps.iter().map(|&t| c.step(t, 16_666_666)).sum();
    assert_eq!(total, 16_666_666 + 90_000_000 * 100);
}

#[test]
fn the_host_is_named_by_the_first_source_that_has_a_name() {
    let s = |t: &str| Some(t.to_string());
    assert_eq!(host_name(s("PC"), s("h"), s("f")), "PC");
    assert_eq!(host_name(None, s("h "), s("f")), "h ");
    assert_eq!(host_name(None, None, s("  box\n")), "box");
    assert_eq!(host_name(None, None, None), "");
}

#[test]
fn the_discovery_reply_is_json() {
    assert_eq!(ping_body("PC"), "{\"app\":\"mirror-host\",\"name\":\"PC\"}");
    assert_eq!(
        ping_body("a\"b\\c\n\u{1}\u{1f}\u{7f}ş"),
        "{\"app\":\"mirror-host\",\"name\":\"a\\\"b\\\\c\\n\\u0001\\u001f\u{7f}ş\"}"
    );
    assert_eq!(
        ping_body("\u{8}\t\u{c}\r"),
        "{\"app\":\"mirror-host\",\"name\":\"\\b\\t\\f\\r\"}"
    );
    let odd = "x\u{0}\u{10}y\"";
    let v: serde_json::Value = serde_json::from_str(&ping_body(odd)).unwrap();
    assert_eq!(v["name"], odd);
    assert_eq!(v["app"], "mirror-host");
    assert!(ping_body(odd).chars().all(|c| c as u32 >= 32));
}
