use mirror_host::audio::{
    audio_frame, downmix, monitor_args, Framer, FRAME_LEN, FRAME_MS, FRAME_SAMPLES, TARGET_RATE,
};
use mirror_host::audio_route;
use mirror_host::audio_route::{engage, find_target, is_virtual_name, restore_target, Endpoint};
use mirror_host::audio_route_linux;
use mirror_host::audio_route_linux::{
    sink_inputs, stuck_modules, target_name, Action, Engage, EngagePhase, Restore, RestorePhase,
    RouteError,
};
use mirror_host::utf16::{before_zero, decode, encode, encode_terminated};

#[test]
fn frame_sizes() {
    assert_eq!(FRAME_SAMPLES, TARGET_RATE as usize / 1000 * FRAME_MS as usize);
    assert_eq!(FRAME_LEN, 2 * FRAME_SAMPLES);
}

#[test]
fn channels_become_stereo() {
    assert_eq!(downmix(&[1.0f32, 2.0, 3.0], 1), vec![1.0, 1.0, 2.0, 2.0, 3.0, 3.0]);
    assert_eq!(downmix(&[1.0f32, 2.0, 3.0, 4.0, 5.0], 2), vec![1.0, 2.0, 3.0, 4.0]);
    assert_eq!(downmix(&[1, 2, 3, 4, 5, 6, 7, 8, 9], 4), vec![1, 2, 5, 6]);
    assert_eq!(downmix(&[7, 8], 0), vec![7, 7, 7, 7]);
    assert_eq!(downmix::<i32>(&[], 2), Vec::<i32>::new());
    assert_eq!(downmix(&[1, 2], 3), Vec::<i32>::new());
}

#[test]
fn frames_keep_every_sample() {
    let mut f = Framer::new();
    let n = FRAME_LEN + 700;
    let mut out: Vec<u32> = Vec::new();
    for i in 0..n as u32 {
        f.push(2 * i, 2 * i + 1);
        if i % 333 == 0 {
            for frame in f.drain() {
                assert_eq!(frame.len(), FRAME_LEN);
                out.extend(frame);
            }
        }
    }
    while let Some(frame) = f.next() {
        out.extend(frame);
    }
    assert!(f.pending.len() < FRAME_LEN);
    out.extend(f.pending.iter());
    assert_eq!(out, (0..2 * n as u32).collect::<Vec<u32>>());
}

#[test]
fn a_framer_without_enough_samples_gives_nothing() {
    let mut f = Framer::new();
    f.push(1, 2);
    assert_eq!(f.next(), None);
    assert!(f.drain().is_empty());
    assert_eq!(f.pending, vec![1, 2]);
}

#[test]
fn packets_last_twenty_milliseconds() {
    let f = audio_frame(vec![1, 2, 3]);
    assert_eq!(&f.data[..], &[1, 2, 3]);
    assert_eq!(f.duration_ns, 20_000_000);
}

#[test]
fn the_default_monitor_is_recorded_on_linux() {
    assert_eq!(
        monitor_args().join(" "),
        "-q pulsesrc device=@DEFAULT_MONITOR@ ! audioconvert ! audioresample \
         ! audio/x-raw,format=F32LE,rate=48000,channels=2 ! fdsink fd=1 sync=false"
    );
}

#[test]
fn utf16_agrees_with_the_standard_library() {
    for s in ["", "abc", "ışık", "a\u{10000}b\u{10ffff}", "\u{d7ff}\u{e000}\u{ffff}"] {
        let units: Vec<u16> = s.encode_utf16().collect();
        assert_eq!(encode(s), units);
        assert_eq!(decode(&units), s);
        let mut terminated = units;
        terminated.push(0);
        assert_eq!(encode_terminated(s), terminated);
    }
}

#[test]
fn lone_surrogates_are_replaced() {
    for units in [
        vec![0xd800],
        vec![0xdc00, 0x61],
        vec![0xd800, 0xd800, 0xdc00],
        vec![0x61, 0xdbff, 0x62],
        vec![0xdc00, 0xd800],
    ] {
        assert_eq!(decode(&units), String::from_utf16_lossy(&units));
    }
}

#[test]
fn names_end_at_the_first_zero() {
    assert_eq!(before_zero(&[65, 66, 0, 67]), vec![65, 66]);
    assert_eq!(before_zero(&[65, 66]), vec![65, 66]);
    assert_eq!(before_zero(&[0]), Vec::<u16>::new());
}

fn end(id: &str, name: &str) -> Endpoint {
    Endpoint { id: encode_terminated(id), name: name.to_string() }
}

#[test]
fn virtual_devices_are_told_by_their_names() {
    assert!(is_virtual_name("CABLE Input (VB-Audio)"));
    assert!(is_virtual_name("Speakers (Steam Streaming Speakers)"));
    assert!(!is_virtual_name("Speakers (Realtek)"));
    let list = vec![end("r", "Realtek"), end("s", "Steam Streaming")];
    assert!(!audio_route::virtual_sink_available(&Some(list)));
    assert!(audio_route::virtual_sink_available(&Some(vec![end("c", "CABLE Input")])));
    assert!(!audio_route::virtual_sink_available(&None));
}

#[test]
fn the_reliable_device_is_preferred() {
    let list = vec![end("s", "Steam Streaming"), end("r", "Realtek"), end("c", "CABLE Input")];
    let plan = engage(&list, &encode_terminated("r"), &None).ok().unwrap();
    assert_eq!(plan.target, 2);
    assert_eq!(find_target(&list), Some(2));
    assert!(!plan.unreliable && !plan.replaced);
    assert_eq!(plan.previous_id, encode_terminated("r"));
    assert_eq!(plan.record, "r");
    let list = vec![end("r", "Realtek"), end("s", "Steam Streaming")];
    let plan = engage(&list, &encode_terminated("r"), &None).ok().unwrap();
    assert_eq!(plan.target, 1);
    assert!(plan.unreliable);
}

#[test]
fn no_virtual_device_is_an_error() {
    assert!(engage(&vec![end("r", "Realtek")], &encode_terminated("r"), &None).is_err());
    assert_eq!(find_target(&vec![end("r", "Realtek")]), None);
}

#[test]
fn a_stuck_default_is_replaced_by_the_recorded_or_first_real_one() {
    let list = vec![end("c", "CABLE Input"), end("r", "Realtek"), end("h", "HDMI")];
    let stuck = encode_terminated("c");
    let plan = engage(&list, &stuck, &Some(" h\n".to_string())).ok().unwrap();
    assert!(plan.replaced);
    assert_eq!(plan.previous_id, encode_terminated("h"));
    let plan = engage(&list, &stuck, &None).ok().unwrap();
    assert_eq!(plan.previous_id, encode_terminated("r"));
    let only = vec![end("c", "CABLE Input")];
    let plan = engage(&only, &stuck, &None).ok().unwrap();
    assert!(!plan.replaced);
    assert_eq!(plan.previous_id, stuck);
    let plan = engage(&list, &encode_terminated("gone"), &Some("h".to_string())).ok().unwrap();
    assert_eq!(plan.previous_id, encode_terminated("gone"));
}

#[test]
fn the_record_gives_back_the_recorded_device() {
    let list = vec![end("c", "CABLE Input"), end("{0.0}.{guid-ş}", "Realtek")];
    let id = encode_terminated("{0.0}.{guid-ş}");
    let plan = engage(&list, &id, &None).ok().unwrap();
    assert_eq!(restore_target(&list, &Some(plan.record)), Some(id.clone()));
    assert_eq!(restore_target(&list, &None), Some(id));
    assert_eq!(restore_target(&vec![end("c", "CABLE Input")], &None), None);
}

fn text(a: &Action) -> String {
    match a {
        Action::Pactl(args) => args.join(" "),
        Action::Restore => "<restore>".to_string(),
        Action::Record(t) => format!("<record {t:?}>"),
        Action::Forget => "<forget>".to_string(),
        Action::Finish => "<finish>".to_string(),
    }
}

fn run_engage(available: bool, replies: &[Option<&str>]) -> (Engage, Vec<String>) {
    run_engage_after(available, None, replies)
}

fn run_engage_after(
    available: bool,
    record: Option<&str>,
    replies: &[Option<&str>],
) -> (Engage, Vec<String>) {
    let mut e = Engage::new(available, &record.map(str::to_string));
    let mut done = Vec::new();
    for r in replies {
        done.push(text(&e.action()));
        e.reply(r.map(str::to_string));
    }
    done.push(text(&e.action()));
    (e, done)
}

const LOAD: &str =
    "load-module module-null-sink sink_name=mirror_tv sink_properties=device.description='PC_Mirror_(TV)'";

#[test]
fn sound_goes_to_the_television() {
    let inputs = "12\tproto\n\n 34 x\n";
    let (e, done) = run_engage(
        true,
        &[Some("speakers"), Some("536870913"), Some(""), Some(inputs), Some(""), None, None],
    );
    assert_eq!(
        done,
        vec![
            "get-default-sink",
            LOAD,
            "set-default-sink mirror_tv",
            "list short sink-inputs",
            "move-sink-input 12 mirror_tv",
            "move-sink-input 34 mirror_tv",
            "<record \"536870913\\nspeakers\\n\">",
            "<finish>",
        ]
    );
    assert_eq!(e.phase, EngagePhase::Done);
    assert_eq!(e.error, None);
    assert_eq!(target_name(), "mirror_tv");
}

#[test]
fn a_failed_switch_removes_the_sink() {
    let (e, done) = run_engage(true, &[Some("speakers"), Some("7"), None, Some("")]);
    assert_eq!(done[3..], ["unload-module 7", "<finish>"]);
    assert_eq!(e.phase, EngagePhase::Failed);
    assert_eq!(e.error, Some(RouteError::NotSwitched));
}

#[test]
fn the_other_failures_of_the_route() {
    assert_eq!(run_engage(false, &[]).0.error, Some(RouteError::NoServer));
    assert_eq!(run_engage(true, &[None]).0.error, Some(RouteError::NoDefault));
    assert_eq!(run_engage(true, &[Some("s"), None]).0.error, Some(RouteError::NoSink));
}

#[test]
fn a_stale_sink_is_cleaned_up_first() {
    let (e, done) = run_engage_after(
        true,
        Some("7\nalsa_out\n"),
        &[Some("mirror_tv"), None, Some("alsa_out"), Some("9"), Some(""), None, None],
    );
    assert_eq!(
        done,
        vec![
            "get-default-sink",
            "<restore>",
            "get-default-sink",
            LOAD,
            "set-default-sink mirror_tv",
            "list short sink-inputs",
            "<record \"9\\nalsa_out\\n\">",
            "<finish>",
        ]
    );
    assert_eq!(e.phase, EngagePhase::Done);
    let r = Restore::from_route(e.previous, e.module);
    assert_eq!(run_restore(r, &[]).1, vec!["set-default-sink alsa_out"]);
}

#[test]
fn the_record_tells_the_old_default_where_the_server_does_not() {
    let previous = |record, told| {
        let (e, _) = run_engage_after(true, record, &[Some("mirror_tv"), None, told, Some("9")]);
        (e.previous, e.error)
    };
    let ok = |name: &str| (name.to_string(), None);
    assert_eq!(previous(Some("7\nalsa_out\n"), Some("mirror_tv")), ok("alsa_out"));
    assert_eq!(previous(Some("7\nalsa_out\n"), None), ok("alsa_out"));
    assert_eq!(previous(Some("7\nalsa_out\n"), Some("usb")), ok("usb"));
    assert_eq!(previous(None, Some("usb")), ok("usb"));
    assert_eq!(previous(None, Some("mirror_tv")), ok("mirror_tv"));
    assert_eq!(previous(Some("7\nmirror_tv\n"), Some("mirror_tv")), ok("mirror_tv"));
    assert_eq!(previous(Some("7\n"), None), ok("mirror_tv"));
    assert_eq!(previous(None, None), ok("mirror_tv"));
    assert_eq!(previous(None, Some("")), ok("mirror_tv"));
}

#[test]
fn without_a_stale_sink_the_record_is_not_asked() {
    let (e, done) =
        run_engage_after(true, Some("7\nalsa_out\n"), &[Some("speakers"), Some("9")]);
    assert_eq!(e.previous, "speakers");
    assert_eq!(done[1], LOAD);
}

fn run_restore(mut r: Restore, replies: &[Option<&str>]) -> (RestorePhase, Vec<String>) {
    let mut done = Vec::new();
    for reply in replies {
        done.push(text(&r.action()));
        r.reply(reply.map(str::to_string));
    }
    done.push(text(&r.action()));
    (r.phase, done)
}

#[test]
fn the_way_back_undoes_the_route() {
    let r = Restore::from_route("speakers".to_string(), "7".to_string());
    let (phase, done) = run_restore(r, &[None, Some("5 a\n6 b"), None, None, None, None]);
    assert_eq!(phase, RestorePhase::Done);
    assert_eq!(
        done,
        vec![
            "set-default-sink speakers",
            "list short sink-inputs",
            "move-sink-input 5 speakers",
            "move-sink-input 6 speakers",
            "unload-module 7",
            "<forget>",
            "<finish>",
        ]
    );
}

#[test]
fn the_record_of_a_route_tells_the_way_back() {
    let (e, done) = run_engage(true, &[Some("speakers"), Some("7"), Some(""), None]);
    assert_eq!(done.last().unwrap(), "<record \"7\\nspeakers\\n\">");
    let record = match e.action() {
        Action::Record(t) => t,
        _ => panic!("the record is written"),
    };
    let r = Restore::from_record(&Some(record));
    assert_eq!((r.previous.as_str(), r.module.as_str()), ("speakers", "7"));
    let (_, done) = run_restore(r, &[None, None, None, None]);
    assert_eq!(
        done,
        vec![
            "set-default-sink speakers",
            "list short sink-inputs",
            "unload-module 7",
            "<forget>",
            "<finish>",
        ]
    );
}

#[test]
fn half_a_record_is_undone_as_far_as_it_goes() {
    let way = |t: &str, n: usize| {
        let none: Vec<Option<&str>> = vec![None; n];
        run_restore(Restore::from_record(&Some(t.to_string())), &none).1
    };
    assert_eq!(way("7\n", 2), vec!["unload-module 7", "<forget>", "<finish>"]);
    assert_eq!(way("", 1), vec!["<forget>", "<finish>"]);
    assert_eq!(
        way("\nspeakers", 3),
        vec!["set-default-sink speakers", "list short sink-inputs", "<forget>", "<finish>"]
    );
}

#[test]
fn without_a_record_stuck_modules_are_searched_for() {
    let modules = "1\tmodule-null-sink\tsink_name=other\n2\tmodule-null-sink\tsink_name=mirror_tv\n\
                   3\tmodule-x\tmirror_tv\n4 module-null-sink mirror_tv2";
    let (phase, done) =
        run_restore(Restore::from_record(&None), &[Some(modules), None, None]);
    assert_eq!(phase, RestorePhase::Done);
    assert_eq!(
        done,
        vec!["list short modules", "unload-module 2", "unload-module 4", "<finish>"]
    );
    let (phase, _) = run_restore(Restore::from_record(&None), &[None]);
    assert_eq!(phase, RestorePhase::Done);
}

#[test]
fn listings_are_read_by_their_first_words() {
    assert_eq!(sink_inputs("  7 a\n\n8\tb"), vec!["7", "8"]);
    assert_eq!(stuck_modules("no such thing"), Vec::<String>::new());
    assert!(audio_route_linux::virtual_sink_available(Some(true)));
    assert!(!audio_route_linux::virtual_sink_available(Some(false)));
    assert!(!audio_route_linux::virtual_sink_available(None));
}
