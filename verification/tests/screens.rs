use mirror_host::capture::{copies, grabbed, not_grabbed, Grab, ACCESS_LOST, WAIT_TIMEOUT};
use mirror_host::convert::{Ring, POOL};
use mirror_host::cursor::{cursor_rect, is_news, locate, CursorPlace};
use mirror_host::encoder::{
    choose_input, codec_settings, drain_output, encoder_next, frame_dur_100ns, pack, sample_frame, CodecSetting,
    DrainStep, EncoderAction, EncoderEvent, EncoderLoop, NEED_MORE_INPUT, STREAM_CHANGE,
};
use mirror_host::engine::{PipelineConfig, Rect};
use mirror_host::focus_follow::{destination, Foreground, CAPTION};
use mirror_host::pipeline::{
    capture_step, due, encode_size, plan, CaptureAction, CaptureEvent, OtherAdapter, Slot,
    SlotStep,
};
use mirror_host::screencast::{
    choose_monitor, list_json, monitor_at, pixel_size, placements, virtual_rect, ChooseError,
    MonitorInfo, RawLogical, RawMode, RawMonitor,
};
use mirror_host::vdd::{
    all_outputs, attach_step, device_path, display_mode, find_output_by_name, is_installed,
    list_length, outputs_json, remove_input, AttachStep, ModeRequest, OutputInfo, RawOutput, VddError,
    ATTACH_POLLS,
};

fn rect(left: i32, top: i32, right: i32, bottom: i32) -> Rect {
    Rect { left, top, right, bottom }
}

#[test]
fn driver_errors() {
    assert_eq!(list_length(None), Err(VddError::NotFound));
    assert_eq!(list_length(Some(1)), Err(VddError::NotFound));
    assert_eq!(list_length(Some(2)), Ok(2));
    assert_eq!(device_path(None), Err(VddError::NoList));
    assert_eq!(device_path(Some(vec![0, 5])), Err(VddError::EmptyPath));
    let path = device_path(Some(vec![5, 6, 0, 7, 0, 0]));
    assert_eq!(path, Ok(vec![5, 6, 0]));
    assert!(is_installed(&path, true));
    assert!(!is_installed(&path, false));
    assert!(!is_installed(&Err(VddError::NotFound), true));
}

#[test]
fn the_number_of_a_monitor_goes_in_two_bytes() {
    let mut expected = [0u8; 32];
    expected[0] = 0x12;
    expected[1] = 0x34;
    assert_eq!(remove_input(0x1234), expected);
    assert_eq!(remove_input(0xff1234), expected);
}

fn raw(name: &str, attached: bool, r: Rect) -> Option<RawOutput> {
    let mut units: Vec<u16> = name.encode_utf16().collect();
    units.extend([0, 77, 0]);
    Some(RawOutput { name: units, attached, rect: r })
}

fn outputs() -> Vec<OutputInfo> {
    all_outputs(&vec![
        vec![
            raw("\\\\.\\DISPLAY1", true, rect(0, 0, 1920, 1080)),
            raw("\\\\.\\DISPLAY2", false, rect(0, 0, 1, 1)),
            None,
            raw("\\\\.\\DISPLAY3", true, rect(1920, 0, 3840, 1080)),
        ],
        vec![raw("\\\\.\\DISPLAY9", true, rect(0, -900, 1440, 0))],
    ])
}

fn brief(o: &OutputInfo) -> (u32, u32, &str, Rect) {
    (o.adapter_index, o.output_index, o.device_name.as_str(), o.rect)
}

#[test]
fn only_outputs_of_the_desktop_are_listed() {
    let list = outputs();
    let all: Vec<_> = list.iter().map(brief).collect();
    assert_eq!(
        all,
        vec![
            (0, 0, "\\\\.\\DISPLAY1", rect(0, 0, 1920, 1080)),
            (0, 3, "\\\\.\\DISPLAY3", rect(1920, 0, 3840, 1080)),
            (1, 0, "\\\\.\\DISPLAY9", rect(0, -900, 1440, 0)),
        ]
    );
}

#[test]
fn at_most_eight_adapters_and_outputs_are_listed() {
    let row = || (0..10).map(|i| raw(&format!("D{i}"), true, rect(0, 0, 1, 1))).collect();
    let list = all_outputs(&(0..10).map(|_| row()).collect());
    assert_eq!(list.len(), 64);
    assert!(list.iter().all(|o| o.adapter_index < 8 && o.output_index < 8));
}

#[test]
fn outputs_are_found_by_name() {
    let list = outputs();
    let found = find_output_by_name(&list, "\\\\.\\DISPLAY3").unwrap();
    assert_eq!(brief(&found), brief(&list[1]));
    assert!(find_output_by_name(&list, "DISPLAY3").is_none());
}

#[test]
fn outputs_are_listed_in_json() {
    assert_eq!(
        outputs_json(&outputs()),
        "[{\"index\":0,\"connector\":\"\\\\\\\\.\\\\DISPLAY1\",\"width\":1920,\"height\":1080,\
         \"primary\":true},{\"index\":3,\"connector\":\"\\\\\\\\.\\\\DISPLAY3\",\"width\":1920,\
         \"height\":1080,\"primary\":false}]"
    );
    assert_eq!(outputs_json(&Vec::new()), "[]");
}

#[test]
fn the_virtual_monitor_is_the_new_output() {
    let list = outputs();
    let before = vec!["\\\\.\\DISPLAY9".to_string(), "\\\\.\\DISPLAY1".to_string()];
    match attach_step(&list, &before, ATTACH_POLLS) {
        AttachStep::Ready(o) => assert_eq!(o.device_name, "\\\\.\\DISPLAY3"),
        _ => panic!("a new output is there"),
    }
    let all: Vec<String> = list.iter().map(|o| o.device_name.clone()).collect();
    assert!(matches!(attach_step(&list, &all, 1), AttachStep::Wait));
    assert!(matches!(attach_step(&list, &all, ATTACH_POLLS - 1), AttachStep::Wait));
    assert!(matches!(attach_step(&list, &all, ATTACH_POLLS), AttachStep::GiveUp));
}

#[test]
fn a_mode_without_frequency_leaves_it_open() {
    let m = |frequency| ModeRequest { width: 1920, height: 1080, frequency };
    assert_eq!(display_mode(1920, 1080, 60), m(Some(60)));
    assert_eq!(display_mode(1920, 1080, 0), m(None));
}

#[test]
fn attempts_to_get_a_frame() {
    assert_eq!(grabbed(5, true), Grab::New);
    assert_eq!(grabbed(0, true), Grab::NoChange);
    assert_eq!(grabbed(5, false), Grab::NoChange);
    assert!(copies(-1, true));
    assert_eq!(not_grabbed(WAIT_TIMEOUT), Ok(Grab::Timeout));
    assert_eq!(not_grabbed(ACCESS_LOST), Ok(Grab::Lost));
    assert_eq!(not_grabbed(5), Err(5));
}

#[test]
fn textures_are_used_in_turn() {
    let mut r = Ring::new();
    let mut used = Vec::new();
    for _ in 0..20 {
        let now = r.turn();
        assert_eq!(r.last(), now);
        used.push(now);
    }
    for (i, u) in used.iter().enumerate() {
        assert_eq!(*u, i % POOL);
    }
}

#[test]
fn encoder_numbers() {
    assert_eq!(pack(1920, 1080), (1920u64 << 32) | 1080);
    assert_eq!(pack(u32::MAX, u32::MAX), u64::MAX);
    assert_eq!(frame_dur_100ns(60), 166_666);
    assert_eq!(frame_dur_100ns(0), 10_000_000);
    assert_eq!(choose_input(&vec![false, true, true]), Some(1));
    assert_eq!(choose_input(&vec![false; 3]), None);
    let mut many = vec![false; 64];
    many.push(true);
    assert_eq!(choose_input(&many), None);
}

#[test]
fn the_encoder_is_set_up_for_little_delay() {
    assert_eq!(
        codec_settings(12_000_000, 240),
        vec![
            (CodecSetting::LowLatencyMode, 1),
            (CodecSetting::CommonLowLatency, 1),
            (CodecSetting::RateControl, 0),
            (CodecSetting::MeanBitRate, 12_000_000),
            (CodecSetting::GopSize, 240),
            (CodecSetting::BPictureCount, 0),
            (CodecSetting::QualityVsSpeed, 33),
        ]
    );
}

#[test]
fn encoder_events() {
    for stop in [false, true] {
        let top = if stop { EncoderAction::EndWell } else { EncoderAction::GetEvent };
        for (event, action) in [
            (EncoderEvent::Event(601), EncoderAction::AskFrame),
            (EncoderEvent::Event(602), EncoderAction::Drain),
            (EncoderEvent::Event(600), top),
            (EncoderEvent::NoFrame, EncoderAction::EndWell),
            (EncoderEvent::Submitted, top),
            (EncoderEvent::Output(Ok(true)), EncoderAction::HandOn),
            (EncoderEvent::Output(Ok(false)), top),
            (EncoderEvent::Output(Err(STREAM_CHANGE)), EncoderAction::Renegotiate),
            (EncoderEvent::Output(Err(NEED_MORE_INPUT)), top),
            (EncoderEvent::Output(Err(7)), EncoderAction::EndError),
            (EncoderEvent::Renegotiated, EncoderAction::Drain),
            (EncoderEvent::HandedOn, top),
            (EncoderEvent::Failed, EncoderAction::EndError),
        ] {
            assert_eq!(encoder_next(stop, event), action);
        }
    }
    assert_eq!(drain_output(Ok(true)), DrainStep::Frame);
    assert_eq!(drain_output(Ok(false)), DrainStep::Nothing);
    assert_eq!(drain_output(Err(STREAM_CHANGE)), DrainStep::Renegotiate);
    assert_eq!(drain_output(Err(NEED_MORE_INPUT)), DrainStep::Nothing);
    assert_eq!(drain_output(Err(7)), DrainStep::Fail(7));
}

/// Drives an encoder that sends `events` and gives a sample for each output that is
/// asked for. There are `frames` frames. Says how many were asked for and handed on,
/// and how it ended.
fn drive(events: &[Option<u32>], frames: usize, stop_at: usize) -> (usize, usize, EncoderAction) {
    let (mut seen, mut asked, mut handed) = (0, 0, 0);
    let mut machine = EncoderLoop::new(stop_at == 0);
    loop {
        let event = match machine.action {
            EncoderAction::GetEvent => {
                seen += 1;
                match events[seen - 1] {
                    Some(n) => EncoderEvent::Event(n),
                    None => EncoderEvent::Failed,
                }
            }
            EncoderAction::AskFrame => {
                asked += 1;
                if asked > frames { EncoderEvent::NoFrame } else { EncoderEvent::Submitted }
            }
            EncoderAction::Drain => EncoderEvent::Output(Ok(true)),
            EncoderAction::Renegotiate => unreachable!(),
            EncoderAction::HandOn => {
                handed += 1;
                EncoderEvent::HandedOn
            }
            EncoderAction::EndWell | EncoderAction::EndError => return (asked, handed, machine.action),
        };
        machine.advance(seen >= stop_at, event);
    }
}

#[test]
fn the_encoder_is_driven_until_there_is_no_frame_or_a_stop() {
    let events = [Some(601), Some(5), Some(602), Some(601), Some(602), Some(602), Some(601)];
    assert_eq!(drive(&events, 2, 100), (3, 3, EncoderAction::EndWell));
    assert_eq!(drive(&events, 9, 5), (2, 2, EncoderAction::EndWell));
    assert_eq!(drive(&events, 9, 0), (0, 0, EncoderAction::EndWell));
    assert_eq!(drive(&[Some(601), None, Some(601)], 9, 100), (1, 0, EncoderAction::EndError));
}

#[test]
fn an_encoder_loop_that_is_over_stays_over() {
    for last in [EncoderEvent::Failed, EncoderEvent::NoFrame] {
        let mut machine = EncoderLoop::new(false);
        machine.advance(false, last);
        let end = machine.action;
        for event in [
            EncoderEvent::Event(601),
            EncoderEvent::Event(602),
            EncoderEvent::Output(Ok(true)),
            EncoderEvent::NoFrame,
            EncoderEvent::Failed,
        ] {
            machine.advance(false, event);
            assert_eq!(machine.action, end);
        }
    }
}

#[test]
fn samples_become_frames() {
    let f = sample_frame(&[1, 2], Some(1), Some(99), 60);
    assert_eq!((&f.data[..], f.is_keyframe, f.duration_ns, f.ts_100ns), (&[1u8, 2][..], true, 16_666_600, 99));
    let f = sample_frame(&[], Some(2), None, 0);
    assert_eq!((f.is_keyframe, f.duration_ns, f.ts_100ns), (false, 1_000_000_000, 0));
    assert!(!sample_frame(&[], None, None, 1).is_keyframe);
}

fn cfg(fps: u32, adapter_index: u32) -> PipelineConfig {
    PipelineConfig {
        fps,
        bitrate_bps: 1,
        gop_frames: 1,
        output_index: 0,
        adapter_index,
        capture_size: None,
    }
}

#[test]
fn pipeline_timing() {
    let t = plan(&cfg(60, 0)).unwrap();
    assert_eq!((t.interval_us, t.timeout_ms), (16_666, 16));
    let t = plan(&cfg(0, 0)).unwrap();
    assert_eq!((t.interval_us, t.timeout_ms), (1_000_000, 1000));
    assert_eq!(plan(&cfg(60, 1)), Err(OtherAdapter));
    assert_eq!(encode_size(1367, 768), (1366, 768));
    assert_eq!(encode_size(u32::MAX, 1), (u32::MAX - 1, 0));
    assert!(due(5, 5) && !due(4, 5));
}

#[test]
fn capture_steps() {
    let go = CaptureAction::Grab;
    let step = capture_step;
    assert_eq!(step(true, CaptureEvent::Grabbed(Grab::New)), CaptureAction::Convert);
    assert_eq!(step(true, CaptureEvent::Converted), CaptureAction::Publish);
    assert_eq!(step(false, CaptureEvent::Published), go);
    assert_eq!(step(true, CaptureEvent::Published), CaptureAction::Stop);
    assert_eq!(step(false, CaptureEvent::Grabbed(Grab::NoChange)), go);
    assert_eq!(step(false, CaptureEvent::Grabbed(Grab::Timeout)), go);
    assert_eq!(step(true, CaptureEvent::Grabbed(Grab::Timeout)), CaptureAction::Stop);
    assert_eq!(step(false, CaptureEvent::Grabbed(Grab::Lost)), CaptureAction::Reopen);
    assert_eq!(step(false, CaptureEvent::ReopenFailed), CaptureAction::Reopen);
    assert_eq!(step(true, CaptureEvent::ReopenFailed), CaptureAction::Stop);
    assert_eq!(step(false, CaptureEvent::Reopened), go);
    assert_eq!(step(false, CaptureEvent::GrabFailed), CaptureAction::Stop);
    assert_eq!(step(false, CaptureEvent::ConvertFailed), CaptureAction::Stop);
}

#[test]
fn the_newest_frame_wins() {
    let mut s = Slot::new();
    assert!(matches!(s.next(false), SlotStep::Wait));
    s.put(1);
    s.put(2);
    assert!(matches!(s.next(true), SlotStep::Stop));
    assert!(matches!(s.next(false), SlotStep::Frame(2)));
    assert!(matches!(s.next(false), SlotStep::Wait));
}

#[test]
fn the_cursor_is_placed_on_the_screen() {
    let r = rect(100, 50, 300, 150);
    let p = |x, y, visible| CursorPlace { x, y, width: 200, height: 100, visible };
    assert_eq!(locate(r, 150, 60, true), p(50, 10, true));
    assert_eq!(locate(r, 150, 60, false), p(50, 10, false));
    assert_eq!(locate(r, 100, 50, true), p(0, 0, true));
    assert_eq!(locate(r, 299, 149, true), p(199, 99, true));
    assert_eq!(locate(r, 300, 60, true), p(200, 10, false));
    assert_eq!(locate(r, 150, 150, true), p(50, 100, false));
    assert!(!locate(rect(0, 0, 1920, 1080), 1920, 500, true).visible);
    assert_eq!(locate(r, 301, 60, true), p(200, 10, false));
    assert_eq!(locate(r, 0, 400, true), p(0, 100, false));
    assert!(is_news(None, p(1, 1, true)));
    assert!(is_news(Some(p(1, 2, true)), p(1, 1, true)));
    assert!(!is_news(Some(p(1, 1, true)), p(1, 1, true)));
    assert_eq!(cursor_rect(Some(r), 5, 6), r);
    assert_eq!(cursor_rect(None, 5, 6), rect(0, 0, 5, 6));
}

#[test]
fn integer_places_give_the_float_state() {
    for (x, y) in [(0, 0), (99, 50), (100, 50), (200, 99), (300, 150), (301, 151), (-5, 149)] {
        let r = rect(100, 50, 300, 150);
        let fx = (x - r.left) as f32 / 200.0;
        let fy = (y - r.top) as f32 / 100.0;
        let inside = (0.0..1.0).contains(&fx) && (0.0..1.0).contains(&fy);
        let p = locate(r, x, y, true);
        assert_eq!(p.visible, inside);
        assert_eq!(p.x as f32 / p.width as f32, fx.clamp(0.0, 1.0));
        assert_eq!(p.y as f32 / p.height as f32, fy.clamp(0.0, 1.0));
    }
}

fn window() -> Foreground {
    Foreground {
        object: 0,
        valid: true,
        visible: true,
        style: CAPTION | 0x10000000,
        rect: Some(rect(-5, 10, 2, 21)),
        same_monitor: Some(false),
    }
}

#[test]
fn the_cursor_follows_the_focus() {
    assert_eq!(destination(&window()), Some((-1, 15)));
    assert_eq!(destination(&Foreground { object: 1, ..window() }), None);
    assert_eq!(destination(&Foreground { valid: false, ..window() }), None);
    assert_eq!(destination(&Foreground { visible: false, ..window() }), None);
    assert_eq!(destination(&Foreground { style: 0x00800000, ..window() }), None);
    assert_eq!(destination(&Foreground { rect: None, ..window() }), None);
    assert_eq!(destination(&Foreground { same_monitor: Some(true), ..window() }), None);
    assert_eq!(destination(&Foreground { same_monitor: None, ..window() }), None);
}

#[test]
fn the_cursor_ends_up_inside_the_window() {
    for (l, r) in [(-7, -4), (-3, 2), (0, 1), (5, 5), (1920, 3841)] {
        let (x, y) = destination(&Foreground { rect: Some(rect(l, l, r, r)), ..window() }).unwrap();
        assert!(l <= x && x <= r && x == y && x == (l + r) / 2);
    }
}

fn raw_monitors() -> Vec<RawMonitor> {
    let mode = |width, height, current| RawMode { width, height, current };
    vec![
        RawMonitor {
            connector: "eDP-1".to_string(),
            modes: vec![mode(1280, 720, false), mode(2560, 1600, true), mode(1, 1, true)],
        },
        RawMonitor { connector: "HDMI-1".to_string(), modes: vec![mode(3840, 2160, false)] },
    ]
}

#[test]
fn monitor_sizes_come_from_the_current_mode() {
    let m = raw_monitors();
    assert_eq!(pixel_size(&m, "eDP-1"), (2560, 1600));
    assert_eq!(pixel_size(&m, "HDMI-1"), (1920, 1080));
    assert_eq!(pixel_size(&m, "DP-9"), (1920, 1080));
}

fn monitors() -> Vec<MonitorInfo> {
    let logicals = vec![
        RawLogical {
            x: 0,
            y: 0,
            primary: false,
            connectors: vec!["HDMI-1".to_string(), "DP-9".to_string()],
        },
        RawLogical { x: 1920, y: -20, primary: true, connectors: vec!["eDP-1".to_string()] },
    ];
    placements(&raw_monitors(), &logicals)
        .into_iter()
        .map(|p| {
            let scale = if p.logical == 1 { 2 } else { 1 };
            let (w, h) = (p.width / scale, p.height / scale);
            p.scaled(w, h)
        })
        .collect()
}

#[test]
fn monitors_are_placed_and_scaled() {
    let m = monitors();
    let all: Vec<_> = m.iter().map(|m| (m.connector.as_str(), m.rect, m.primary)).collect();
    assert_eq!(
        all,
        vec![
            ("HDMI-1", rect(0, 0, 1920, 1080), false),
            ("DP-9", rect(0, 0, 1920, 1080), false),
            ("eDP-1", rect(1920, -20, 3200, 780), true),
        ]
    );
    assert_eq!((m[2].width(), m[2].height()), (1280, 800));
}

#[test]
fn a_monitor_is_chosen_by_plug_or_as_the_primary_one() {
    let m = monitors();
    assert_eq!(choose_monitor(&m, &Some("DP-9".to_string())).ok(), Some(1));
    assert_eq!(choose_monitor(&m, &None).ok(), Some(2));
    match choose_monitor(&m, &Some("VGA-1".to_string())) {
        Err(ChooseError::NoSuchPlug(list)) => assert_eq!(list, "HDMI-1, DP-9, eDP-1"),
        _ => panic!("there is no such plug"),
    }
    assert!(matches!(choose_monitor(&Vec::new(), &None), Err(ChooseError::NoMonitor)));
    let mut none_primary = monitors();
    none_primary[2].primary = false;
    assert_eq!(choose_monitor(&none_primary, &None).ok(), Some(0));
}

fn plugs(primary: &[bool]) -> Vec<MonitorInfo> {
    primary
        .iter()
        .map(|&primary| MonitorInfo {
            connector: "X".to_string(),
            rect: rect(0, 0, 10, 10),
            primary,
        })
        .collect()
}

#[test]
fn every_monitor_has_one_number() {
    for m in [plugs(&[false, true, false]), plugs(&[true, false, true]), plugs(&[false; 3])] {
        let mut places: Vec<usize> = (0..3).map(|n| monitor_at(&m, n).unwrap()).collect();
        places.sort();
        assert_eq!(places, vec![0, 1, 2]);
    }
}

#[test]
fn a_monitor_is_chosen_by_number() {
    let m = monitors();
    assert_eq!(monitor_at(&m, 0), Ok(2));
    assert_eq!(monitor_at(&m, 1), Ok(0));
    assert_eq!(monitor_at(&m, 2), Ok(1));
    assert_eq!(monitor_at(&m, 3), Err("0=eDP-1, 1=HDMI-1, 2=DP-9".to_string()));
    assert_eq!(monitor_at(&plugs(&[false, true]), 0), Ok(1));
    assert_eq!(monitor_at(&plugs(&[false, true, true]), 2), Ok(2));
    assert_eq!(monitor_at(&plugs(&[false, false]), 0), Ok(0));
    assert_eq!(monitor_at(&plugs(&[false, false]), 1), Ok(1));
    assert_eq!(monitor_at(&Vec::new(), 0), Err(String::new()));
    assert_eq!(virtual_rect(1920, 1080), rect(0, 0, 1920, 1080));
}

#[test]
fn monitors_are_listed_in_json() {
    let m = monitors();
    assert_eq!(
        list_json(&m[2..].iter().map(|m| MonitorInfo {
            connector: m.connector.clone(),
            rect: m.rect,
            primary: m.primary,
        }).collect()),
        "[{\"index\":0,\"connector\":\"eDP-1\",\"width\":1280,\"height\":800,\"primary\":true}]"
    );
    let v: serde_json::Value = serde_json::from_str(&list_json(&m)).unwrap();
    assert_eq!(v.as_array().unwrap().len(), 3);
    assert_eq!(v[0]["connector"], "eDP-1");
    assert_eq!(v[0]["primary"], true);
    assert_eq!(v[1]["connector"], "HDMI-1");
    assert_eq!(v[2]["connector"], "DP-9");
    assert_eq!(v[2]["index"], 2);
    assert_eq!(list_json(&Vec::new()), "[]");
}
