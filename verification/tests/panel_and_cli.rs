use mirror_host::cli::{
    extended_config, is_wayland, linux_plan, needs_ffmpeg, opens_panel, parse_mode,
    pipeline_config, routes_audio, sized_config, windows_engine, x11_display, LinuxPlan, ModeError,
    PlanError, Request, WindowsEngine,
};
use mirror_host::engine::Rect;
use mirror_host::gui::{
    current_label, driver_missing, installation_ended, list_monitors, list_plugs, mode_argument, mode_label,
    mode_pixels, network_hint, shutdown_step, sink_missing, source_pixels, stream_args, tier_label,
    tiers_for, watch_url, GuiConfig, Log, PollAction, ShutdownStep, Stream, LOG_LINES, MODE_COUNT,
    STOP_LIMIT_MS,
};
use mirror_host::screencast::MonitorInfo;
use mirror_host::vdd::OutputInfo;

#[test]
fn modes_are_read() {
    assert_eq!(parse_mode("3840x2160@60"), Ok((3840, 2160, 60)));
    assert_eq!(parse_mode("2560x1440"), Ok((2560, 1440, 60)));
    assert_eq!(parse_mode(" 1 x +2 @ 0 "), Ok((1, 2, 0)));
    assert_eq!(parse_mode("1920"), Err(ModeError::Form));
    assert_eq!(parse_mode("1920@60x1080"), Err(ModeError::Form));
    assert_eq!(parse_mode("1920x1080@"), Err(ModeError::Number));
    assert_eq!(parse_mode("ax1080"), Err(ModeError::Number));
    assert_eq!(parse_mode("1x2x3"), Err(ModeError::Number));
    assert_eq!(parse_mode("4294967296x1"), Err(ModeError::Number));
    assert_eq!(parse_mode("4294967295x1@60"), Ok((u32::MAX, 1, 60)));
    assert_eq!(parse_mode("-1x1"), Err(ModeError::Number));
    assert_eq!(parse_mode(""), Err(ModeError::Form));
}

#[test]
fn modes_that_are_written_are_read_back() {
    for (w, h, hz) in [(0, 0, 0), (10, 100, 60), (1920, 1080, 144), (u32::MAX, 7, u32::MAX)] {
        assert_eq!(parse_mode(&format!("{w}x{h}@{hz}")), Ok((w, h, hz)));
        assert_eq!(parse_mode(&format!("{w}x{h}")), Ok((w, h, 60)));
    }
}

fn argv(list: &[&str]) -> Vec<String> {
    list.iter().map(|s| s.to_string()).collect()
}

#[test]
fn the_panel_opens_without_arguments_or_on_demand() {
    assert!(opens_panel(&argv(&[])));
    assert!(opens_panel(&argv(&["host"])));
    assert!(opens_panel(&argv(&["host", "--fps", "30", "--gui"])));
    assert!(!opens_panel(&argv(&["host", "--fps", "30"])));
    assert!(!opens_panel(&argv(&["host", "--guide"])));
}

#[test]
fn configuration_of_the_engine() {
    let c = pipeline_config(60, 12, 4, 2);
    assert_eq!((c.fps, c.bitrate_bps, c.gop_frames, c.output_index), (60, 12_000_000, 240, 2));
    assert_eq!((c.adapter_index, c.capture_size), (0, None));
    let c = pipeline_config(u32::MAX, 5000, 2, 0);
    assert_eq!((c.bitrate_bps, c.gop_frames), (u32::MAX, u32::MAX));
    let out = OutputInfo {
        adapter_index: 3,
        output_index: 1,
        device_name: "d".to_string(),
        rect: Rect { left: 10, top: 0, right: 2570, bottom: 1440 },
    };
    let e = extended_config(&c, &out);
    assert_eq!((e.adapter_index, e.output_index, e.capture_size), (3, 1, Some((2560, 1440))));
    assert_eq!(e.fps, u32::MAX);
    assert_eq!(sized_config(&c, 7, 8).capture_size, Some((7, 8)));
}

fn req(engine: &str, capture: &str, extend: bool, mode: Option<&str>) -> Request {
    Request {
        engine: engine.to_string(),
        capture: capture.to_string(),
        extend,
        mode: mode.map(str::to_string),
        output: 1,
    }
}

#[test]
fn plans_on_linux() {
    let plan = |e, c, x, m, w| linux_plan(&req(e, c, x, m), w);
    assert_eq!(plan("auto", "auto", false, None, true), Ok(LinuxPlan::Mirror { output: 1 }));
    assert_eq!(plan("ffmpeg", "auto", false, Some("bad"), true), Ok(LinuxPlan::Mirror { output: 1 }));
    assert_eq!(plan("auto", "auto", false, None, false), Ok(LinuxPlan::X11));
    assert_eq!(plan("auto", "x11", false, Some("bad"), true), Ok(LinuxPlan::X11));
    assert_eq!(plan("auto", "gnome", true, None, false), Ok(LinuxPlan::Virtual { width: 1920, height: 1080 }));
    assert_eq!(plan("auto", "auto", true, Some("2560x1440@75"), true), Ok(LinuxPlan::Virtual { width: 2560, height: 1440 }));
    assert_eq!(plan("auto", "auto", true, Some("bad"), true), Err(PlanError::Mode(ModeError::Form)));
    assert_eq!(plan("auto", "auto", true, Some("1xa"), true), Err(PlanError::Mode(ModeError::Number)));
    assert_eq!(plan("auto", "x11", true, None, true), Err(PlanError::X11Extend));
    assert_eq!(plan("auto", "kde", false, None, true), Err(PlanError::UnknownCapture));
    assert_eq!(plan("mf", "kde", false, None, true), Err(PlanError::WindowsEngine));
}

#[test]
fn engines_on_windows() {
    assert_eq!(windows_engine("mf", true, true), Ok(WindowsEngine::MediaFoundation));
    assert_eq!(windows_engine("ffmpeg", true, false), Ok(WindowsEngine::Ffmpeg));
    assert_eq!(windows_engine("ffmpeg", false, false), Err(PlanError::NoFfmpeg));
    assert_eq!(windows_engine("auto", true, true), Ok(WindowsEngine::Ffmpeg));
    assert_eq!(windows_engine("auto", false, true), Err(PlanError::ExtendNeedsFfmpeg));
    assert_eq!(windows_engine("auto", false, false), Ok(WindowsEngine::Fallback));
    assert!(needs_ffmpeg("auto") && !needs_ffmpeg("mf"));
}

#[test]
fn environment_of_a_session() {
    let s = |t: &str| Some(t.to_string());
    assert!(is_wayland(&s("wayland-0"), &None));
    assert!(is_wayland(&None, &s("wayland")));
    assert!(!is_wayland(&None, &s("x11")));
    assert!(!is_wayland(&None, &None));
    assert_eq!(x11_display(s(":5")), ":5");
    assert_eq!(x11_display(None), ":0");
    assert!(routes_audio(true, false) && !routes_audio(true, true) && !routes_audio(false, false));
}

#[test]
fn ready_made_bit_rates_are_those_of_float_rounding() {
    for (pixels, base) in [
        (3840 * 2160, [20u32, 35, 50]),
        (2560 * 1440, [12, 25, 40]),
        (2560 * 1440 - 1, [8, 15, 25]),
        (0, [8, 15, 25]),
    ] {
        for fps in [30u32, 31, 60] {
            let scale = if fps <= 30 { 0.65f32 } else { 1.0 };
            let expected = base.map(|b| ((b as f32 * scale).round() as u32).max(4));
            assert_eq!(tiers_for(pixels, fps).map(|t| t.mbps), expected);
        }
    }
    let t = tiers_for(3840 * 2160, 30);
    assert_eq!([t[0].mbps, t[1].mbps, t[2].mbps], [13, 23, 33]);
    assert_eq!([t[0].name, t[1].name, t[2].name], ["Tasarruf", "Dengeli", "Kalite"]);
    assert_eq!(tier_label(&t[1]), "Dengeli · 23 Mb/s");
}

#[test]
fn ready_made_bit_rates_rise() {
    let rates = |p, f| tiers_for(p, f).map(|t| t.mbps);
    let (mut low, mut last) = (rates(0, 30), rates(0, 30));
    for (p, f) in [(1, 30), (2560 * 1440, 30), (2560 * 1440, 60), (3840 * 2160, 60)] {
        let r = rates(p, f);
        assert!(4 <= r[0] && r[0] < r[1] && r[1] < r[2] && r[2] <= 60);
        assert!((0..3).all(|i| last[i] <= r[i] && low[i] <= r[i]));
        low = last;
        last = r;
    }
}

#[test]
fn display_modes_of_the_panel() {
    assert_eq!(mode_label(0), "Sürücü varsayılanı (1080p)");
    assert_eq!(mode_label(1), "1080p — 1920x1080@60");
    assert_eq!(mode_label(9), "4K — 3840x2160@60");
    assert_eq!(mode_argument(0), None);
    for i in 1..MODE_COUNT {
        let (w, h, hz) = parse_mode(mode_argument(i).unwrap()).unwrap();
        assert_eq!((w as u64 * h as u64, hz), (mode_pixels(i), 60));
    }
    assert_eq!(mode_pixels(0), 1920 * 1080);
    assert_eq!(mode_argument(7), Some("3840x2160@60"));
}

fn output(adapter_index: u32, output_index: u32, rect: Rect) -> OutputInfo {
    OutputInfo { adapter_index, output_index, device_name: String::new(), rect }
}

#[test]
fn monitors_of_the_main_adapter_are_offered() {
    let list = list_monitors(&vec![
        output(0, 0, Rect { left: 0, top: 0, right: 1920, bottom: 1080 }),
        output(1, u32::MAX, Rect { left: i32::MIN, top: 0, right: i32::MAX, bottom: 1 }),
        output(0, 2, Rect { left: 1920, top: 0, right: 1910, bottom: 1440 }),
    ]);
    let all: Vec<_> = list.iter().map(|m| (m.label.as_str(), m.output_index, m.pixels)).collect();
    assert_eq!(
        all,
        vec![
            ("Monitör 1 — 1920x1080 (birincil)", 0, 2073600),
            ("Monitör 3 — -10x1440", 2, 1440),
        ]
    );
    let cfg = GuiConfig { extend: false, output_index: 2, ..GuiConfig::default() };
    assert_eq!(source_pixels(&cfg, &list), 1440);
    assert_eq!(current_label(&cfg, &list), "Monitör 3 — -10x1440");
    let cfg = GuiConfig { output_index: 5, ..cfg };
    assert_eq!(source_pixels(&cfg, &list), 2073600);
    assert_eq!(current_label(&cfg, &list), "Monitör seç");
    let cfg = GuiConfig { extend: true, mode_index: 2, ..cfg };
    assert_eq!(source_pixels(&cfg, &list), 3686400);
}

#[test]
fn plugs_are_offered_under_their_numbers() {
    let m = |connector: &str, left, primary| MonitorInfo {
        connector: connector.to_string(),
        rect: Rect { left, top: 0, right: left + 100, bottom: 50 },
        primary,
    };
    let list = list_plugs(&vec![m("a", 0, false), m("b", 100, true)]);
    assert_eq!(list[0].label, "Monitör 1 — 100x50 (birincil)");
    assert_eq!(list[1].label, "Monitör 2 — 100x50");
    assert_eq!((list[0].output_index, list[0].pixels), (0, 5000));
    assert_eq!((list[1].output_index, list[1].pixels), (1, 5000));
}

#[test]
fn settings_become_arguments() {
    let cfg = GuiConfig::default();
    assert_eq!(
        stream_args(&cfg).join(" "),
        "--managed --bind 0.0.0.0:47000 --bitrate 12 --fps 60 --extend --mode 1920x1080@60 \
         --tv-audio --cursor-follow"
    );
    let cfg = GuiConfig { mode_index: 0, audio: false, cursor_follow: false, ..cfg };
    assert_eq!(
        stream_args(&cfg).join(" "),
        "--managed --bind 0.0.0.0:47000 --bitrate 12 --fps 60 --extend --no-audio"
    );
    let cfg = GuiConfig {
        extend: false,
        output_index: 3,
        audio: true,
        tv_audio: false,
        port: 1024,
        ..cfg
    };
    assert_eq!(
        stream_args(&cfg).join(" "),
        "--managed --bind 0.0.0.0:1024 --bitrate 12 --fps 60 --output 3"
    );
}

#[test]
fn the_log_keeps_the_newest_lines() {
    let mut log = Log::new();
    let all: Vec<String> = (0..LOG_LINES + 30).map(|i| format!("line {i}")).collect();
    for l in &all {
        log.push(l.clone());
    }
    let shown: Vec<String> = log.lines.iter().cloned().collect();
    assert_eq!(shown, all[30..]);
}

#[test]
fn a_stream_is_stopped_gently_and_then_killed() {
    let mut s = Stream::new();
    assert_eq!(s.status(), "● Hazır");
    assert_eq!(s.poll(true, 0), PollAction::Nothing);
    s.started();
    assert_eq!(s.status(), "● Yayında");
    assert_eq!(s.poll(false, STOP_LIMIT_MS + 1), PollAction::Nothing);
    s.request_stop();
    assert_eq!(s.status(), "● Durduruluyor…");
    assert_eq!(s.poll(false, STOP_LIMIT_MS), PollAction::Nothing);
    assert_eq!(s.poll(false, STOP_LIMIT_MS + 1), PollAction::Kill);
    assert!(s.running && !s.stopping);
    assert_eq!(s.poll(true, 0), PollAction::Closed);
    assert!(!s.running && !s.stopping);
    assert_eq!(shutdown_step(0, false), ShutdownStep::Wait);
    assert_eq!(shutdown_step(29, true), ShutdownStep::Gone);
    assert_eq!(shutdown_step(30, true), ShutdownStep::Kill);
}

#[test]
fn hints_of_the_panel() {
    assert_eq!(network_hint(12), "Ağda ~18 Mb/s boş bant olmalı");
    assert_eq!(network_hint(35), "Ağda ~53 Mb/s boş bant olmalı — bu hızda TV'de Ethernet önerilir");
    for b in 4..=60u32 {
        let expected = (b as f32 * 1.5).round() as u32;
        assert!(network_hint(b).starts_with(&format!("Ağda ~{expected} Mb/s")));
    }
    assert_eq!(watch_url("192.168.1.77", 47000), "http://192.168.1.77:47000/");
    let cfg = GuiConfig::default();
    assert!(sink_missing(&cfg, false) && !sink_missing(&cfg, true));
    assert!(!sink_missing(&GuiConfig { tv_audio: false, ..cfg }, false));
    assert!(driver_missing(&cfg, false) && !driver_missing(&cfg, true));
    assert!(!driver_missing(&GuiConfig { extend: false, ..cfg }, false));
    assert!(installation_ended(true, false) && !installation_ended(false, false));
}
