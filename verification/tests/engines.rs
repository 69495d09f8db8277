use mirror_host::engine::{
    probe_alive, watchdog, ChildState, PipelineConfig, ProbeStep, Rect, WatchAction, PROBE_POLLS,
};
use mirror_host::ffmpeg_engine;
use mirror_host::ffmpeg_engine::{Candidate, Package};
use mirror_host::gst_engine;
use mirror_host::gst_engine::Source;
use mirror_host::selection::{lite_config, Phase, Selection};

fn cfg() -> PipelineConfig {
    PipelineConfig {
        fps: 60,
        bitrate_bps: 12_000_000,
        gop_frames: 240,
        output_index: 1,
        adapter_index: 0,
        capture_size: None,
    }
}

#[test]
fn probe_steps() {
    assert_eq!(probe_alive(1, 1, true), ProbeStep::Alive);
    assert_eq!(probe_alive(1, 0, true), ProbeStep::Dead);
    assert_eq!(probe_alive(1, 0, false), ProbeStep::Wait);
    assert_eq!(probe_alive(PROBE_POLLS - 1, 0, false), ProbeStep::Wait);
    assert_eq!(probe_alive(PROBE_POLLS, 0, false), ProbeStep::Settle);
}

fn probe(frames: &dyn Fn(u32) -> u64, dead: &dyn Fn(u32) -> bool) -> bool {
    let mut poll = 1;
    loop {
        match probe_alive(poll, frames(poll), dead(poll)) {
            ProbeStep::Alive => return true,
            ProbeStep::Dead => return false,
            ProbeStep::Settle => return !dead(poll + 1),
            ProbeStep::Wait => poll += 1,
        }
    }
}

#[test]
fn a_silent_encoder_that_lives_passes() {
    assert!(probe(&|_| 0, &|_| false));
}

#[test]
fn an_encoder_that_dies_early_does_not_pass() {
    assert!(!probe(&|_| 0, &|k| k >= 4));
    assert!(!probe(&|_| 0, &|k| k >= 13));
    assert!(probe(&|k| if k >= 3 { 1 } else { 0 }, &|k| k >= 4));
}

#[test]
fn watchdog_actions() {
    assert_eq!(watchdog(true, false, None), WatchAction::Kill);
    assert_eq!(watchdog(false, true, Some(ChildState::Exited)), WatchAction::Kill);
    assert_eq!(watchdog(false, false, None), WatchAction::Poll);
    assert_eq!(watchdog(false, false, Some(ChildState::Exited)), WatchAction::MarkDead);
    assert_eq!(watchdog(false, false, Some(ChildState::Running)), WatchAction::Sleep);
    assert_eq!(watchdog(false, false, Some(ChildState::Unknown)), WatchAction::Leave);
}

/// Runs a selection; `ok` answers each phase. Gives the end and the aborts.
fn select(count: usize, height: u32, ok: &dyn Fn(Phase) -> bool) -> (Phase, Vec<Phase>) {
    let mut s = Selection::new(count, height);
    let mut aborted = Vec::new();
    loop {
        match s.phase {
            Phase::Done { .. } | Phase::Failed => return (s.phase, aborted),
            p => {
                if s.advance(ok(p)) {
                    aborted.push(p);
                }
            }
        }
    }
}

#[test]
fn the_first_working_encoder_is_chosen() {
    let (end, aborted) = select(4, 1080, &|p| match p {
        Phase::Start { encoder } => encoder != 0,
        Phase::Probe { encoder } => encoder >= 2,
        _ => panic!("no light stream is wanted"),
    });
    assert_eq!(end, Phase::Done { encoder: 2, lite: false });
    assert_eq!(aborted, vec![Phase::Probe { encoder: 1 }]);
}

#[test]
fn a_large_screen_gets_a_light_stream_too() {
    let (end, aborted) = select(4, 2160, &|_| true);
    assert_eq!(end, Phase::Done { encoder: 0, lite: true });
    assert!(aborted.is_empty());
    let (end, aborted) = select(4, 1200, &|p| !matches!(p, Phase::ProbeLite { .. }));
    assert_eq!(end, Phase::Done { encoder: 0, lite: false });
    assert_eq!(aborted, vec![Phase::ProbeLite { encoder: 0 }]);
    let (end, _) = select(4, 1081, &|p| !matches!(p, Phase::StartLite { .. }));
    assert_eq!(end, Phase::Done { encoder: 0, lite: false });
    let (end, _) = select(4, 1200, &|_| true);
    assert_eq!(end, Phase::Done { encoder: 0, lite: true });
    let (end, _) = select(4, 1081, &|_| true);
    assert_eq!(end, Phase::Done { encoder: 0, lite: true });
    let (end, _) = select(4, 1080, &|_| true);
    assert_eq!(end, Phase::Done { encoder: 0, lite: false });
}

#[test]
fn selection_fails_without_a_working_encoder() {
    let (end, aborted) = select(2, 1080, &|p| matches!(p, Phase::Start { .. }));
    assert_eq!(end, Phase::Failed);
    assert_eq!(aborted, vec![Phase::Probe { encoder: 0 }, Phase::Probe { encoder: 1 }]);
    assert_eq!(select(0, 1080, &|_| true).0, Phase::Failed);
}

#[test]
fn light_stream_bit_rates() {
    assert_eq!(lite_config(&cfg()).bitrate_bps, 12_000_000);
    let mut slow = cfg();
    slow.fps = 59;
    let lite = lite_config(&slow);
    assert_eq!(lite.bitrate_bps, 8_000_000);
    assert_eq!((lite.fps, lite.output_index, lite.gop_frames), (59, 1, 240));
}

#[test]
fn gst_arguments_for_a_virtual_monitor() {
    let src = Source::PipeWire { node_id: 42, size: Some((2560, 1440)) };
    let args = gst_engine::attempt_args(&cfg(), &src, "nvh264enc", false).join(" ");
    assert_eq!(
        args,
        "-q pipewiresrc path=42 do-timestamp=true keepalive-time=1000 \
         ! video/x-raw,width=2560,height=1440 ! videorate ! video/x-raw,framerate=60/1 \
         ! videoscale n-threads=4 method=0 ! videoconvert n-threads=4 \
         ! video/x-raw,format=NV12,width=2560,height=1440 ! nvh264enc bitrate=12000 \
         max-bitrate=12000 gop-size=60 aud=true zerolatency=true rc-mode=cbr preset=p1 \
         tune=ultra-low-latency \
         ! video/x-h264,stream-format=byte-stream,alignment=au,profile=high \
         ! fdsink fd=1 sync=false"
    );
}

#[test]
fn gst_arguments_for_a_part_of_an_x11_display() {
    let mut c = cfg();
    c.fps = 0;
    c.bitrate_bps = 1000;
    let rect = Rect { left: -10, top: 5, right: 100, bottom: 200 };
    let src = Source::X11 { display: ":1".to_string(), rect: Some(rect) };
    let args = gst_engine::attempt_args(&c, &src, "vah264lpenc", true).join(" ");
    assert_eq!(
        args,
        "-q ximagesrc display-name=:1 use-damage=false show-pointer=true startx=-10 starty=5 \
         endx=99 endy=199 ! video/x-raw,framerate=1/1 ! videorate ! video/x-raw,framerate=1/1 \
         ! videoscale n-threads=4 method=0 ! videoconvert n-threads=4 \
         ! video/x-raw,format=NV12,width=1920,height=1080 ! vah264lpenc bitrate=500 \
         key-int-max=1 aud=true rate-control=cbr target-usage=7 \
         ! video/x-h264,stream-format=byte-stream,alignment=au ! fdsink fd=1 sync=false"
    );
}

#[test]
fn gst_properties_of_the_other_encoders() {
    assert_eq!(
        gst_engine::encoder_args("x264enc", 900, 30).join(" "),
        "bitrate=900 key-int-max=30 aud=true speed-preset=ultrafast tune=zerolatency \
         b-adapt=false bframes=0"
    );
    assert_eq!(gst_engine::encoder_args("openh264enc", 900, 30), vec!["bitrate=900"]);
    assert_eq!(gst_engine::encoder_profile("vah264enc"), None);
    assert_eq!(gst_engine::encoder_profile("vah264lpenc"), None);
    assert_eq!(gst_engine::encoder_profile("nvh264enc"), Some("high"));
    assert_eq!(gst_engine::encoder_profile("x264enc"), Some("high"));
    for name in gst_engine::encoders() {
        assert!(gst_engine::encoder_args(&name, 1, 1).contains(&"aud=true".to_string()));
    }
}

#[test]
fn gst_source_tokens_of_a_mirrored_monitor() {
    let src = Source::PipeWire { node_id: 7, size: None };
    assert_eq!(
        src.tokens(60),
        vec!["pipewiresrc", "path=7", "do-timestamp=true", "keepalive-time=1000"]
    );
}

#[test]
fn gst_source_tokens_of_a_part_of_a_display() {
    let rect = Rect { left: -2_000_000_000, top: -5, right: 2_000_000_000, bottom: -4 };
    let src = Source::X11 { display: ":2".to_string(), rect: Some(rect) };
    assert_eq!(
        src.tokens(30).join(" "),
        "ximagesrc display-name=:2 use-damage=false show-pointer=true startx=-2000000000 \
         starty=-5 endx=1999999999 endy=-5 ! video/x-raw,framerate=30/1"
    );
}

#[test]
fn gst_encoders_need_the_aud_property() {
    let yes = Some("Factory\n  aud                 : Use AU delimiter\n".to_string());
    let no = Some("Factory\n  audio : none\n  laud  : x\n".to_string());
    assert!(gst_engine::encoder_usable(&yes));
    assert!(!gst_engine::encoder_usable(&no));
    assert!(!gst_engine::encoder_usable(&None));
    assert_eq!(
        gst_engine::candidates(&vec![no, yes.clone(), None, yes]),
        vec!["vah264enc", "x264enc"]
    );
}

#[test]
fn gst_sizes() {
    assert_eq!(gst_engine::encode_target(1536, 864, false), (1920, 1080));
    assert_eq!(gst_engine::encode_target(3840, 2160, false), (3840, 2160));
    assert_eq!(gst_engine::encode_target(1280, 720, false), (1280, 720));
    assert_eq!(gst_engine::encode_target(3840, 2160, true), (1920, 1080));
    let rect = Rect { left: 0, top: 0, right: 800, bottom: 600 };
    let x11 = Source::X11 { display: ":0".to_string(), rect: Some(rect) };
    assert_eq!(gst_engine::source_raw_size(&x11, &cfg()), (800, 600));
    let pw = Source::PipeWire { node_id: 1, size: None };
    assert_eq!(gst_engine::source_raw_size(&pw, &cfg()), (1920, 1080));
    let mut c = cfg();
    c.capture_size = Some((2560, 1440));
    assert_eq!(gst_engine::source_raw_size(&pw, &c), (2560, 1440));
}

#[test]
fn ffmpeg_arguments_on_the_main_adapter() {
    assert_eq!(
        ffmpeg_engine::attempt_args(&cfg(), 0, false).join(" "),
        "-hide_banner -loglevel warning -f lavfi -i \
         ddagrab=output_idx=1:framerate=60:draw_mouse=0 -c:v h264_nvenc -preset p1 -tune ll \
         -delay 0 -forced-idr 1 -bf 0 -g 60 -b:v 12000000 -maxrate 12000000 -bufsize 6000000 \
         -bsf:v h264_metadata=aud=insert -f h264 -"
    );
}

#[test]
fn ffmpeg_arguments_on_another_adapter() {
    let mut c = cfg();
    c.adapter_index = 2;
    assert_eq!(
        ffmpeg_engine::attempt_args(&c, 3, false).join(" "),
        "-hide_banner -loglevel warning -init_hw_device d3d11va=dd:2 -filter_hw_device dd \
         -f lavfi -i ddagrab=output_idx=1:framerate=60:draw_mouse=0 -c:v libx264 -preset \
         ultrafast -tune zerolatency -vf hwdownload,format=bgra,format=bgr0 -bf 0 -g 60 -b:v \
         12000000 -maxrate 12000000 -bufsize 6000000 -bsf:v h264_metadata=aud=insert -f h264 -"
    );
    let lite = ffmpeg_engine::attempt_args(&c, 1, true).join(" ");
    assert!(lite.contains(
        "-c:v h264_qsv -preset veryfast -vf \
         hwdownload,format=bgra,scale=1920:-2:flags=fast_bilinear,format=bgr0 -bf 0"
    ));
    assert_eq!(ffmpeg_engine::encoder_name(2), "h264_amf");
    assert_eq!(ffmpeg_engine::encoder_extra(2), vec!["-usage", "lowlatency"]);
}

fn place(path: &str, exists: bool) -> Candidate {
    Candidate { path: path.to_string(), exists }
}

#[test]
fn ffmpeg_is_looked_for_in_order() {
    let packages = vec![
        Package { name: "Other.Tool".to_string(), places: vec![place("o", true)] },
        Package { name: "Gyan.FFmpeg_1".to_string(), places: vec![place("a", false)] },
        Package {
            name: "Gyan.FFmpeg.Shared".to_string(),
            places: vec![place("b", false), place("c", true), place("d", true)],
        },
    ];
    let emb = Some("emb".to_string());
    let find = |p: bool, l: Option<Candidate>, e: Option<String>| {
        ffmpeg_engine::find_ffmpeg(p, l, &packages, e)
    };
    assert_eq!(find(true, Some(place("l", true)), None), Some("ffmpeg".to_string()));
    assert_eq!(find(false, Some(place("l", true)), None), Some("l".to_string()));
    assert_eq!(find(false, Some(place("l", false)), emb.clone()), Some("c".to_string()));
    assert_eq!(
        ffmpeg_engine::find_ffmpeg(false, None, &Vec::new(), emb.clone()),
        emb
    );
    assert_eq!(ffmpeg_engine::find_ffmpeg(false, None, &Vec::new(), None), None);
}

#[test]
fn embedded_ffmpeg_is_written_once() {
    assert!(ffmpeg_engine::must_extract(None, 10));
    assert!(ffmpeg_engine::must_extract(Some(9), 10));
    assert!(!ffmpeg_engine::must_extract(Some(10), 10));
    assert!(ffmpeg_engine::extracted(true, false));
    assert!(ffmpeg_engine::extracted(false, true));
    assert!(!ffmpeg_engine::extracted(false, false));
    assert_eq!(ffmpeg_engine::picture_size(&cfg(), (1366, 768)), (1366, 768));
}
