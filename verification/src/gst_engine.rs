//! Capture and encoding on Linux: what a `gst-launch-1.0` process is asked to do.
//!
//! The process reads the screen from PipeWire or from an X11 display, encodes it
//! and writes raw Annex-B H.264 to its standard output. The encoders are tried in
//! the order NVENC, VA-API, software.

use crate::engine::{PipelineConfig, Rect};
use crate::text::{
    dec, dec_int, followed, labelled, labelled_int, lacks, lemma_dec_lacks, lemma_lacks, lines,
    lines_of, occurs, occurs_at, push_all, push_dec, push_string, push_text, same, stands_at,
    starts_with, tagged, texts, trim_start, trimmed_start, white,
};
use vstd::prelude::*;
use vstd::string::StringExecFns;

verus! {

/// Where the picture comes from.
pub enum Source {
    /// A PipeWire node that the compositor opened.
    PipeWire {
        node_id: u32,
        /// The size of a virtual monitor; a real one has its own.
        size: Option<(u32, u32)>,
    },
    /// An X11 display, as a whole or a part of it.
    X11 { display: String, rect: Option<Rect> },
}

/// The encoder elements, in order of preference.
pub open spec fn encoder_list() -> Seq<Seq<char>> {
    seq!["nvh264enc"@, "vah264enc"@, "vah264lpenc"@, "x264enc"@]
}

/// The encoder elements, in order of preference.
pub fn encoders() -> (r: Vec<String>)
    ensures
        texts(r@) == encoder_list(),
        r@.len() == 4,
{
    let mut r: Vec<String> = Vec::new();
    push_text(&mut r, "nvh264enc");
    push_text(&mut r, "vah264enc");
    push_text(&mut r, "vah264lpenc");
    push_text(&mut r, "x264enc");
    assert(texts(r@) =~= encoder_list());
    r
}

impl Source {
    /// The part of the display, if one is given, can be measured.
    pub open spec fn measurable(self) -> bool {
        match self {
            Source::X11 { display, rect: Some(r) } => r.measurable(),
            _ => true,
        }
    }

    /// The part of the display, if one is given, has a last column and a last row.
    pub open spec fn has_ends(self) -> bool {
        match self {
            Source::X11 { display, rect: Some(r) } => r.right > i32::MIN && r.bottom > i32::MIN,
            _ => true,
        }
    }

    /// The source element and the caps filter right behind it.
    ///
    /// The caps of a virtual monitor give its size, which creates it, and no
    /// frame rate, with which it could not be created.
    pub open spec fn token_list(self, fps: u32) -> Seq<Seq<char>> {
        match self {
            Source::PipeWire { node_id, size } => {
                seq![
                    "pipewiresrc"@,
                    "path="@ + dec(node_id as nat),
                    "do-timestamp=true"@,
                    "keepalive-time=1000"@,
                ] + match size {
                    Some((w, h)) => seq![
                        "!"@,
                        "video/x-raw,width="@ + dec(w as nat) + ",height="@ + dec(h as nat),
                    ],
                    None => Seq::empty(),
                }
            },
            Source::X11 { display, rect } => {
                seq![
                    "ximagesrc"@,
                    "display-name="@ + display@,
                    "use-damage=false"@,
                    "show-pointer=true"@,
                ] + match rect {
                    Some(r) => seq![
                        "startx="@ + dec_int(r.left as int),
                        "starty="@ + dec_int(r.top as int),
                        "endx="@ + dec_int(r.right - 1),
                        "endy="@ + dec_int(r.bottom - 1),
                    ],
                    None => Seq::empty(),
                } + seq!["!"@, frame_rate_caps(fps)]
            },
        }
    }

    /// The source element and the caps filter right behind it.
    pub fn tokens(&self, fps: u32) -> (r: Vec<String>)
        requires
            self.has_ends(),
        ensures
            texts(r@) == self.token_list(fps),
    {
        let mut v: Vec<String> = Vec::new();
        match self {
            Source::PipeWire { node_id, size } => {
                push_text(&mut v, "pipewiresrc");
                push_string(&mut v, labelled("path=", *node_id as u64));
                push_text(&mut v, "do-timestamp=true");
                push_text(&mut v, "keepalive-time=1000");
                if let Some((w, h)) = size {
                    push_text(&mut v, "!");
                    push_string(&mut v, sized("video/x-raw,width=", *w, *h));
                }
                assert(texts(v@) =~= self.token_list(fps));
            },
            Source::X11 { display, rect } => {
                push_text(&mut v, "ximagesrc");
                push_string(&mut v, tagged("display-name=", display.as_str()));
                push_text(&mut v, "use-damage=false");
                push_text(&mut v, "show-pointer=true");
                if let Some(r) = rect {
                    push_string(&mut v, labelled_int("startx=", r.left as i64));
                    push_string(&mut v, labelled_int("starty=", r.top as i64));
                    push_string(&mut v, labelled_int("endx=", (r.right - 1) as i64));
                    push_string(&mut v, labelled_int("endy=", (r.bottom - 1) as i64));
                }
                push_text(&mut v, "!");
                push_string(&mut v, frame_rate(fps));
                assert(texts(v@) =~= self.token_list(fps));
            },
        }
        v
    }
}

/// A text, a width, `,height=` and a height.
fn sized(label: &str, w: u32, h: u32) -> (r: String)
    ensures
        r@ == label@ + dec(w as nat) + ",height="@ + dec(h as nat),
{
    let mut r = labelled(label, w as u64);
    r.append(",height=");
    push_dec(&mut r, h as u64);
    r
}

/// Caps with nothing but a frame rate.
pub open spec fn frame_rate_caps(fps: u32) -> Seq<char> {
    "video/x-raw,framerate="@ + dec(fps as nat) + "/1"@
}

/// Caps with nothing but a frame rate.
fn frame_rate(fps: u32) -> (r: String)
    ensures
        r@ == frame_rate_caps(fps),
{
    let mut r = labelled("video/x-raw,framerate=", fps as u64);
    r.append("/1");
    r
}

/// The H.264 profile that an encoder is held to, if any.
pub open spec fn profile_of(name: Seq<char>) -> Option<Seq<char>> {
    if name == "nvh264enc"@ || name == "x264enc"@ {
        Some("high"@)
    } else {
        None
    }
}

/// The H.264 profile that an encoder is held to, if any. NVENC left to itself gives
/// the baseline profile, which looks worse at the same bit rate. The VA-API encoders
/// are left their own: one may lack the high profile, and would be given up for it.
pub fn encoder_profile(name: &str) -> (r: Option<&'static str>)
    ensures
        r is Some <==> profile_of(name@) is Some,
        r matches Some(p) ==> profile_of(name@) == Some(p@),
{
    if same(name, "nvh264enc") || same(name, "x264enc") {
        Some("high")
    } else {
        None
    }
}

/// The properties that an encoder element is given.
pub open spec fn encoder_properties(name: Seq<char>, kbps: u32, gop: u32) -> Seq<Seq<char>> {
    if name == "nvh264enc"@ {
        seq![
            "bitrate="@ + dec(kbps as nat),
            "max-bitrate="@ + dec(kbps as nat),
            "gop-size="@ + dec(gop as nat),
            "aud=true"@,
            "zerolatency=true"@,
            "rc-mode=cbr"@,
            "preset=p1"@,
            "tune=ultra-low-latency"@,
        ]
    } else if name == "vah264enc"@ || name == "vah264lpenc"@ {
        seq![
            "bitrate="@ + dec(kbps as nat),
            "key-int-max="@ + dec(gop as nat),
            "aud=true"@,
            "rate-control=cbr"@,
            "target-usage=7"@,
        ]
    } else if name == "x264enc"@ {
        seq![
            "bitrate="@ + dec(kbps as nat),
            "key-int-max="@ + dec(gop as nat),
            "aud=true"@,
            "speed-preset=ultrafast"@,
            "tune=zerolatency"@,
            "b-adapt=false"@,
            "bframes=0"@,
        ]
    } else {
        seq!["bitrate="@ + dec(kbps as nat)]
    }
}

/// The properties that an encoder element is given, with the bit rate in kbit/s.
pub fn encoder_args(name: &str, kbps: u32, gop: u32) -> (r: Vec<String>)
    ensures
        texts(r@) == encoder_properties(name@, kbps, gop),
{
    let mut v: Vec<String> = Vec::new();
    push_string(&mut v, labelled("bitrate=", kbps as u64));
    if same(name, "nvh264enc") {
        push_string(&mut v, labelled("max-bitrate=", kbps as u64));
        push_string(&mut v, labelled("gop-size=", gop as u64));
        push_text(&mut v, "aud=true");
        push_text(&mut v, "zerolatency=true");
        push_text(&mut v, "rc-mode=cbr");
        push_text(&mut v, "preset=p1");
        push_text(&mut v, "tune=ultra-low-latency");
    } else if same(name, "vah264enc") || same(name, "vah264lpenc") {
        push_string(&mut v, labelled("key-int-max=", gop as u64));
        push_text(&mut v, "aud=true");
        push_text(&mut v, "rate-control=cbr");
        push_text(&mut v, "target-usage=7");
    } else if same(name, "x264enc") {
        push_string(&mut v, labelled("key-int-max=", gop as u64));
        push_text(&mut v, "aud=true");
        push_text(&mut v, "speed-preset=ultrafast");
        push_text(&mut v, "tune=zerolatency");
        push_text(&mut v, "b-adapt=false");
        push_text(&mut v, "bframes=0");
    }
    assert(texts(v@) =~= encoder_properties(name@, kbps, gop));
    v
}

/// A line of an element's description that names its `aud` property.
pub open spec fn names_aud(line: Seq<char>) -> bool {
    occurs_at(trimmed_start(line), "aud "@, 0)
}

/// An element's description names its `aud` property.
pub open spec fn describes_aud(text: Seq<char>) -> bool {
    exists|i: int| 0 <= i < lines_of(text).len() && names_aud(#[trigger] lines_of(text)[i])
}

/// An element can be used where it is installed, so that there is a description
/// of it, and has the `aud` property: the stream is split at the delimiters that
/// the property makes it write.
pub open spec fn usable(report: Option<String>) -> bool {
    match report {
        Some(text) => describes_aud(text@),
        None => false,
    }
}

/// Whether an element's description names its `aud` property.
fn has_aud(text: &str) -> (r: bool)
    ensures
        r == describes_aud(text@),
{
    let list = lines(text);
    let mut i: usize = 0;
    assert(lines_of(text@).len() == list@.len());
    while i < list.len()
        invariant
            i <= list@.len(),
            texts(list@) == lines_of(text@),
            lines_of(text@).len() == list@.len(),
            forall|k: int| 0 <= k < i ==> !names_aud(#[trigger] lines_of(text@)[k]),
        decreases list@.len() - i,
    {
        assert(lines_of(text@)[i as int] == list@[i as int]@);
        let line = trim_start(list[i].as_str());
        if starts_with(line.as_str(), "aud ") {
            return true;
        }
        i += 1;
    }
    false
}

/// Whether an encoder can be used, by what `gst-inspect-1.0` printed of it; it
/// prints nothing of an element that is not installed.
pub fn encoder_usable(report: &Option<String>) -> (r: bool)
    ensures
        r == usable(*report),
{
    match report {
        None => false,
        Some(text) => has_aud(text.as_str()),
    }
}

/// The first `n` encoders without those that cannot be used.
pub open spec fn usable_below(reports: Seq<Option<String>>, n: int) -> Seq<Seq<char>>
    decreases n,
{
    if n <= 0 {
        Seq::empty()
    } else if usable(reports[n - 1]) {
        usable_below(reports, n - 1).push(encoder_list()[n - 1])
    } else {
        usable_below(reports, n - 1)
    }
}

/// The encoders that can be used, in order of preference. `reports` holds what
/// `gst-inspect-1.0` printed of each encoder.
pub fn candidates(reports: &Vec<Option<String>>) -> (r: Vec<String>)
    requires
        reports@.len() == 4,
    ensures
        texts(r@) == usable_below(reports@, 4),
{
    let names = encoders();
    let mut r: Vec<String> = Vec::new();
    let mut i: usize = 0;
    assert(texts(r@) =~= usable_below(reports@, 0));
    while i < 4
        invariant
            i <= 4,
            reports@.len() == 4,
            names@.len() == 4,
            texts(names@) == encoder_list(),
            texts(r@) == usable_below(reports@, i as int),
        decreases 4 - i,
    {
        if encoder_usable(&reports[i]) {
            assert(texts(names@)[i as int] == names@[i as int]@);
            push_text(&mut r, names[i].as_str());
        }
        i += 1;
    }
    r
}

/// The size that is encoded.
pub open spec fn target_size(w: u32, h: u32, lite: bool) -> (u32, u32) {
    let standard = (w == 1920 && h == 1080) || (w == 2560 && h == 1440) || (w == 3840 && h == 2160)
        || (w == 1280 && h == 720);
    if !lite && standard {
        (w, h)
    } else {
        (1920, 1080)
    }
}

/// The size that is encoded: the source's own where it is a standard one, else
/// full HD. Some televisions show nothing of a picture of any other size, which
/// a fractionally scaled desktop has.
pub fn encode_target(w: u32, h: u32, lite: bool) -> (r: (u32, u32))
    ensures
        r == target_size(w, h, lite),
        r == (1280u32, 720u32) || r == (1920u32, 1080u32) || r == (2560u32, 1440u32) || r == (
            3840u32,
            2160u32,
        ),
{
    if lite {
        return (1920, 1080);
    }
    if (w == 1920 && h == 1080) || (w == 2560 && h == 1440) || (w == 3840 && h == 2160) || (w
        == 1280 && h == 720) {
        (w, h)
    } else {
        (1920, 1080)
    }
}

/// The size of the picture that the source gives.
pub open spec fn raw_size(src: Source, cfg: PipelineConfig) -> (u32, u32) {
    match src {
        Source::PipeWire { node_id, size: Some((w, h)) } => (w, h),
        Source::X11 { display, rect: Some(r) } => (r.width_of() as u32, r.height_of() as u32),
        _ => match cfg.capture_size {
            Some((w, h)) => (w, h),
            None => (1920, 1080),
        },
    }
}

/// The size of the picture that the source gives.
pub fn source_raw_size(src: &Source, cfg: &PipelineConfig) -> (r: (u32, u32))
    requires
        src.measurable(),
    ensures
        r == raw_size(*src, *cfg),
{
    match src {
        Source::PipeWire { node_id: _, size: Some((w, h)) } => (*w, *h),
        Source::X11 { display: _, rect: Some(r) } => (r.width() as u32, r.height() as u32),
        _ => match cfg.capture_size {
            Some((w, h)) => (w, h),
            None => (1920, 1080),
        },
    }
}

/// A frame rate of at least one.
pub open spec fn at_least_one(fps: u32) -> u32 {
    if fps == 0 {
        1
    } else {
        fps
    }
}

/// The bit rate in kbit/s, at least 500.
pub open spec fn kbps_of(bitrate_bps: u32) -> u32 {
    if bitrate_bps / 1000 < 500 {
        500
    } else {
        bitrate_bps / 1000
    }
}

/// The caps behind the encoder.
pub open spec fn h264_caps(encoder: Seq<char>) -> Seq<char> {
    "video/x-h264,stream-format=byte-stream,alignment=au"@ + match profile_of(encoder) {
        Some(p) => ",profile="@ + p,
        None => Seq::empty(),
    }
}

/// What stands between the source and the properties of the encoder.
///
/// The frame rate is constant. It must not rise with the panel's refresh rate,
/// and it must not fall on a still desktop: the distance of key frames is counted
/// in frames, and a viewer draws nothing before the first one.
pub open spec fn chain_list(fps: u32, size: (u32, u32), encoder: Seq<char>) -> Seq<Seq<char>> {
    seq![
        "!"@,
        "videorate"@,
        "!"@,
        frame_rate_caps(fps),
        "!"@,
        "videoscale"@,
        "n-threads=4"@,
        "method=0"@,
        "!"@,
        "videoconvert"@,
        "n-threads=4"@,
        "!"@,
        "video/x-raw,format=NV12,width="@ + dec(size.0 as nat) + ",height="@ + dec(size.1 as nat),
        "!"@,
        encoder,
    ]
}

/// What stands between the source and the properties of the encoder.
fn chain(fps: u32, w: u32, h: u32, encoder: &str) -> (r: Vec<String>)
    ensures
        texts(r@) == chain_list(fps, (w, h), encoder@),
{
    let mut args: Vec<String> = Vec::new();
    push_text(&mut args, "!");
    push_text(&mut args, "videorate");
    push_text(&mut args, "!");
    push_string(&mut args, frame_rate(fps));
    push_text(&mut args, "!");
    push_text(&mut args, "videoscale");
    push_text(&mut args, "n-threads=4");
    push_text(&mut args, "method=0");
    push_text(&mut args, "!");
    push_text(&mut args, "videoconvert");
    push_text(&mut args, "n-threads=4");
    push_text(&mut args, "!");
    push_string(&mut args, sized("video/x-raw,format=NV12,width=", w, h));
    push_text(&mut args, "!");
    push_text(&mut args, encoder);
    assert(texts(args@) =~= chain_list(fps, (w, h), encoder@));
    args
}

/// What stands behind the properties of the encoder.
pub open spec fn sink_list(encoder: Seq<char>) -> Seq<Seq<char>> {
    seq!["!"@, h264_caps(encoder), "!"@, "fdsink"@, "fd=1"@, "sync=false"@]
}

/// What stands behind the properties of the encoder.
fn sink(encoder: &str) -> (r: Vec<String>)
    ensures
        texts(r@) == sink_list(encoder@),
{
    let mut caps = "video/x-h264,stream-format=byte-stream,alignment=au".to_owned();
    if let Some(profile) = encoder_profile(encoder) {
        caps.append(",profile=");
        caps.append(profile);
    }
    assert(caps@ =~= h264_caps(encoder@));
    let mut args: Vec<String> = Vec::new();
    push_text(&mut args, "!");
    push_string(&mut args, caps);
    push_text(&mut args, "!");
    push_text(&mut args, "fdsink");
    push_text(&mut args, "fd=1");
    push_text(&mut args, "sync=false");
    assert(texts(args@) =~= sink_list(encoder@));
    args
}

/// The arguments of the encoding process. Key frames come once in a second.
pub open spec fn launch_args(
    cfg: PipelineConfig,
    src: Source,
    encoder: Seq<char>,
    lite: bool,
) -> Seq<Seq<char>> {
    let fps = at_least_one(cfg.fps);
    let raw = raw_size(src, cfg);
    let size = target_size(raw.0, raw.1, lite);
    seq!["-q"@] + src.token_list(fps) + chain_list(fps, size, encoder) + encoder_properties(
        encoder,
        kbps_of(cfg.bitrate_bps),
        fps,
    ) + sink_list(encoder)
}

/// The arguments of the encoding process.
pub fn attempt_args(cfg: &PipelineConfig, src: &Source, encoder: &str, lite: bool) -> (r: Vec<
    String,
>)
    requires
        src.measurable(),
        src.has_ends(),
    ensures
        texts(r@) == launch_args(*cfg, *src, encoder@, lite),
{
    let fps: u32 = if cfg.fps == 0 {
        1
    } else {
        cfg.fps
    };
    let kbps: u32 = if cfg.bitrate_bps / 1000 < 500 {
        500
    } else {
        cfg.bitrate_bps / 1000
    };
    let (raw_w, raw_h) = source_raw_size(src, cfg);
    let (w, h) = encode_target(raw_w, raw_h, lite);
    let mut args: Vec<String> = Vec::new();
    push_text(&mut args, "-q");
    assert(texts(args@) =~= seq!["-q"@]);
    push_all(&mut args, &src.tokens(fps));
    push_all(&mut args, &chain(fps, w, h, encoder));
    push_all(&mut args, &encoder_args(encoder, kbps, fps));
    push_all(&mut args, &sink(encoder));
    args
}

/// Every encoder of the list is asked for access unit delimiters, without which
/// its stream could not be split.
pub proof fn law_encoders_write_delimiters(i: int, kbps: u32, gop: u32)
    requires
        0 <= i < encoder_list().len(),
    ensures
        encoder_properties(encoder_list()[i], kbps, gop).contains("aud=true"@),
{
    let name = encoder_list()[i];
    let p = encoder_properties(name, kbps, gop);
    if name == "nvh264enc"@ {
        assert(p[3] == "aud=true"@);
    } else {
        assert(p[2] == "aud=true"@);
    }
}

/// Whatever the size of the source, what is encoded has one of the four sizes that
/// televisions show. A source of such a size is encoded as it is, any other as full
/// HD, and the light stream always as full HD.
pub proof fn law_sizes_shown(w: u32, h: u32)
    ensures
        ({
            let full = target_size(w, h, false);
            ||| full == (1280u32, 720u32)
            ||| full == (1920u32, 1080u32)
            ||| full == (2560u32, 1440u32)
            ||| full == (3840u32, 2160u32)
        }),
        (w, h) == (1280u32, 720u32) || (w, h) == (1920u32, 1080u32) || (w, h) == (2560u32, 1440u32)
            || (w, h) == (3840u32, 2160u32) ==> target_size(w, h, false) == (w, h),
        !((w, h) == (1280u32, 720u32) || (w, h) == (1920u32, 1080u32) || (w, h) == (
            2560u32,
            1440u32,
        ) || (w, h) == (3840u32, 2160u32)) ==> target_size(w, h, false) == (1920u32, 1080u32),
        target_size(w, h, true) == (1920u32, 1080u32),
{
}

/// The size that is encoded is that of `law_sizes_shown`, for the source's own size:
/// that of a virtual monitor, of the part of a display, or else of what is captured.
pub proof fn law_source_sizes(src: Source, cfg: PipelineConfig, w: u32, h: u32)
    ensures
        src matches Source::PipeWire { node_id, size: Some(s) } ==> raw_size(src, cfg) == s,
        src matches Source::X11 { display, rect: Some(r) } ==> (r.measurable() && r.left < r.right
            && r.top < r.bottom ==> raw_size(src, cfg).0 == r.right - r.left && raw_size(
            src,
            cfg,
        ).1 == r.bottom - r.top),
        src matches Source::PipeWire { node_id, size: None } ==> raw_size(
            src,
            (PipelineConfig { capture_size: Some((w, h)), ..cfg }),
        ) == (w, h) && raw_size(src, (PipelineConfig { capture_size: None, ..cfg })) == (
            1920u32,
            1080u32,
        ),
        src matches Source::X11 { display, rect: None } ==> raw_size(
            src,
            (PipelineConfig { capture_size: Some((w, h)), ..cfg }),
        ) == (w, h) && raw_size(src, (PipelineConfig { capture_size: None, ..cfg })) == (
            1920u32,
            1080u32,
        ),
{
}

/// The bit rate in kbit/s is the one in bit/s without its last three digits, and at
/// least 500.
pub proof fn law_kbps(bps: u32)
    ensures
        bps >= 500_000 ==> 1000 * kbps_of(bps) <= bps < 1000 * kbps_of(bps) + 1000,
        bps < 500_000 ==> kbps_of(bps) == 500,
{
}

/// Whatever the source is and whether the stream is light or full, the picture has a
/// constant frame rate, the size that was decided on, and passes through the encoder
/// to the standard output, as a byte stream in whole access units. No frames are
/// dropped without being made up for.
pub proof fn law_pipeline_order(
    cfg: PipelineConfig,
    src: Source,
    encoder: Seq<char>,
    lite: bool,
)
    ensures
        ({
            let args = launch_args(cfg, src, encoder, lite);
            let fps: nat = if cfg.fps == 0 {
                1
            } else {
                cfg.fps as nat
            };
            let raw = raw_size(src, cfg);
            let size = target_size(raw.0, raw.1, lite);
            let n = src.token_list(fps as u32).len() as int;
            let last = args.len() as int;
            &&& args[0] == "-q"@
            &&& args.subrange(1, n + 1) == src.token_list(fps as u32)
            &&& args[n + 1] == "!"@
            &&& args[n + 2] == "videorate"@
            &&& args[n + 3] == "!"@
            &&& args[n + 4] == "video/x-raw,framerate="@ + dec(fps) + "/1"@
            &&& followed(args, "!"@, "videoscale"@)
            &&& followed(args, "!"@, "videoconvert"@)
            &&& followed(
                args,
                "!"@,
                "video/x-raw,format=NV12,width="@ + dec(size.0 as nat) + ",height="@ + dec(
                    size.1 as nat,
                ),
            )
            &&& followed(args, "!"@, encoder)
            &&& followed(args, "videoscale"@, "n-threads=4"@)
            &&& followed(args, "n-threads=4"@, "method=0"@)
            &&& followed(args, "videoconvert"@, "n-threads=4"@)
            &&& args.subrange(n + 16, last - 6) == encoder_properties(
                encoder,
                kbps_of(cfg.bitrate_bps),
                fps as u32,
            )
            &&& args[last - 5] == h264_caps(encoder)
            &&& args[last - 3] == "fdsink"@
            &&& args[last - 2] == "fd=1"@
            &&& args[last - 1] == "sync=false"@
        }),
{
    let args = launch_args(cfg, src, encoder, lite);
    let fps = at_least_one(cfg.fps);
    let raw = raw_size(src, cfg);
    let size = target_size(raw.0, raw.1, lite);
    let t = src.token_list(fps);
    let c = chain_list(fps, size, encoder);
    let n = t.len() as int;
    assert(args.subrange(1, n + 1) =~= t);
    assert forall|j: int| 0 <= j < c.len() implies #[trigger] args[n + 1 + j] == c[j] by {}
    assert(args[n + 1 + 0] == c[0] && args[n + 1 + 1] == c[1] && args[n + 1 + 2] == c[2] && args[n
        + 1 + 3] == c[3]);
    assert(args[n + 1 + 4] == c[4] && args[n + 1 + 5] == c[5]);
    assert(stands_at(args, "!"@, "videoscale"@, n + 5));
    assert(args[n + 1 + 8] == c[8] && args[n + 1 + 9] == c[9]);
    assert(stands_at(args, "!"@, "videoconvert"@, n + 9));
    assert(args[n + 1 + 11] == c[11] && args[n + 1 + 12] == c[12]);
    assert(stands_at(args, "!"@, c[12], n + 12));
    assert(args[n + 1 + 13] == c[13] && args[n + 1 + 14] == c[14]);
    assert(stands_at(args, "!"@, encoder, n + 14));
    assert(args[n + 1 + 6] == c[6] && args[n + 1 + 7] == c[7] && args[n + 1 + 10] == c[10]);
    assert(stands_at(args, "videoscale"@, "n-threads=4"@, n + 6));
    assert(stands_at(args, "n-threads=4"@, "method=0"@, n + 7));
    assert(stands_at(args, "videoconvert"@, "n-threads=4"@, n + 10));
    let s = sink_list(encoder);
    let o = args.len() - s.len();
    assert forall|j: int| 0 <= j < s.len() implies #[trigger] args[o + j] == s[j] by {}
    assert(args[o + 3] == s[3] && args[o + 4] == s[4] && args[o + 5] == s[5]);
    assert(args[o + 1] == s[1]);
    assert(args.subrange(n + 16, o) =~= encoder_properties(encoder, kbps_of(cfg.bitrate_bps), fps));
}

/// Every encoder of the list gets the bit rate, a key frame in each second, and the
/// word to hold nothing back.
pub proof fn law_encoder_settings(kbps: u32, gop: u32)
    ensures
        ({
            let p = encoder_properties("nvh264enc"@, kbps, gop);
            &&& p.contains("bitrate="@ + dec(kbps as nat))
            &&& p.contains("max-bitrate="@ + dec(kbps as nat))
            &&& p.contains("gop-size="@ + dec(gop as nat))
            &&& p.contains("zerolatency=true"@)
            &&& p.contains("rc-mode=cbr"@)
            &&& p.contains("preset=p1"@)
            &&& p.contains("tune=ultra-low-latency"@)
            &&& p.contains("aud=true"@)
            &&& p.len() == 8
        }),
        forall|name: Seq<char>|
            name == "vah264enc"@ || name == "vah264lpenc"@ ==> {
                let p = #[trigger] encoder_properties(name, kbps, gop);
                &&& p.contains("bitrate="@ + dec(kbps as nat))
                &&& p.contains("key-int-max="@ + dec(gop as nat))
                &&& p.contains("rate-control=cbr"@)
                &&& p.contains("target-usage=7"@)
                &&& p.contains("aud=true"@)
                &&& p.len() == 5
            },
        ({
            let p = encoder_properties("x264enc"@, kbps, gop);
            &&& p.contains("bitrate="@ + dec(kbps as nat))
            &&& p.contains("key-int-max="@ + dec(gop as nat))
            &&& p.contains("speed-preset=ultrafast"@)
            &&& p.contains("tune=zerolatency"@)
            &&& p.contains("b-adapt=false"@)
            &&& p.contains("bframes=0"@)
            &&& p.contains("aud=true"@)
            &&& p.len() == 7
        }),
{
    lemma_names_differ();
    let p = encoder_properties("nvh264enc"@, kbps, gop);
    assert(p[0] == "bitrate="@ + dec(kbps as nat));
    assert(p[1] == "max-bitrate="@ + dec(kbps as nat));
    assert(p[2] == "gop-size="@ + dec(gop as nat));
    assert(p[3] == "aud=true"@);
    assert(p[4] == "zerolatency=true"@);
    assert(p[5] == "rc-mode=cbr"@);
    assert(p[6] == "preset=p1"@);
    assert(p[7] == "tune=ultra-low-latency"@);
    assert forall|name: Seq<char>| name == "vah264enc"@ || name == "vah264lpenc"@ implies ({
        let p = #[trigger] encoder_properties(name, kbps, gop);
        &&& p.contains("bitrate="@ + dec(kbps as nat))
        &&& p.contains("key-int-max="@ + dec(gop as nat))
        &&& p.contains("rate-control=cbr"@)
        &&& p.contains("target-usage=7"@)
        &&& p.contains("aud=true"@)
        &&& p.len() == 5
    }) by {
        let p = encoder_properties(name, kbps, gop);
        assert(p[0] == "bitrate="@ + dec(kbps as nat));
        assert(p[1] == "key-int-max="@ + dec(gop as nat));
        assert(p[2] == "aud=true"@);
        assert(p[3] == "rate-control=cbr"@);
        assert(p[4] == "target-usage=7"@);
    }
    let q = encoder_properties("x264enc"@, kbps, gop);
    assert(q[0] == "bitrate="@ + dec(kbps as nat));
    assert(q[1] == "key-int-max="@ + dec(gop as nat));
    assert(q[2] == "aud=true"@);
    assert(q[3] == "speed-preset=ultrafast"@);
    assert(q[4] == "tune=zerolatency"@);
    assert(q[5] == "b-adapt=false"@);
    assert(q[6] == "bframes=0"@);
}

/// No two encoders have one name.
proof fn lemma_names_differ()
    ensures
        "nvh264enc"@ != "vah264enc"@,
        "nvh264enc"@ != "vah264lpenc"@,
        "nvh264enc"@ != "x264enc"@,
        "vah264enc"@ != "vah264lpenc"@,
        "vah264enc"@ != "x264enc"@,
        "vah264lpenc"@ != "x264enc"@,
{
    reveal_strlit("nvh264enc");
    reveal_strlit("vah264enc");
    reveal_strlit("vah264lpenc");
    reveal_strlit("x264enc");
    assert("nvh264enc"@[0] == 'n' && "vah264enc"@[0] == 'v' && "vah264lpenc"@[0] == 'v'
        && "x264enc"@[0] == 'x');
    assert("vah264enc"@.len() != "vah264lpenc"@.len());
}

/// The encoders are tried with hardware first and with software last. The profile is
/// forced on NVENC and on the software, and on no encoder of VA-API.
pub proof fn law_encoder_order(encoder: Seq<char>)
    ensures
        encoder_list().len() == 4,
        encoder_list()[0] == "nvh264enc"@,
        encoder_list()[1] == "vah264enc"@,
        encoder_list()[2] == "vah264lpenc"@,
        encoder_list()[3] == "x264enc"@,
        profile_of("nvh264enc"@) == Some("high"@),
        profile_of("x264enc"@) == Some("high"@),
        profile_of("vah264enc"@) is None,
        profile_of("vah264lpenc"@) is None,
        profile_of(encoder) matches Some(p) ==> h264_caps(encoder)
            == "video/x-h264,stream-format=byte-stream,alignment=au"@ + (",profile="@ + p),
        profile_of(encoder) is None ==> h264_caps(encoder)
            == "video/x-h264,stream-format=byte-stream,alignment=au"@,
{
    lemma_names_differ();
    if profile_of(encoder) is None {
        assert(h264_caps(encoder) =~= "video/x-h264,stream-format=byte-stream,alignment=au"@);
    }
}

/// An encoder is tried exactly where it can be used, and those that are tried keep the
/// order of preference.
pub proof fn law_candidates(reports: Seq<Option<String>>, i: int, j: int)
    requires
        0 <= i < j < 4,
    ensures
        usable_below(reports, 4).contains(encoder_list()[i]) <==> usable(reports[i]),
        usable_below(reports, 4).contains(encoder_list()[j]) <==> usable(reports[j]),
        usable(reports[i]) && usable(reports[j]) ==> exists|a: int, b: int|
            0 <= a < b < usable_below(reports, 4).len() && #[trigger] usable_below(reports, 4)[a]
                == encoder_list()[i] && #[trigger] usable_below(reports, 4)[b]
                == encoder_list()[j],
{
    lemma_names_differ();
    reveal_with_fuel(usable_below, 5);
    let all = usable_below(reports, 4);
    let p: int = if usable(reports[0]) {
        1
    } else {
        0
    };
    let q: int = p + if usable(reports[1]) {
        1int
    } else {
        0int
    };
    let r: int = q + if usable(reports[2]) {
        1int
    } else {
        0int
    };
    if usable(reports[0]) {
        assert(all[0] == encoder_list()[0]);
    }
    if usable(reports[1]) {
        assert(all[p] == encoder_list()[1]);
    }
    if usable(reports[2]) {
        assert(all[q] == encoder_list()[2]);
    }
    if usable(reports[3]) {
        assert(all[r] == encoder_list()[3]);
    }
}

/// An encoder can be used where its description has a line that begins, behind white
/// space, with the property's name and a blank; one that is not installed cannot.
pub proof fn law_usable(text: String, k: int, gap: Seq<char>, tail: Seq<char>)
    requires
        0 <= k < lines_of(text@).len(),
        lines_of(text@)[k] == gap + "aud "@ + tail,
        forall|i: int| 0 <= i < gap.len() ==> white(#[trigger] gap[i]),
    ensures
        usable(Some(text)),
        !usable(None),
{
    lemma_names_aud(gap, tail);
}

/// A line that names the property.
proof fn lemma_names_aud(gap: Seq<char>, tail: Seq<char>)
    requires
        forall|i: int| 0 <= i < gap.len() ==> white(#[trigger] gap[i]),
    ensures
        names_aud(gap + "aud "@ + tail),
    decreases gap.len(),
{
    reveal_strlit("aud ");
    let s = gap + "aud "@ + tail;
    if gap.len() > 0 {
        let g = gap.skip(1);
        assert forall|i: int| 0 <= i < g.len() implies white(#[trigger] g[i]) by {
            assert(g[i] == gap[i + 1]);
        }
        lemma_names_aud(g, tail);
        assert(s.skip(1) =~= g + "aud "@ + tail);
        assert(s[0] == gap[0]);
        assert(white(gap[0]));
    } else {
        assert(s[0] == 'a');
        assert(s.subrange(0, 4) =~= "aud "@);
    }
}

/// The caps right behind a PipeWire source give no frame rate, with which a virtual
/// monitor could not be made; they give the size of a virtual monitor, which makes it,
/// and nothing of a real one.
pub proof fn law_pipewire_source(node: u32, size: Option<(u32, u32)>, fps: u32, k: int)
    requires
        0 <= k < (Source::PipeWire { node_id: node, size }).token_list(fps).len(),
    ensures
        ({
            let t = (Source::PipeWire { node_id: node, size }).token_list(fps);
            &&& t[0] == "pipewiresrc"@
            &&& t[1] == "path="@ + dec(node as nat)
            &&& t[2] == "do-timestamp=true"@
            &&& t[3] == "keepalive-time=1000"@
            &&& size is None ==> t.len() == 4
            &&& size matches Some((w, h)) ==> t.len() == 6 && t[4] == "!"@ && t[5]
                == "video/x-raw,width="@ + dec(w as nat) + ",height="@ + dec(h as nat)
            &&& !occurs(t[k], "framerate"@)
        }),
{
    let t = (Source::PipeWire { node_id: node, size }).token_list(fps);
    reveal_strlit("pipewiresrc");
    reveal_strlit("path=");
    reveal_strlit("do-timestamp=true");
    reveal_strlit("keepalive-time=1000");
    reveal_strlit("!");
    reveal_strlit("video/x-raw,width=");
    reveal_strlit(",height=");
    reveal_strlit("framerate");
    lemma_dec_lacks(node as nat, 'f');
    if let Some((w, h)) = size {
        lemma_dec_lacks(w as nat, 'f');
        lemma_dec_lacks(h as nat, 'f');
        let caps = "video/x-raw,width="@ + dec(w as nat) + ",height="@ + dec(h as nat);
        assert(lacks(caps, 'f'));
    }
    assert(lacks("path="@ + dec(node as nat), 'f'));
    assert(lacks(t[k], 'f'));
    lemma_lacks(t[k], "framerate"@, 0);
}

/// A display is captured with its pointer, as a whole or from the first to the last
/// column and row of a part, at the frame rate that is asked for.
pub proof fn law_x11_source(display: String, rect: Option<Rect>, fps: u32)
    ensures
        ({
            let t = (Source::X11 { display, rect }).token_list(fps);
            &&& t[0] == "ximagesrc"@
            &&& t[1] == "display-name="@ + display@
            &&& t[2] == "use-damage=false"@
            &&& t[3] == "show-pointer=true"@
            &&& rect is None ==> t.len() == 6
            &&& rect matches Some(r) ==> t.len() == 10 && t[4] == "startx="@ + dec_int(
                r.left as int,
            ) && t[5] == "starty="@ + dec_int(r.top as int) && t[6] == "endx="@ + dec_int(
                r.right - 1,
            ) && t[7] == "endy="@ + dec_int(r.bottom - 1)
            &&& t[t.len() - 2] == "!"@
            &&& t.last() == "video/x-raw,framerate="@ + dec(fps as nat) + "/1"@
        }),
{
}

/// An encoder can be used only where its description has a line that begins, behind
/// white space, with the whole name of the property.
pub proof fn law_only_usable(text: String)
    requires
        usable(Some(text)),
    ensures
        exists|k: int|
            0 <= k < lines_of(text@).len() && begins_with_aud(#[trigger] lines_of(text@)[k]),
{
    let k = choose|k: int| 0 <= k < lines_of(text@).len() && names_aud(#[trigger] lines_of(text@)[k]);
    lemma_begins_with_aud(lines_of(text@)[k]);
}

/// Behind its white space, a line begins with `aud` and a blank.
pub open spec fn begins_with_aud(line: Seq<char>) -> bool {
    exists|g: int|
        0 <= g && g + 4 <= line.len() && #[trigger] line.subrange(g, g + 4) == seq![
            'a',
            'u',
            'd',
            ' ',
        ] && forall|i: int| 0 <= i < g ==> white(#[trigger] line[i])
}

/// A line that names the property begins with it.
proof fn lemma_begins_with_aud(line: Seq<char>)
    requires
        names_aud(line),
    ensures
        begins_with_aud(line),
    decreases line.len(),
{
    reveal_strlit("aud ");
    assert("aud "@ =~= seq!['a', 'u', 'd', ' ']);
    if line.len() > 0 && white(line[0]) {
        let t = line.skip(1);
        lemma_begins_with_aud(t);
        let g = choose|g: int|
            0 <= g && g + 4 <= t.len() && #[trigger] t.subrange(g, g + 4) == seq!['a', 'u', 'd', ' ']
                && forall|i: int| 0 <= i < g ==> white(#[trigger] t[i]);
        assert(line.subrange(g + 1, g + 5) =~= t.subrange(g, g + 4));
        assert forall|i: int| 0 <= i < g + 1 implies white(#[trigger] line[i]) by {
            if i > 0 {
                assert(line[i] == t[i - 1]);
            }
        }
        assert(line.subrange(g + 1, g + 1 + 4) == seq!['a', 'u', 'd', ' ']);
    } else {
        assert(line.subrange(0, 4) == seq!['a', 'u', 'd', ' ']);
    }
}

/// An encoder that is none of the list gets the bit rate alone, and no profile.
pub proof fn law_other_encoders(name: Seq<char>, kbps: u32, gop: u32)
    requires
        !encoder_list().contains(name),
    ensures
        encoder_properties(name, kbps, gop) == seq!["bitrate="@ + dec(kbps as nat)],
        profile_of(name) is None,
{
    assert(encoder_list()[0] == "nvh264enc"@ && encoder_list()[1] == "vah264enc"@);
    assert(encoder_list()[2] == "vah264lpenc"@ && encoder_list()[3] == "x264enc"@);
}

/// No encoder is tried twice: there are as many as can be used.
pub proof fn law_candidate_number(reports: Seq<Option<String>>, n: int)
    requires
        0 <= n,
    ensures
        usable_below(reports, 0).len() == 0,
        usable(reports[n]) ==> usable_below(reports, n + 1).len() == usable_below(reports, n).len()
            + 1,
        !usable(reports[n]) ==> usable_below(reports, n + 1).len() == usable_below(reports, n).len(),
{
}

} // verus!
