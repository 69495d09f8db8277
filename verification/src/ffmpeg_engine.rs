//! Capture and encoding on Windows: what an `ffmpeg` process is asked to do, and
//! which `ffmpeg` is used.
//!
//! The process captures an output with `ddagrab`, encodes it and writes raw
//! Annex-B H.264 to its standard output. The encoders are tried in the order
//! NVENC, QuickSync, AMF, software.

use crate::engine::PipelineConfig;
use crate::text::{
    dec, decimal, followed, labelled, lacks, lemma_dec_lacks, lemma_lacks, occurs, occurs_at,
    optional, push_all, push_dec, push_string, push_text, stands_at, starts_with, texts,
};
use vstd::prelude::*;
use vstd::string::StringExecFns;

verus! {

/// How many encoders there are.
pub const ENCODER_COUNT: usize = 4;

/// The encoders, in order of preference, each with its own arguments.
pub open spec fn encoder_table() -> Seq<(Seq<char>, Seq<Seq<char>>)> {
    seq![
        (
            "h264_nvenc"@,
            seq![
                "-preset"@,
                "p1"@,
                "-tune"@,
                "ll"@,
                "-delay"@,
                "0"@,
                "-forced-idr"@,
                "1"@,
            ],
        ),
        ("h264_qsv"@, seq!["-preset"@, "veryfast"@]),
        ("h264_amf"@, seq!["-usage"@, "lowlatency"@]),
        ("libx264"@, seq!["-preset"@, "ultrafast"@, "-tune"@, "zerolatency"@]),
    ]
}

/// The name of an encoder.
pub fn encoder_name(encoder: usize) -> (r: &'static str)
    requires
        encoder < ENCODER_COUNT,
    ensures
        r@ == encoder_table()[encoder as int].0,
{
    if encoder == 0 {
        "h264_nvenc"
    } else if encoder == 1 {
        "h264_qsv"
    } else if encoder == 2 {
        "h264_amf"
    } else {
        "libx264"
    }
}

/// The arguments that only one encoder takes.
pub fn encoder_extra(encoder: usize) -> (r: Vec<String>)
    requires
        encoder < ENCODER_COUNT,
    ensures
        texts(r@) == encoder_table()[encoder as int].1,
{
    let mut v: Vec<String> = Vec::new();
    if encoder == 0 {
        push_text(&mut v, "-preset");
        push_text(&mut v, "p1");
        push_text(&mut v, "-tune");
        push_text(&mut v, "ll");
        push_text(&mut v, "-delay");
        push_text(&mut v, "0");
        push_text(&mut v, "-forced-idr");
        push_text(&mut v, "1");
    } else if encoder == 1 {
        push_text(&mut v, "-preset");
        push_text(&mut v, "veryfast");
    } else if encoder == 2 {
        push_text(&mut v, "-usage");
        push_text(&mut v, "lowlatency");
    } else {
        push_text(&mut v, "-preset");
        push_text(&mut v, "ultrafast");
        push_text(&mut v, "-tune");
        push_text(&mut v, "zerolatency");
    }
    assert(texts(v@) =~= encoder_table()[encoder as int].1);
    v
}

/// The capture filter: the output, the frame rate, and no mouse pointer, which
/// viewers draw themselves.
pub open spec fn grab_filter(cfg: PipelineConfig) -> Seq<char> {
    "ddagrab=output_idx="@ + dec(cfg.output_index as nat) + ":framerate="@ + dec(cfg.fps as nat)
        + ":draw_mouse=0"@
}

/// What stands before the encoder's name. An output of another adapter than the
/// main one needs the device named.
pub open spec fn input_list(cfg: PipelineConfig) -> Seq<Seq<char>> {
    seq!["-hide_banner"@, "-loglevel"@, "warning"@] + (if cfg.adapter_index > 0 {
        seq![
            "-init_hw_device"@,
            "d3d11va=dd:"@ + dec(cfg.adapter_index as nat),
            "-filter_hw_device"@,
            "dd"@,
        ]
    } else {
        Seq::empty()
    }) + seq!["-f"@, "lavfi"@, "-i"@, grab_filter(cfg), "-c:v"@]
}

/// What stands before the encoder's name.
fn input(cfg: &PipelineConfig) -> (r: Vec<String>)
    ensures
        texts(r@) == input_list(*cfg),
{
    let mut filter = labelled("ddagrab=output_idx=", cfg.output_index as u64);
    filter.append(":framerate=");
    push_dec(&mut filter, cfg.fps as u64);
    filter.append(":draw_mouse=0");
    let mut v: Vec<String> = Vec::new();
    push_text(&mut v, "-hide_banner");
    push_text(&mut v, "-loglevel");
    push_text(&mut v, "warning");
    if cfg.adapter_index > 0 {
        push_text(&mut v, "-init_hw_device");
        push_string(&mut v, labelled("d3d11va=dd:", cfg.adapter_index as u64));
        push_text(&mut v, "-filter_hw_device");
        push_text(&mut v, "dd");
    }
    push_text(&mut v, "-f");
    push_text(&mut v, "lavfi");
    push_text(&mut v, "-i");
    push_string(&mut v, filter);
    push_text(&mut v, "-c:v");
    assert(texts(v@) =~= input_list(*cfg));
    v
}

/// The filter behind the capture: the light stream is made smaller, and what
/// comes from another adapter goes through system memory.
pub open spec fn scale_list(cfg: PipelineConfig, lite: bool) -> Seq<Seq<char>> {
    if lite {
        seq![
            "-vf"@,
            "hwdownload,format=bgra,scale=1920:-2:flags=fast_bilinear,format=bgr0"@,
        ]
    } else if cfg.adapter_index > 0 {
        seq!["-vf"@, "hwdownload,format=bgra,format=bgr0"@]
    } else {
        Seq::empty()
    }
}

/// The filter behind the capture.
fn scale(cfg: &PipelineConfig, lite: bool) -> (r: Vec<String>)
    ensures
        texts(r@) == scale_list(*cfg, lite),
{
    let mut v: Vec<String> = Vec::new();
    if lite {
        push_text(&mut v, "-vf");
        push_text(
            &mut v,
            "hwdownload,format=bgra,scale=1920:-2:flags=fast_bilinear,format=bgr0",
        );
    } else if cfg.adapter_index > 0 {
        push_text(&mut v, "-vf");
        push_text(&mut v, "hwdownload,format=bgra,format=bgr0");
    }
    assert(texts(v@) =~= scale_list(*cfg, lite));
    v
}

/// The rate and the form of the output. No B frames, a key frame in each second,
/// and an access unit delimiter before each picture.
pub open spec fn output_list(cfg: PipelineConfig) -> Seq<Seq<char>> {
    seq![
        "-bf"@,
        "0"@,
        "-g"@,
        dec(cfg.fps as nat),
        "-b:v"@,
        dec(cfg.bitrate_bps as nat),
        "-maxrate"@,
        dec(cfg.bitrate_bps as nat),
        "-bufsize"@,
        dec((cfg.bitrate_bps / 2) as nat),
        "-bsf:v"@,
        "h264_metadata=aud=insert"@,
        "-f"@,
        "h264"@,
        "-"@,
    ]
}

/// The rate and the form of the output.
fn output(cfg: &PipelineConfig) -> (r: Vec<String>)
    ensures
        texts(r@) == output_list(*cfg),
{
    let mut v: Vec<String> = Vec::new();
    push_text(&mut v, "-bf");
    push_text(&mut v, "0");
    push_text(&mut v, "-g");
    push_string(&mut v, decimal(cfg.fps as u64));
    push_text(&mut v, "-b:v");
    push_string(&mut v, decimal(cfg.bitrate_bps as u64));
    push_text(&mut v, "-maxrate");
    push_string(&mut v, decimal(cfg.bitrate_bps as u64));
    push_text(&mut v, "-bufsize");
    push_string(&mut v, decimal((cfg.bitrate_bps / 2) as u64));
    push_text(&mut v, "-bsf:v");
    push_text(&mut v, "h264_metadata=aud=insert");
    push_text(&mut v, "-f");
    push_text(&mut v, "h264");
    push_text(&mut v, "-");
    assert(texts(v@) =~= output_list(*cfg));
    v
}

/// The arguments of the encoding process.
pub open spec fn launch_args(cfg: PipelineConfig, encoder: int, lite: bool) -> Seq<Seq<char>> {
    input_list(cfg) + seq![encoder_table()[encoder].0] + encoder_table()[encoder].1 + scale_list(
        cfg,
        lite,
    ) + output_list(cfg)
}

/// The arguments of the encoding process.
pub fn attempt_args(cfg: &PipelineConfig, encoder: usize, lite: bool) -> (r: Vec<String>)
    requires
        encoder < ENCODER_COUNT,
    ensures
        texts(r@) == launch_args(*cfg, encoder as int, lite),
{
    let mut args = input(cfg);
    push_text(&mut args, encoder_name(encoder));
    assert(texts(args@) =~= input_list(*cfg) + seq![encoder_table()[encoder as int].0]);
    push_all(&mut args, &encoder_extra(encoder));
    push_all(&mut args, &scale(cfg, lite));
    push_all(&mut args, &output(cfg));
    args
}

/// The size of the picture: what is captured, where that is known, else the
/// primary screen.
pub fn picture_size(cfg: &PipelineConfig, screen: (u32, u32)) -> (r: (u32, u32))
    ensures
        r == (match cfg.capture_size {
            Some(size) => size,
            None => screen,
        }),
{
    match cfg.capture_size {
        Some(size) => size,
        None => screen,
    }
}

/// A file that `ffmpeg` may be in.
pub struct Candidate {
    pub path: String,
    pub exists: bool,
}

/// A directory of installed packages, with the places in it where `ffmpeg` may
/// be, in the order in which they were listed.
pub struct Package {
    pub name: String,
    pub places: Vec<Candidate>,
}

/// The first place that exists, from number `i` on.
pub open spec fn first_place(places: Seq<Candidate>, i: int) -> Option<Seq<char>>
    decreases places.len() - i,
{
    if i < 0 || i >= places.len() {
        None
    } else if places[i].exists {
        Some(places[i].path@)
    } else {
        first_place(places, i + 1)
    }
}

/// The first place that exists in a package of `ffmpeg`, from package `i` on.
pub open spec fn first_package(packages: Seq<Package>, i: int) -> Option<Seq<char>>
    decreases packages.len() - i,
{
    if i < 0 || i >= packages.len() {
        None
    } else if occurs_at(packages[i].name@, "Gyan.FFmpeg"@, 0) && first_place(
        packages[i].places@,
        0,
    ) is Some {
        first_place(packages[i].places@, 0)
    } else {
        first_package(packages, i + 1)
    }
}

/// Which `ffmpeg` is used: the one that the search path gives, else the linked
/// one, else one out of an installed package, else the embedded one.
pub open spec fn ffmpeg_choice(
    on_path: bool,
    link: Option<Candidate>,
    packages: Seq<Package>,
    embedded: Option<Seq<char>>,
) -> Option<Seq<char>> {
    if on_path {
        Some("ffmpeg"@)
    } else if link is Some && link->0.exists {
        Some(link->0.path@)
    } else if first_package(packages, 0) is Some {
        first_package(packages, 0)
    } else {
        embedded
    }
}

/// The first place that exists.
fn find_place(places: &Vec<Candidate>) -> (r: Option<String>)
    ensures
        optional(r) == first_place(places@, 0),
{
    let mut i: usize = 0;
    while i < places.len()
        invariant
            i <= places@.len(),
            first_place(places@, 0) == first_place(places@, i as int),
        decreases places@.len() - i,
    {
        if places[i].exists {
            return Some(places[i].path.clone());
        }
        i += 1;
    }
    None
}

/// Which `ffmpeg` is used. `link` is the place of the linked one, where it is
/// known; `packages` lists the installed packages.
pub fn find_ffmpeg(
    on_path: bool,
    link: Option<Candidate>,
    packages: &Vec<Package>,
    embedded: Option<String>,
) -> (r: Option<String>)
    ensures
        optional(r) == ffmpeg_choice(on_path, link, packages@, optional(embedded)),
{
    if on_path {
        return Some("ffmpeg".to_owned());
    }
    if let Some(l) = link {
        if l.exists {
            return Some(l.path);
        }
    }
    let mut i: usize = 0;
    while i < packages.len()
        invariant
            i <= packages@.len(),
            !on_path,
            link is None || !link->0.exists,
            first_package(packages@, 0) == first_package(packages@, i as int),
        decreases packages@.len() - i,
    {
        if starts_with(packages[i].name.as_str(), "Gyan.FFmpeg") {
            let place = find_place(&packages[i].places);
            if place.is_some() {
                return place;
            }
        }
        i += 1;
    }
    embedded
}

/// Whether the embedded `ffmpeg` has to be written: not where a file of its
/// length is there already.
pub fn must_extract(cached: Option<u64>, length: u64) -> (r: bool)
    ensures
        r == (cached != Some(length)),
{
    match cached {
        Some(n) => n != length,
        None => true,
    }
}

/// Whether the extracted file can be used: also where it could not be written but
/// is there.
pub fn extracted(written: bool, exists: bool) -> (r: bool)
    ensures
        r == (written || exists),
{
    written || exists
}

/// The light stream is made smaller, whichever the adapter, the output and the
/// encoder are: it is scaled to a width of 1920.
pub proof fn law_light_stream_scaled(cfg: PipelineConfig, encoder: int)
    requires
        0 <= encoder < 4,
    ensures
        ({
            let args = launch_args(cfg, encoder, true);
            exists|k: int|
                0 <= k && k + 1 < args.len() && #[trigger] args[k] == "-vf"@ && occurs(
                    args[k + 1],
                    "scale=1920:-2"@,
                )
        }),
{
    let args = launch_args(cfg, encoder, true);
    let k = (input_list(cfg).len() + 1 + encoder_table()[encoder].1.len()) as int;
    reveal_strlit("hwdownload,format=bgra,scale=1920:-2:flags=fast_bilinear,format=bgr0");
    reveal_strlit("scale=1920:-2");
    let filter = "hwdownload,format=bgra,scale=1920:-2:flags=fast_bilinear,format=bgr0"@;
    assert(args[k] == "-vf"@);
    assert(args[k + 1] == filter);
    assert(filter.subrange(23, 36) =~= "scale=1920:-2"@);
    assert(occurs_at(filter, "scale=1920:-2"@, 23));
}

/// An argument that speaks of no scale, as it lacks one of two letters.
spec fn no_scale(s: Seq<char>) -> bool {
    lacks(s, 's') || lacks(s, 'c')
}

/// A joint text lacks what its parts lack.
proof fn lemma_joint_lacks(a: Seq<char>, b: Seq<char>, c: char)
    requires
        lacks(a, c),
        lacks(b, c),
    ensures
        lacks(a + b, c),
{
    assert forall|i: int| 0 <= i < (a + b).len() implies #[trigger] (a + b)[i] != c by {
        if i < a.len() {
            assert((a + b)[i] == a[i]);
        } else {
            assert((a + b)[i] == b[i - a.len()]);
        }
    }
}

/// The capture filter speaks of no scale.
proof fn lemma_grab_filter(cfg: PipelineConfig)
    ensures
        no_scale(grab_filter(cfg)),
        grab_filter(cfg).len() > 0,
        grab_filter(cfg)[0] == 'd',
{
    reveal_strlit("ddagrab=output_idx=");
    reveal_strlit(":framerate=");
    reveal_strlit(":draw_mouse=0");
    lemma_dec_lacks(cfg.output_index as nat, 'c');
    lemma_dec_lacks(cfg.fps as nat, 'c');
    let a = "ddagrab=output_idx="@ + dec(cfg.output_index as nat);
    lemma_joint_lacks("ddagrab=output_idx="@, dec(cfg.output_index as nat), 'c');
    lemma_joint_lacks(a, ":framerate="@, 'c');
    lemma_joint_lacks(a + ":framerate="@, dec(cfg.fps as nat), 'c');
    lemma_joint_lacks(a + ":framerate="@ + dec(cfg.fps as nat), ":draw_mouse=0"@, 'c');
}

/// What stands before the encoder's name speaks of no scale.
proof fn lemma_input_plain(cfg: PipelineConfig, k: int)
    requires
        0 <= k < input_list(cfg).len(),
    ensures
        no_scale(input_list(cfg)[k]),
        input_list(cfg)[k] != "-vf"@,
{
    reveal_strlit("-vf");
    reveal_strlit("-hide_banner");
    reveal_strlit("-loglevel");
    reveal_strlit("warning");
    reveal_strlit("-init_hw_device");
    reveal_strlit("d3d11va=dd:");
    reveal_strlit("-filter_hw_device");
    reveal_strlit("dd");
    reveal_strlit("-f");
    reveal_strlit("lavfi");
    reveal_strlit("-i");
    reveal_strlit("-c:v");
    lemma_grab_filter(cfg);
    lemma_dec_lacks(cfg.adapter_index as nat, 's');
    lemma_joint_lacks("d3d11va=dd:"@, dec(cfg.adapter_index as nat), 's');
    assert(("d3d11va=dd:"@ + dec(cfg.adapter_index as nat))[0] == 'd');
    assert("-vf"@[0] == '-');
}

/// The encoder's name and its own arguments speak of no scale.
proof fn lemma_encoder_plain(encoder: int, k: int)
    requires
        0 <= encoder < 4,
        0 <= k < encoder_table()[encoder].1.len(),
    ensures
        no_scale(encoder_table()[encoder].0),
        encoder_table()[encoder].0 != "-vf"@,
        no_scale(encoder_table()[encoder].1[k]),
        encoder_table()[encoder].1[k] != "-vf"@,
{
    reveal_strlit("-vf");
    reveal_strlit("h264_nvenc");
    reveal_strlit("h264_qsv");
    reveal_strlit("h264_amf");
    reveal_strlit("libx264");
    reveal_strlit("-preset");
    reveal_strlit("p1");
    reveal_strlit("-tune");
    reveal_strlit("ll");
    reveal_strlit("-delay");
    reveal_strlit("0");
    reveal_strlit("-forced-idr");
    reveal_strlit("1");
    reveal_strlit("veryfast");
    reveal_strlit("-usage");
    reveal_strlit("lowlatency");
    reveal_strlit("ultrafast");
    reveal_strlit("zerolatency");
    assert(encoder_table()[encoder].0.len() != "-vf"@.len());
    assert(encoder_table()[encoder].1[k].len() != "-vf"@.len());
}

/// The arguments behind the filter speak of no scale.
proof fn lemma_output_plain(cfg: PipelineConfig, k: int)
    requires
        0 <= k < output_list(cfg).len(),
    ensures
        no_scale(output_list(cfg)[k]),
        output_list(cfg)[k] != "-vf"@,
{
    reveal_strlit("-vf");
    reveal_strlit("-bf");
    reveal_strlit("0");
    reveal_strlit("-g");
    reveal_strlit("-b:v");
    reveal_strlit("-maxrate");
    reveal_strlit("-bufsize");
    reveal_strlit("-bsf:v");
    reveal_strlit("h264_metadata=aud=insert");
    reveal_strlit("-f");
    reveal_strlit("h264");
    reveal_strlit("-");
    lemma_dec_lacks(cfg.fps as nat, 's');
    lemma_dec_lacks(cfg.bitrate_bps as nat, 's');
    lemma_dec_lacks((cfg.bitrate_bps / 2) as nat, 's');
    lemma_dec_lacks(cfg.fps as nat, '-');
    lemma_dec_lacks(cfg.bitrate_bps as nat, '-');
    lemma_dec_lacks((cfg.bitrate_bps / 2) as nat, '-');
    assert("-vf"@[0] == '-');
    assert("-vf"@[1] == 'v');
}

/// The full stream is not made smaller: no argument speaks of a scale, whichever the
/// adapter, the output and the encoder are, and on the main adapter there is no filter
/// at all.
pub proof fn law_full_stream_not_scaled(cfg: PipelineConfig, encoder: int, k: int)
    requires
        0 <= encoder < 4,
        0 <= k < launch_args(cfg, encoder, false).len(),
    ensures
        !occurs(launch_args(cfg, encoder, false)[k], "scale"@),
        cfg.adapter_index == 0 ==> launch_args(cfg, encoder, false)[k] != "-vf"@,
{
    let arg = launch_args(cfg, encoder, false)[k];
    let a = input_list(cfg);
    let e = encoder_table()[encoder];
    let f = scale_list(cfg, false);
    let o = output_list(cfg);
    let n = a.len() as int;
    let m = n + 1 + e.1.len();
    lemma_encoder_plain(encoder, 0);
    if k < n {
        lemma_input_plain(cfg, k);
        assert(arg == a[k]);
    } else if k == n {
        assert(arg == e.0);
    } else if k < m {
        lemma_encoder_plain(encoder, k - n - 1);
        assert(arg == e.1[k - n - 1]);
    } else if k < m + f.len() {
        assert(arg == f[k - m]);
        reveal_strlit("-vf");
        reveal_strlit("hwdownload,format=bgra,format=bgr0");
    } else {
        lemma_output_plain(cfg, k - m - f.len());
        assert(arg == o[k - m - f.len()]);
    }
    assert(no_scale(arg));
    reveal_strlit("scale");
    if lacks(arg, 's') {
        lemma_lacks(arg, "scale"@, 0);
    } else {
        lemma_lacks(arg, "scale"@, 1);
    }
}

/// What every stream is asked for, whichever the encoder is and whether it is light or
/// full: the chosen output at the chosen rate and without the pointer, a key frame in
/// each second, no frame that waits for a later one, the chosen bit rate at most, a
/// delimiter before each picture, and raw H.264 on the standard output.
pub proof fn law_stream_options(cfg: PipelineConfig, encoder: int, lite: bool)
    requires
        0 <= encoder < 4,
    ensures
        ({
            let args = launch_args(cfg, encoder, lite);
            &&& followed(
                args,
                "-i"@,
                "ddagrab=output_idx="@ + dec(cfg.output_index as nat) + ":framerate="@ + dec(
                    cfg.fps as nat,
                ) + ":draw_mouse=0"@,
            )
            &&& followed(args, "-g"@, dec(cfg.fps as nat))
            &&& followed(args, "-bf"@, "0"@)
            &&& followed(args, "-b:v"@, dec(cfg.bitrate_bps as nat))
            &&& followed(args, "-maxrate"@, dec(cfg.bitrate_bps as nat))
            &&& followed(args, "-bufsize"@, dec((cfg.bitrate_bps / 2) as nat))
            &&& followed(args, "-bsf:v"@, "h264_metadata=aud=insert"@)
            &&& followed(args, "-f"@, "h264"@)
            &&& args.last() == "-"@
        }),
{
    let args = launch_args(cfg, encoder, lite);
    let n = input_list(cfg).len() as int;
    let o = args.len() - output_list(cfg).len();
    assert forall|j: int| 0 <= j < output_list(cfg).len() implies #[trigger] args[o + j]
        == output_list(cfg)[j] by {}
    assert(args[o + 0] == "-bf"@ && args[o + 1] == "0"@);
    assert(args[o + 2] == "-g"@ && args[o + 3] == dec(cfg.fps as nat));
    assert(args[o + 4] == "-b:v"@ && args[o + 5] == dec(cfg.bitrate_bps as nat));
    assert(args[o + 6] == "-maxrate"@ && args[o + 7] == dec(cfg.bitrate_bps as nat));
    assert(args[o + 8] == "-bufsize"@ && args[o + 9] == dec((cfg.bitrate_bps / 2) as nat));
    assert(args[o + 10] == "-bsf:v"@ && args[o + 11] == "h264_metadata=aud=insert"@);
    assert(args[o + 12] == "-f"@ && args[o + 13] == "h264"@);
    assert(args[o + 14] == "-"@);
    assert(args[n - 3] == "-i"@ && args[n - 2] == grab_filter(cfg));
    assert(stands_at(args, "-i"@, grab_filter(cfg), n - 3));
    assert(stands_at(args, "-bf"@, "0"@, o));
    assert(stands_at(args, "-g"@, dec(cfg.fps as nat), o + 2));
    assert(stands_at(args, "-b:v"@, dec(cfg.bitrate_bps as nat), o + 4));
    assert(stands_at(args, "-maxrate"@, dec(cfg.bitrate_bps as nat), o + 6));
    assert(stands_at(args, "-bufsize"@, dec((cfg.bitrate_bps / 2) as nat), o + 8));
    assert(stands_at(args, "-bsf:v"@, "h264_metadata=aud=insert"@, o + 10));
    assert(stands_at(args, "-f"@, "h264"@, o + 12));
}

/// An output of another adapter is captured on that adapter, and its pictures go
/// through system memory. On the main adapter no device is named.
pub proof fn law_adapter_named(cfg: PipelineConfig, encoder: int, lite: bool)
    requires
        0 <= encoder < 4,
    ensures
        ({
            let args = launch_args(cfg, encoder, lite);
            &&& cfg.adapter_index > 0 ==> followed(
                args,
                "-init_hw_device"@,
                "d3d11va=dd:"@ + dec(cfg.adapter_index as nat),
            ) && followed(args, "-filter_hw_device"@, "dd"@)
            &&& cfg.adapter_index > 0 && !lite ==> followed(
                args,
                "-vf"@,
                "hwdownload,format=bgra,format=bgr0"@,
            )
            &&& lite ==> followed(
                args,
                "-vf"@,
                "hwdownload,format=bgra,scale=1920:-2:flags=fast_bilinear,format=bgr0"@,
            )
            &&& cfg.adapter_index == 0 ==> args[3] == "-f"@ && args[4] == "lavfi"@
        }),
{
    let args = launch_args(cfg, encoder, lite);
    let n = input_list(cfg).len() as int;
    let m = n + 1 + encoder_table()[encoder].1.len();
    if cfg.adapter_index > 0 {
        assert(stands_at(
            args,
            "-init_hw_device"@,
            "d3d11va=dd:"@ + dec(cfg.adapter_index as nat),
            3,
        ));
        assert(stands_at(args, "-filter_hw_device"@, "dd"@, 5));
        if !lite {
            assert(stands_at(args, "-vf"@, "hwdownload,format=bgra,format=bgr0"@, m));
        }
    }
    if lite {
        assert(stands_at(
            args,
            "-vf"@,
            "hwdownload,format=bgra,scale=1920:-2:flags=fast_bilinear,format=bgr0"@,
            m,
        ));
    }
}

/// The encoders are tried with hardware first, in the order of NVENC, QuickSync and
/// AMF, and with software last; each is named behind `-c:v`, and told to hold nothing
/// back.
pub proof fn law_encoder_order(cfg: PipelineConfig, lite: bool)
    ensures
        followed(launch_args(cfg, 0, lite), "-c:v"@, "h264_nvenc"@),
        followed(launch_args(cfg, 0, lite), "-tune"@, "ll"@),
        followed(launch_args(cfg, 0, lite), "-delay"@, "0"@),
        followed(launch_args(cfg, 0, lite), "-preset"@, "p1"@),
        followed(launch_args(cfg, 0, lite), "-forced-idr"@, "1"@),
        followed(launch_args(cfg, 1, lite), "-c:v"@, "h264_qsv"@),
        followed(launch_args(cfg, 1, lite), "-preset"@, "veryfast"@),
        followed(launch_args(cfg, 2, lite), "-c:v"@, "h264_amf"@),
        followed(launch_args(cfg, 2, lite), "-usage"@, "lowlatency"@),
        followed(launch_args(cfg, 3, lite), "-c:v"@, "libx264"@),
        followed(launch_args(cfg, 3, lite), "-preset"@, "ultrafast"@),
        followed(launch_args(cfg, 3, lite), "-tune"@, "zerolatency"@),
        encoder_table().len() == 4,
{
    let n = input_list(cfg).len() as int;
    let a = launch_args(cfg, 0, lite);
    assert(stands_at(a, "-c:v"@, "h264_nvenc"@, n - 1));
    assert(stands_at(a, "-preset"@, "p1"@, n + 1));
    assert(stands_at(a, "-tune"@, "ll"@, n + 3));
    assert(stands_at(a, "-delay"@, "0"@, n + 5));
    assert(stands_at(a, "-forced-idr"@, "1"@, n + 7));
    let b = launch_args(cfg, 1, lite);
    assert(stands_at(b, "-c:v"@, "h264_qsv"@, n - 1));
    assert(stands_at(b, "-preset"@, "veryfast"@, n + 1));
    let c = launch_args(cfg, 2, lite);
    assert(stands_at(c, "-c:v"@, "h264_amf"@, n - 1));
    assert(stands_at(c, "-usage"@, "lowlatency"@, n + 1));
    let d = launch_args(cfg, 3, lite);
    assert(stands_at(d, "-c:v"@, "libx264"@, n - 1));
    assert(stands_at(d, "-preset"@, "ultrafast"@, n + 1));
    assert(stands_at(d, "-tune"@, "zerolatency"@, n + 3));
}

/// An `ffmpeg` that the search path gives is taken before any other; without one, the
/// linked one that is there; without that, the first that is there in a package whose
/// name begins with `Gyan.FFmpeg`; and only without that, the embedded one.
pub proof fn law_ffmpeg_order(
    link: Option<Candidate>,
    packages: Seq<Package>,
    embedded: Option<Seq<char>>,
    p: int,
    q: int,
)
    ensures
        ffmpeg_choice(true, link, packages, embedded) == Some("ffmpeg"@),
        link is Some && link->0.exists ==> ffmpeg_choice(false, link, packages, embedded) == Some(
            link->0.path@,
        ),
        !(link is Some && link->0.exists) && 0 <= p < packages.len() && 0 <= q
            < packages[p].places.len() && occurs_at(packages[p].name@, "Gyan.FFmpeg"@, 0)
            && packages[p].places[q].exists && (forall|j: int|
            0 <= j < q ==> !(#[trigger] packages[p].places[j]).exists) && (forall|i: int, j: int|
            0 <= i < p && 0 <= j < packages[i].places.len() && occurs_at(
                packages[i].name@,
                "Gyan.FFmpeg"@,
                0,
            ) ==> !(#[trigger] packages[i].places[j]).exists) ==> ffmpeg_choice(
            false,
            link,
            packages,
            embedded,
        ) == Some(packages[p].places[q].path@),
        !(link is Some && link->0.exists) && (forall|i: int, j: int|
            0 <= i < packages.len() && 0 <= j < packages[i].places.len() && occurs_at(
                packages[i].name@,
                "Gyan.FFmpeg"@,
                0,
            ) ==> !(#[trigger] packages[i].places[j]).exists) ==> ffmpeg_choice(
            false,
            link,
            packages,
            embedded,
        ) == embedded,
{
    if !(link is Some && link->0.exists) {
        if 0 <= p < packages.len() && 0 <= q < packages[p].places.len() && occurs_at(
            packages[p].name@,
            "Gyan.FFmpeg"@,
            0,
        ) && packages[p].places[q].exists && (forall|j: int|
            0 <= j < q ==> !(#[trigger] packages[p].places[j]).exists) && (forall|i: int, j: int|
            0 <= i < p && 0 <= j < packages[i].places.len() && occurs_at(
                packages[i].name@,
                "Gyan.FFmpeg"@,
                0,
            ) ==> !(#[trigger] packages[i].places[j]).exists) {
            lemma_first_place(packages[p].places@, 0, q);
            lemma_first_package(packages, 0, p);
        }
        if forall|i: int, j: int|
            0 <= i < packages.len() && 0 <= j < packages[i].places.len() && occurs_at(
                packages[i].name@,
                "Gyan.FFmpeg"@,
                0,
            ) ==> !(#[trigger] packages[i].places[j]).exists {
            lemma_first_package(packages, 0, packages.len() as int);
        }
    }
}

/// The first place that exists is found.
proof fn lemma_first_place(places: Seq<Candidate>, i: int, q: int)
    requires
        0 <= i <= q <= places.len(),
        forall|j: int| i <= j < q ==> !(#[trigger] places[j]).exists,
    ensures
        first_place(places, i) == first_place(places, q),
    decreases q - i,
{
    if i < q {
        lemma_first_place(places, i + 1, q);
    }
}

/// Packages without a place that exists are passed over.
proof fn lemma_first_package(packages: Seq<Package>, i: int, p: int)
    requires
        0 <= i <= p <= packages.len(),
        forall|k: int, j: int|
            i <= k < p && 0 <= j < packages[k].places.len() && occurs_at(
                packages[k].name@,
                "Gyan.FFmpeg"@,
                0,
            ) ==> !(#[trigger] packages[k].places[j]).exists,
    ensures
        first_package(packages, i) == first_package(packages, p),
    decreases p - i,
{
    if i < p {
        lemma_first_package(packages, i + 1, p);
        if occurs_at(packages[i].name@, "Gyan.FFmpeg"@, 0) {
            let places = packages[i].places@;
            assert forall|j: int| 0 <= j < places.len() implies !(#[trigger] places[j]).exists by {
                assert(!packages[i].places[j].exists);
            }
            lemma_first_place(places, 0, places.len() as int);
        }
    }
}

/// Nothing else is asked for: the arguments are as many as the options of a stream, of
/// its adapter, of its encoder and of its filter take.
pub proof fn law_no_other_options(cfg: PipelineConfig, encoder: int, lite: bool)
    requires
        0 <= encoder < 4,
    ensures
        ({
            let args = launch_args(cfg, encoder, lite);
            &&& args[0] == "-hide_banner"@
            &&& args[1] == "-loglevel"@
            &&& args[2] == "warning"@
            &&& followed(args, "-f"@, "lavfi"@)
            &&& args.len() == 24 + (if cfg.adapter_index > 0 {
                4int
            } else {
                0int
            }) + (if encoder == 0 {
                8int
            } else if encoder == 3 {
                4int
            } else {
                2int
            }) + (if lite || cfg.adapter_index > 0 {
                2int
            } else {
                0int
            })
        }),
{
    let args = launch_args(cfg, encoder, lite);
    let n = input_list(cfg).len() as int;
    assert(stands_at(args, "-f"@, "lavfi"@, n - 5));
}

} // verus!
