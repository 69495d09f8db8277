//! The control panel, apart from how it looks: its settings, the stream that it
//! runs as a child process, and the texts that it shows.

use crate::cli::{law_mode_roundtrip, mode_of, mode_text};
use crate::screencast::{numbered_index, place_of, MonitorInfo};
use crate::text::{
    dec, dec_int, decimal, followed, labelled, push_dec, push_dec_int, push_string, push_text,
    stands_at, tagged, texts,
};
use crate::vdd::OutputInfo;
use std::collections::VecDeque;
use vstd::prelude::*;
use vstd::string::StringExecFns;

verus! {

/// The display modes of the virtual screen that can be chosen: a label, what is
/// handed to `--mode`, and the number of pixels.
pub open spec fn mode_table() -> Seq<(Seq<char>, Option<Seq<char>>, u64)> {
    seq![
        ("Sürücü varsayılanı (1080p)"@, None, 2073600u64),
        ("1080p — 1920x1080@60"@, Some("1920x1080@60"@), 2073600u64),
        ("2K — 2560x1440@60"@, Some("2560x1440@60"@), 3686400u64),
        ("4K — 3840x2160@60"@, Some("3840x2160@60"@), 8294400u64),
    ]
}

/// How many display modes there are.
pub const MODE_COUNT: usize = 4;

/// The number of a mode, held to those that exist.
pub open spec fn mode_number(index: usize) -> int {
    if index < MODE_COUNT {
        index as int
    } else {
        MODE_COUNT - 1
    }
}

/// The label of a mode.
pub fn mode_label(index: usize) -> (r: &'static str)
    ensures
        r@ == mode_table()[mode_number(index)].0,
{
    if index == 0 {
        "Sürücü varsayılanı (1080p)"
    } else if index == 1 {
        "1080p — 1920x1080@60"
    } else if index == 2 {
        "2K — 2560x1440@60"
    } else {
        "4K — 3840x2160@60"
    }
}

/// What is handed to `--mode`, if anything.
pub fn mode_argument(index: usize) -> (r: Option<&'static str>)
    ensures
        r is Some <==> mode_table()[mode_number(index)].1 is Some,
        r matches Some(m) ==> mode_table()[mode_number(index)].1 == Some(m@),
{
    if index == 0 {
        None
    } else if index == 1 {
        Some("1920x1080@60")
    } else if index == 2 {
        Some("2560x1440@60")
    } else {
        Some("3840x2160@60")
    }
}

/// The number of pixels of a mode.
pub fn mode_pixels(index: usize) -> (r: u64)
    ensures
        r == mode_table()[mode_number(index)].2,
{
    if index <= 1 {
        2073600
    } else if index == 2 {
        3686400
    } else {
        8294400
    }
}

/// The number of pixels of a picture.
pub open spec fn area(w: u32, h: u32) -> int {
    w * h
}

/// Every mode that the panel hands over can be read by the stream, and has as many
/// pixels as the panel counts on.
pub proof fn law_modes_readable(i: int)
    requires
        1 <= i < MODE_COUNT,
    ensures
        mode_table()[i].1 matches Some(text) && (mode_of(text) matches Ok((w, h, hz)) && area(w, h)
            == mode_table()[i].2 && hz == 60),
{
    assert(area(1920, 1080) == 2073600);
    assert(area(2560, 1440) == 3686400);
    assert(area(3840, 2160) == 8294400);
    reveal_with_fuel(dec, 5);
    reveal_strlit("1920x1080@60");
    reveal_strlit("2560x1440@60");
    reveal_strlit("3840x2160@60");
    assert("1920x1080@60"@ =~= mode_text(1920, 1080, 60));
    assert("2560x1440@60"@ =~= mode_text(2560, 1440, 60));
    assert("3840x2160@60"@ =~= mode_text(3840, 2160, 60));
    law_mode_roundtrip(1920, 1080, 60);
    law_mode_roundtrip(2560, 1440, 60);
    law_mode_roundtrip(3840, 2160, 60);
}

/// A ready-made bit rate.
pub struct Tier {
    pub name: &'static str,
    pub mbps: u32,
}

/// The bit rates for a picture at 60 frames a second, in Mbit/s.
pub open spec fn base_rates(pixels: u64) -> (int, int, int) {
    if pixels >= 8294400 {
        (20, 35, 50)
    } else if pixels >= 3686400 {
        (12, 25, 40)
    } else {
        (8, 15, 25)
    }
}

/// A bit rate at another frame rate: up to 30 frames a second take 65 percent of
/// it, rounded to the nearest. It is never below 4.
pub open spec fn tier_rate(base: int, fps: u32) -> int {
    let v = if fps <= 30 {
        (base * 65 + 50) / 100
    } else {
        base
    };
    if v < 4 {
        4
    } else {
        v
    }
}

/// A bit rate at another frame rate.
fn scaled_rate(base: u32, fps: u32) -> (r: u32)
    requires
        base <= 1000,
    ensures
        r == tier_rate(base as int, fps),
{
    let v: u32 = if fps <= 30 {
        (base * 65 + 50) / 100
    } else {
        base
    };
    if v < 4 {
        4
    } else {
        v
    }
}

/// The ready-made bit rates for a picture and a frame rate.
pub fn tiers_for(pixels: u64, fps: u32) -> (r: [Tier; 3])
    ensures
        r@[0].name@ == "Tasarruf"@,
        r@[1].name@ == "Dengeli"@,
        r@[2].name@ == "Kalite"@,
        r@[0].mbps == tier_rate(base_rates(pixels).0, fps),
        r@[1].mbps == tier_rate(base_rates(pixels).1, fps),
        r@[2].mbps == tier_rate(base_rates(pixels).2, fps),
{
    let (a, b, c): (u32, u32, u32) = if pixels >= 8294400 {
        (20, 35, 50)
    } else if pixels >= 3686400 {
        (12, 25, 40)
    } else {
        (8, 15, 25)
    };
    [
        Tier { name: "Tasarruf", mbps: scaled_rate(a, fps) },
        Tier { name: "Dengeli", mbps: scaled_rate(b, fps) },
        Tier { name: "Kalite", mbps: scaled_rate(c, fps) },
    ]
}

/// The ready-made bit rates rise, and fit the slider, which goes from 4 to 60.
pub proof fn law_tiers_rise(pixels: u64, fps: u32)
    ensures
        ({
            let b = base_rates(pixels);
            4 <= tier_rate(b.0, fps) < tier_rate(b.1, fps) < tier_rate(b.2, fps) <= 60
        }),
{
}

/// More pixels or more frames never get a lower bit rate.
pub proof fn law_tiers_monotone(p: u64, q: u64, f: u32, g: u32)
    requires
        p <= q,
        f <= g,
    ensures
        tier_rate(base_rates(p).0, f) <= tier_rate(base_rates(q).0, g),
        tier_rate(base_rates(p).1, f) <= tier_rate(base_rates(q).1, g),
        tier_rate(base_rates(p).2, f) <= tier_rate(base_rates(q).2, g),
{
}

/// How a tier is written on its button.
pub fn tier_label(t: &Tier) -> (r: String)
    ensures
        r@ == t.name@ + " · "@ + dec(t.mbps as nat) + " Mb/s"@,
{
    let mut r = tagged(t.name, " · ");
    push_dec(&mut r, t.mbps as u64);
    r.append(" Mb/s");
    r
}

/// A monitor that can be mirrored.
pub struct MonitorEntry {
    pub label: String,
    pub output_index: u32,
    pub pixels: u64,
}

impl View for MonitorEntry {
    type V = (Seq<char>, u32, u64);

    open spec fn view(&self) -> (Seq<char>, u32, u64) {
        (self.label@, self.output_index, self.pixels)
    }
}

/// The entries of a list.
pub open spec fn entry_views(v: Seq<MonitorEntry>) -> Seq<(Seq<char>, u32, u64)> {
    v.map_values(|e: MonitorEntry| e@)
}

/// A side of at least one.
pub open spec fn at_least_one(side: int) -> int {
    if side < 1 {
        1
    } else {
        side
    }
}

/// The entry of a monitor: its number from one on, its size, and whether it is the
/// primary one.
pub open spec fn entry_of(index: u32, w: int, h: int, primary: bool) -> (Seq<char>, u32, u64) {
    (
        "Monitör "@ + dec((index + 1) as nat) + " — "@ + dec_int(w) + "x"@ + dec_int(h) + (
        if primary {
            " (birincil)"@
        } else {
            ""@
        }),
        index,
        (at_least_one(w) * at_least_one(h)) as u64,
    )
}

/// The entry of a monitor.
fn entry(index: u32, w: i32, h: i32, primary: bool) -> (r: MonitorEntry)
    requires
        index < u32::MAX,
    ensures
        r@ == entry_of(index, w as int, h as int, primary),
{
    let mut label = labelled("Monitör ", index as u64 + 1);
    label.append(" — ");
    push_dec_int(&mut label, w as i64);
    label.append("x");
    push_dec_int(&mut label, h as i64);
    if primary {
        label.append(" (birincil)");
    } else {
        label.append("");
    }
    let a: u64 = if w < 1 {
        1
    } else {
        w as u64
    };
    let b: u64 = if h < 1 {
        1
    } else {
        h as u64
    };
    assert(a * b <= 0x7fff_ffff * 0x7fff_ffff) by (nonlinear_arith)
        requires
            a <= 0x7fff_ffff,
            b <= 0x7fff_ffff,
    ;
    MonitorEntry { label, output_index: index, pixels: a * b }
}

/// An output that can be listed.
pub open spec fn listable(o: OutputInfo) -> bool {
    o.rect.measurable() && o.output_index < u32::MAX
}

/// The entries of the first `n` outputs, of the main adapter alone.
pub open spec fn output_entries(outputs: Seq<OutputInfo>, n: int) -> Seq<(Seq<char>, u32, u64)>
    decreases n,
{
    if n <= 0 {
        Seq::empty()
    } else {
        let o = outputs[n - 1];
        let before = output_entries(outputs, n - 1);
        if o.adapter_index == 0 {
            before.push(
                entry_of(
                    o.output_index,
                    o.rect.right - o.rect.left,
                    o.rect.bottom - o.rect.top,
                    o.rect.left == 0 && o.rect.top == 0,
                ),
            )
        } else {
            before
        }
    }
}

/// The monitors that can be mirrored on Windows: the outputs of the main adapter.
/// The one at the origin is the primary one.
pub fn list_monitors(outputs: &Vec<OutputInfo>) -> (r: Vec<MonitorEntry>)
    requires
        forall|i: int|
            0 <= i < outputs@.len() && outputs@[i].adapter_index == 0 ==> listable(
                #[trigger] outputs@[i],
            ),
    ensures
        entry_views(r@) == output_entries(outputs@, outputs@.len() as int),
{
    let mut r: Vec<MonitorEntry> = Vec::new();
    let mut i: usize = 0;
    assert(entry_views(r@) =~= output_entries(outputs@, 0));
    while i < outputs.len()
        invariant
            i <= outputs@.len(),
            forall|i: int|
                0 <= i < outputs@.len() && outputs@[i].adapter_index == 0 ==> listable(
                    #[trigger] outputs@[i],
                ),
            entry_views(r@) == output_entries(outputs@, i as int),
        decreases outputs@.len() - i,
    {
        let ghost before = entry_views(r@);
        let o = &outputs[i];
        if o.adapter_index == 0 {
            assert(listable(outputs@[i as int]));
            let rect = o.rect;
            let e = entry(
                o.output_index,
                rect.right - rect.left,
                rect.bottom - rect.top,
                rect.left == 0 && rect.top == 0,
            );
            let ghost view = e@;
            r.push(e);
            assert(entry_views(r@) =~= before.push(view));
        }
        i += 1;
    }
    r
}

/// The entries of the first `n` monitors in the order of their numbers.
pub open spec fn monitor_entries(monitors: Seq<MonitorInfo>, n: int) -> Seq<
    (Seq<char>, u32, u64),
>
    decreases n,
{
    if n <= 0 {
        Seq::empty()
    } else {
        let m = monitors[numbered_index(monitors, n - 1)];
        monitor_entries(monitors, n - 1).push(
            entry_of(
                (n - 1) as u32,
                m.rect.right - m.rect.left,
                m.rect.bottom - m.rect.top,
                m.primary,
            ),
        )
    }
}

/// The monitors that can be mirrored on Linux, under the numbers by which the
/// command line chooses them.
pub fn list_plugs(monitors: &Vec<MonitorInfo>) -> (r: Vec<MonitorEntry>)
    requires
        monitors@.len() < u32::MAX,
        forall|i: int| 0 <= i < monitors@.len() ==> (#[trigger] monitors@[i]).rect.measurable(),
    ensures
        entry_views(r@) == monitor_entries(monitors@, monitors@.len() as int),
{
    let mut r: Vec<MonitorEntry> = Vec::new();
    let mut i: usize = 0;
    assert(entry_views(r@) =~= monitor_entries(monitors@, 0));
    while i < monitors.len()
        invariant
            i <= monitors@.len() < u32::MAX,
            forall|i: int|
                0 <= i < monitors@.len() ==> (#[trigger] monitors@[i]).rect.measurable(),
            entry_views(r@) == monitor_entries(monitors@, i as int),
        decreases monitors@.len() - i,
    {
        let ghost before = entry_views(r@);
        let m = &monitors[place_of(monitors, i)];
        assert(m.rect.measurable());
        let rect = m.rect;
        let e = entry(i as u32, rect.right - rect.left, rect.bottom - rect.top, m.primary);
        let ghost view = e@;
        r.push(e);
        assert(entry_views(r@) =~= before.push(view));
        i += 1;
    }
    r
}

/// The panel offers the monitors in the order and under the numbers by which the
/// command line chooses them: entry number `k` is that of monitor number `k`.
pub proof fn law_entry_numbers(monitors: Seq<MonitorInfo>, n: int, k: int)
    requires
        0 <= k < n <= monitors.len(),
        n <= u32::MAX,
    ensures
        monitor_entries(monitors, n).len() == n,
        monitor_entries(monitors, n)[k].1 == k,
        ({
            let m = monitors[numbered_index(monitors, k)];
            monitor_entries(monitors, n)[k] == entry_of(
                k as u32,
                m.rect.right - m.rect.left,
                m.rect.bottom - m.rect.top,
                m.primary,
            )
        }),
    decreases n,
{
    lemma_entry_count(monitors, n);
    lemma_entry_count(monitors, n - 1);
    if k < n - 1 {
        law_entry_numbers(monitors, n - 1, k);
    }
}

/// Every monitor has an entry.
proof fn lemma_entry_count(monitors: Seq<MonitorInfo>, n: int)
    requires
        0 <= n,
    ensures
        monitor_entries(monitors, n).len() == n,
    decreases n,
{
    if n > 0 {
        lemma_entry_count(monitors, n - 1);
    }
}

/// The settings of the panel.
#[derive(Clone, Copy, Debug, PartialEq, Eq, Structural)]
pub struct GuiConfig {
    /// Make the television a second screen.
    pub extend: bool,
    pub mode_index: usize,
    /// In Mbit/s.
    pub bitrate: u32,
    pub fps: u32,
    pub audio: bool,
    /// Sound from the television alone.
    pub tv_audio: bool,
    pub cursor_follow: bool,
    pub port: u16,
    /// The monitor to mirror.
    pub output_index: u32,
}

impl Default for GuiConfig {
    fn default() -> (r: GuiConfig)
        ensures
            r == (GuiConfig {
                extend: true,
                mode_index: 1,
                bitrate: 12,
                fps: 60,
                audio: true,
                tv_audio: true,
                cursor_follow: true,
                port: 47000,
                output_index: 0,
            }),
    {
        GuiConfig {
            extend: true,
            mode_index: 1,
            bitrate: 12,
            fps: 60,
            audio: true,
            tv_audio: true,
            cursor_follow: true,
            port: 47000,
            output_index: 0,
        }
    }
}

/// The pixels of the monitor with an index, from entry `i` on; full HD where there
/// is none.
pub open spec fn monitor_pixels(monitors: Seq<MonitorEntry>, index: u32, i: int) -> u64
    decreases monitors.len() - i,
{
    if i < 0 || i >= monitors.len() {
        2073600
    } else if monitors[i].output_index == index {
        monitors[i].pixels
    } else {
        monitor_pixels(monitors, index, i + 1)
    }
}

/// The pixels of what will be streamed: the virtual screen, or the monitor that is
/// mirrored.
pub fn source_pixels(cfg: &GuiConfig, monitors: &Vec<MonitorEntry>) -> (r: u64)
    ensures
        r == (if cfg.extend {
            mode_table()[mode_number(cfg.mode_index)].2
        } else {
            monitor_pixels(monitors@, cfg.output_index, 0)
        }),
{
    if cfg.extend {
        return mode_pixels(cfg.mode_index);
    }
    let mut i: usize = 0;
    while i < monitors.len()
        invariant
            i <= monitors@.len(),
            !cfg.extend,
            monitor_pixels(monitors@, cfg.output_index, 0) == monitor_pixels(
                monitors@,
                cfg.output_index,
                i as int,
            ),
        decreases monitors@.len() - i,
    {
        if monitors[i].output_index == cfg.output_index {
            return monitors[i].pixels;
        }
        i += 1;
    }
    2073600
}

/// The label of the monitor with an index, from entry `i` on; a request to choose one
/// where there is none.
pub open spec fn monitor_label(monitors: Seq<MonitorEntry>, index: u32, i: int) -> Seq<char>
    decreases monitors.len() - i,
{
    if i < 0 || i >= monitors.len() {
        "Monitör seç"@
    } else if monitors[i].output_index == index {
        monitors[i].label@
    } else {
        monitor_label(monitors, index, i + 1)
    }
}

/// What the panel shows as the monitor that is mirrored.
pub fn current_label(cfg: &GuiConfig, monitors: &Vec<MonitorEntry>) -> (r: String)
    ensures
        r@ == monitor_label(monitors@, cfg.output_index, 0),
{
    let mut i: usize = 0;
    while i < monitors.len()
        invariant
            i <= monitors@.len(),
            monitor_label(monitors@, cfg.output_index, 0) == monitor_label(
                monitors@,
                cfg.output_index,
                i as int,
            ),
        decreases monitors@.len() - i,
    {
        if monitors[i].output_index == cfg.output_index {
            return monitors[i].label.clone();
        }
        i += 1;
    }
    "Monitör seç".to_owned()
}

/// What is streamed.
pub open spec fn screen_args(cfg: GuiConfig) -> Seq<Seq<char>> {
    if cfg.extend {
        match mode_table()[mode_number(cfg.mode_index)].1 {
            Some(mode) => seq!["--extend"@, "--mode"@, mode],
            None => seq!["--extend"@],
        }
    } else {
        seq!["--output"@, dec(cfg.output_index as nat)]
    }
}

/// What becomes of the sound.
pub open spec fn audio_args(cfg: GuiConfig) -> Seq<Seq<char>> {
    if !cfg.audio {
        seq!["--no-audio"@]
    } else if cfg.tv_audio {
        seq!["--tv-audio"@]
    } else {
        Seq::empty()
    }
}

/// The arguments of the stream.
pub open spec fn stream_arguments(cfg: GuiConfig) -> Seq<Seq<char>> {
    seq![
        "--managed"@,
        "--bind"@,
        "0.0.0.0:"@ + dec(cfg.port as nat),
        "--bitrate"@,
        dec(cfg.bitrate as nat),
        "--fps"@,
        dec(cfg.fps as nat),
    ] + screen_args(cfg) + audio_args(cfg) + (if cfg.cursor_follow {
        seq!["--cursor-follow"@]
    } else {
        Seq::empty()
    })
}

/// The arguments of the stream.
pub fn stream_args(cfg: &GuiConfig) -> (r: Vec<String>)
    ensures
        texts(r@) == stream_arguments(*cfg),
{
    let mut args: Vec<String> = Vec::new();
    push_text(&mut args, "--managed");
    push_text(&mut args, "--bind");
    push_string(&mut args, labelled("0.0.0.0:", cfg.port as u64));
    push_text(&mut args, "--bitrate");
    push_string(&mut args, decimal(cfg.bitrate as u64));
    push_text(&mut args, "--fps");
    push_string(&mut args, decimal(cfg.fps as u64));
    let ghost front = texts(args@);
    if cfg.extend {
        push_text(&mut args, "--extend");
        if let Some(mode) = mode_argument(cfg.mode_index) {
            push_text(&mut args, "--mode");
            push_text(&mut args, mode);
        }
    } else {
        push_text(&mut args, "--output");
        push_string(&mut args, decimal(cfg.output_index as u64));
    }
    assert(texts(args@) =~= front + screen_args(*cfg));
    let ghost middle = texts(args@);
    if !cfg.audio {
        push_text(&mut args, "--no-audio");
    } else if cfg.tv_audio {
        push_text(&mut args, "--tv-audio");
    }
    assert(texts(args@) =~= middle + audio_args(*cfg));
    if cfg.cursor_follow {
        push_text(&mut args, "--cursor-follow");
    }
    assert(texts(args@) =~= stream_arguments(*cfg));
    args
}

/// How many lines of the log the panel keeps.
pub const LOG_LINES: usize = 400;

/// The lines that the panel keeps of a log.
pub open spec fn kept(lines: Seq<Seq<char>>) -> Seq<Seq<char>> {
    if lines.len() > LOG_LINES {
        lines.skip(lines.len() - LOG_LINES)
    } else {
        lines
    }
}

/// The log of the panel.
pub struct Log {
    pub lines: VecDeque<String>,
}

impl View for Log {
    type V = Seq<Seq<char>>;

    open spec fn view(&self) -> Seq<Seq<char>> {
        texts(self.lines@)
    }
}

impl Log {
    /// An empty log.
    pub fn new() -> (r: Log)
        ensures
            r@ == Seq::<Seq<char>>::empty(),
    {
        let r = Log { lines: VecDeque::new() };
        assert(r@ =~= Seq::<Seq<char>>::empty());
        r
    }

    /// Appends a line, in the place of the oldest one where the log is full.
    pub fn push(&mut self, line: String)
        ensures
            old(self)@.len() <= LOG_LINES ==> final(self)@ == kept(old(self)@.push(line@)),
            old(self)@.len() >= LOG_LINES ==> final(self)@ == old(self)@.skip(1).push(line@),
            old(self)@.len() < 400 ==> final(self)@ == old(self)@.push(line@),
            old(self)@.len() == 400 ==> final(self)@.len() == 400,
            final(self)@.last() == line@,
    {
        let ghost before = self.lines@;
        let ghost text = line@;
        assert(texts(before).len() == before.len());
        if self.lines.len() >= LOG_LINES {
            let _ = self.lines.pop_front();
            assert(texts(self.lines@) =~= texts(before).skip(1));
        }
        let ghost middle = self.lines@;
        self.lines.push_back(line);
        assert(texts(self.lines@) =~= texts(middle).push(text));
        assert(texts(before).len() == LOG_LINES ==> texts(before).push(text).skip(1) =~= texts(
            before,
        ).skip(1).push(text));
    }
}

/// What a log holds after the lines were pushed into an empty one.
pub open spec fn logged(lines: Seq<Seq<char>>) -> Seq<Seq<char>>
    decreases lines.len(),
{
    if lines.len() == 0 {
        Seq::empty()
    } else {
        kept(logged(lines.drop_last()).push(lines.last()))
    }
}

/// The panel shows the newest lines, however many there were.
pub proof fn law_log_newest(lines: Seq<Seq<char>>)
    ensures
        logged(lines) == kept(lines),
        logged(lines).len() <= LOG_LINES,
    decreases lines.len(),
{
    if lines.len() > 0 {
        law_log_newest(lines.drop_last());
        assert(logged(lines) =~= kept(lines));
    }
}

/// How long a stream may take to end before it is killed, in milliseconds.
pub const STOP_LIMIT_MS: u64 = 4000;

/// How often a stream is looked at as the panel closes, and the pause after each
/// look, in milliseconds.
pub const SHUTDOWN_POLLS: u32 = 30;

pub const SHUTDOWN_PAUSE_MS: u64 = 100;

/// The stream, as the panel knows it.
#[derive(Clone, Copy, Debug, PartialEq, Eq, Structural)]
pub struct Stream {
    pub running: bool,
    /// It has been asked to end.
    pub stopping: bool,
}

/// What a look at the stream leads to.
#[derive(Clone, Copy, Debug, PartialEq, Eq, Structural)]
pub enum PollAction {
    Nothing,
    /// It has ended: let go of it.
    Closed,
    /// It does not end by itself: kill it.
    Kill,
}

impl Stream {
    /// No stream.
    pub fn new() -> (r: Stream)
        ensures
            r == (Stream { running: false, stopping: false }),
    {
        Stream { running: false, stopping: false }
    }

    /// A stream was started.
    pub fn started(&mut self)
        ensures
            *final(self) == (Stream { running: true, stopping: false }),
    {
        self.running = true;
        self.stopping = false;
    }

    /// The stream is asked to end, by the end of its input.
    pub fn request_stop(&mut self)
        ensures
            *final(self) == (Stream { running: old(self).running, stopping: true }),
    {
        self.stopping = true;
    }

    /// A look at the stream: whether it has ended, and how long ago it was asked
    /// to.
    pub fn poll(&mut self, exited: bool, stopping_ms: u64) -> (r: PollAction)
        ensures
            r == (if old(self).running && exited {
                PollAction::Closed
            } else if old(self).running && old(self).stopping && stopping_ms > STOP_LIMIT_MS {
                PollAction::Kill
            } else {
                PollAction::Nothing
            }),
            *final(self) == (match r {
                PollAction::Closed => Stream { running: false, stopping: false },
                PollAction::Kill => Stream { running: true, stopping: false },
                PollAction::Nothing => *old(self),
            }),
            r == PollAction::Kill <==> old(self).running && old(self).stopping && !exited
                && stopping_ms > 4000,
    {
        if !self.running {
            return PollAction::Nothing;
        }
        if exited {
            self.running = false;
            self.stopping = false;
            return PollAction::Closed;
        }
        if self.stopping && stopping_ms > STOP_LIMIT_MS {
            self.stopping = false;
            return PollAction::Kill;
        }
        PollAction::Nothing
    }

    /// The state that the panel shows.
    pub fn status(&self) -> (r: &'static str)
        ensures
            r@ == (if self.stopping {
                "● Durduruluyor…"@
            } else if self.running {
                "● Yayında"@
            } else {
                "● Hazır"@
            }),
    {
        if self.stopping {
            "● Durduruluyor…"
        } else if self.running {
            "● Yayında"
        } else {
            "● Hazır"
        }
    }
}

/// What a look at the stream leads to as the panel closes.
#[derive(Clone, Copy, Debug, PartialEq, Eq, Structural)]
pub enum ShutdownStep {
    /// It has ended.
    Gone,
    /// Pause, and look again.
    Wait,
    Kill,
}

/// What a look at the stream leads to as the panel closes: `poll` looks have been
/// taken before. A look that is one too many only kills.
pub fn shutdown_step(poll: u32, exited: bool) -> (r: ShutdownStep)
    ensures
        r == (if poll >= SHUTDOWN_POLLS {
            ShutdownStep::Kill
        } else if exited {
            ShutdownStep::Gone
        } else {
            ShutdownStep::Wait
        }),
        r == ShutdownStep::Kill <==> poll >= 30,
        30 * SHUTDOWN_PAUSE_MS == 3000,
{
    if poll >= SHUTDOWN_POLLS {
        ShutdownStep::Kill
    } else if exited {
        ShutdownStep::Gone
    } else {
        ShutdownStep::Wait
    }
}

/// Whether the panel warns that sound for the television alone is not possible
/// yet.
pub fn sink_missing(cfg: &GuiConfig, available: bool) -> (r: bool)
    ensures
        r == (cfg.audio && cfg.tv_audio && !available),
{
    cfg.audio && cfg.tv_audio && !available
}

/// Whether the panel warns that a second screen is not possible yet.
pub fn driver_missing(cfg: &GuiConfig, installed: bool) -> (r: bool)
    ensures
        r == (cfg.extend && !installed),
{
    cfg.extend && !installed
}

/// Whether a device has to be looked for again: an installation has just ended.
pub fn installation_ended(before: bool, now: bool) -> (r: bool)
    ensures
        r == (before && !now),
{
    before && !now
}

/// The bandwidth that should be free for a bit rate: half as much again, rounded
/// to the nearest.
pub open spec fn bandwidth(bitrate: u32) -> int {
    (3 * bitrate + 1) / 2
}

/// What the panel says about the network.
pub fn network_hint(bitrate: u32) -> (r: String)
    ensures
        r@ == "Ağda ~"@ + dec(bandwidth(bitrate) as nat) + " Mb/s boş bant olmalı"@ + (if bitrate
            >= 30 {
            " — bu hızda TV'de Ethernet önerilir"@
        } else {
            ""@
        }),
{
    let mut r = labelled("Ağda ~", (3 * bitrate as u64 + 1) / 2);
    r.append(" Mb/s boş bant olmalı");
    if bitrate >= 30 {
        r.append(" — bu hızda TV'de Ethernet önerilir");
    } else {
        r.append("");
    }
    r
}

/// Where the stream can be watched.
pub fn watch_url(ip: &str, port: u16) -> (r: String)
    ensures
        r@ == "http://"@ + ip@ + ":"@ + dec(port as nat) + "/"@,
{
    let mut r = tagged("http://", ip);
    r.append(":");
    push_dec(&mut r, port as u64);
    r.append("/");
    r
}

/// The modes that can be chosen are the driver's own, and those of 1080, 1440 and 2160
/// lines at 60 Hz; a number behind the last one stands for the last.
pub proof fn law_mode_choices(index: usize)
    ensures
        mode_table().len() == 4,
        mode_number(index) == (if index < 4 {
            index as int
        } else {
            3
        }),
        mode_table()[0].1 is None,
        mode_table()[1].1 == Some("1920x1080@60"@),
        mode_table()[2].1 == Some("2560x1440@60"@),
        mode_table()[3].1 == Some("3840x2160@60"@),
        mode_table()[0].2 == area(1920, 1080),
        mode_table()[1].2 == area(1920, 1080),
        mode_table()[2].2 == area(2560, 1440),
        mode_table()[3].2 == area(3840, 2160),
{
    assert(area(1920, 1080) == 2073600);
    assert(area(2560, 1440) == 3686400);
    assert(area(3840, 2160) == 8294400);
}

/// The bit rates go by the number of pixels: a picture below 2560x1440, one below
/// 3840x2160, and a larger one. Up to 30 frames a second take 65 percent, to the
/// nearest Mbit/s.
pub proof fn law_tier_values(pixels: u64, fps: u32, base: int)
    requires
        8 <= base,
    ensures
        pixels < 2560 * 1440 ==> base_rates(pixels) == (8int, 15int, 25int),
        2560 * 1440 <= pixels < 3840 * 2160 ==> base_rates(pixels) == (12int, 25int, 40int),
        pixels >= 3840 * 2160 ==> base_rates(pixels) == (20int, 35int, 50int),
        fps > 30 ==> tier_rate(base, fps) == base,
        fps <= 30 ==> -50 < 100 * tier_rate(base, fps) - 65 * base <= 50,
{
}

/// An entry of the panel names its monitor from one on, gives its size, and says
/// whether it is the primary one; it counts the pixels of a proper size, and stands
/// for the output with its index.
pub proof fn law_entry(index: u32, w: int, h: int, primary: bool)
    requires
        1 <= w <= 0x7fff_ffff,
        1 <= h <= 0x7fff_ffff,
    ensures
        ({
            let e = entry_of(index, w, h, primary);
            &&& primary ==> e.0 == "Monitör "@ + dec((index + 1) as nat) + " — "@ + dec(w as nat)
                + "x"@ + dec(h as nat) + " (birincil)"@
            &&& !primary ==> e.0 == "Monitör "@ + dec((index + 1) as nat) + " — "@ + dec(w as nat)
                + "x"@ + dec(h as nat)
            &&& e.1 == index
            &&& e.2 == w * h
        }),
{
    reveal_strlit("");
    let e = entry_of(index, w, h, primary);
    if !primary {
        assert(e.0 =~= "Monitör "@ + dec((index + 1) as nat) + " — "@ + dec(w as nat) + "x"@ + dec(
            h as nat,
        ));
    }
    assert(0 <= w * h <= 0x7fff_ffff * 0x7fff_ffff) by (nonlinear_arith)
        requires
            1 <= w <= 0x7fff_ffff,
            1 <= h <= 0x7fff_ffff,
    ;
}

/// The panel on Windows offers the outputs of the main adapter, each of them, and no
/// other; the one whose corner is the origin is the primary one.
pub proof fn law_main_adapter_offered(outputs: Seq<OutputInfo>, n: int)
    requires
        0 <= n <= outputs.len(),
    ensures
        forall|k: int|
            0 <= k < n && (#[trigger] outputs[k]).adapter_index == 0 ==> output_entries(
                outputs,
                n,
            ).contains(offered(outputs[k])),
        forall|e: int|
            0 <= e < output_entries(outputs, n).len() ==> stems_from(
                outputs,
                n,
                #[trigger] output_entries(outputs, n)[e],
            ),
    decreases n,
{
    if n > 0 {
        law_main_adapter_offered(outputs, n - 1);
        let before = output_entries(outputs, n - 1);
        let all = output_entries(outputs, n);
        assert forall|k: int| 0 <= k < n && (
        #[trigger] outputs[k]).adapter_index == 0 implies all.contains(offered(outputs[k])) by {
            if k < n - 1 {
                assert(before.contains(offered(outputs[k])));
                let j = choose|j: int| 0 <= j < before.len() && before[j] == offered(outputs[k]);
                assert(all[j] == before[j]);
            } else {
                assert(all[before.len() as int] == offered(outputs[k]));
            }
        }
        assert forall|e: int| 0 <= e < all.len() implies stems_from(
            outputs,
            n,
            #[trigger] all[e],
        ) by {
            if e < before.len() {
                assert(all[e] == before[e]);
                assert(stems_from(outputs, n - 1, before[e]));
                let k = choose|k: int|
                    0 <= k < n - 1 && outputs[k].adapter_index == 0 && before[e] == offered(
                        #[trigger] outputs[k],
                    );
                assert(all[e] == offered(outputs[k]));
            } else {
                assert(all[e] == offered(outputs[n - 1]));
            }
        }
    }
}

/// An entry is that of one of the first `n` outputs, on the main adapter.
pub open spec fn stems_from(
    outputs: Seq<OutputInfo>,
    n: int,
    entry: (Seq<char>, u32, u64),
) -> bool {
    exists|k: int|
        0 <= k < n && outputs[k].adapter_index == 0 && entry == offered(#[trigger] outputs[k])
}

/// The entry of an output of the main adapter.
pub open spec fn offered(o: OutputInfo) -> (Seq<char>, u32, u64) {
    entry_of(
        o.output_index,
        o.rect.right - o.rect.left,
        o.rect.bottom - o.rect.top,
        o.rect.left == 0 && o.rect.top == 0,
    )
}

/// What is shown and counted of the chosen monitor is that of the first entry with
/// its index; where none has it, full HD is counted, and a choice is asked for.
pub proof fn law_chosen_monitor(monitors: Seq<MonitorEntry>, index: u32, k: int)
    requires
        0 <= k <= monitors.len(),
        forall|j: int| 0 <= j < k ==> (#[trigger] monitors[j]).output_index != index,
        k < monitors.len() ==> monitors[k].output_index == index,
    ensures
        k < monitors.len() ==> monitor_pixels(monitors, index, 0) == monitors[k].pixels
            && monitor_label(monitors, index, 0) == monitors[k].label@,
        k == monitors.len() ==> monitor_pixels(monitors, index, 0) == 1920 * 1080
            && monitor_label(monitors, index, 0) == "Monitör seç"@,
{
    lemma_chosen_from(monitors, index, 0, k);
}

/// Entries with another index are passed over.
proof fn lemma_chosen_from(monitors: Seq<MonitorEntry>, index: u32, i: int, k: int)
    requires
        0 <= i <= k <= monitors.len(),
        forall|j: int| 0 <= j < k ==> (#[trigger] monitors[j]).output_index != index,
    ensures
        monitor_pixels(monitors, index, i) == monitor_pixels(monitors, index, k),
        monitor_label(monitors, index, i) == monitor_label(monitors, index, k),
    decreases k - i,
{
    if i < k {
        lemma_chosen_from(monitors, index, i + 1, k);
    }
}

/// The stream is started with every setting of the panel: under its control, on the
/// chosen port of all addresses, with the bit rate and the frame rate, with the screen
/// that was chosen, with the sound as it was chosen, and with the cursor as it was
/// chosen.
pub proof fn law_settings_handed_over(cfg: GuiConfig)
    ensures
        ({
            let args = stream_arguments(cfg);
            &&& args[0] == "--managed"@
            &&& followed(args, "--bind"@, "0.0.0.0:"@ + dec(cfg.port as nat))
            &&& followed(args, "--bitrate"@, dec(cfg.bitrate as nat))
            &&& followed(args, "--fps"@, dec(cfg.fps as nat))
            &&& cfg.extend ==> args[7] == "--extend"@
            &&& cfg.extend && cfg.mode_index == 1 ==> followed(args, "--mode"@, "1920x1080@60"@)
            &&& cfg.extend && cfg.mode_index == 2 ==> followed(args, "--mode"@, "2560x1440@60"@)
            &&& cfg.extend && cfg.mode_index >= 3 ==> followed(args, "--mode"@, "3840x2160@60"@)
            &&& !cfg.extend ==> followed(args, "--output"@, dec(cfg.output_index as nat))
            &&& !cfg.audio ==> args.contains("--no-audio"@)
            &&& cfg.audio && cfg.tv_audio ==> args.contains("--tv-audio"@)
            &&& cfg.cursor_follow ==> args.last() == "--cursor-follow"@
            &&& args.len() == 7 + (if cfg.extend && cfg.mode_index == 0 {
                1int
            } else if cfg.extend {
                3int
            } else {
                2int
            }) + (if cfg.audio && !cfg.tv_audio {
                0int
            } else {
                1int
            }) + (if cfg.cursor_follow {
                1int
            } else {
                0int
            })
        }),
{
    let args = stream_arguments(cfg);
    assert(stands_at(args, "--bind"@, "0.0.0.0:"@ + dec(cfg.port as nat), 1));
    assert(stands_at(args, "--bitrate"@, dec(cfg.bitrate as nat), 3));
    assert(stands_at(args, "--fps"@, dec(cfg.fps as nat), 5));
    let screen = screen_args(cfg);
    assert forall|j: int| 0 <= j < screen.len() implies #[trigger] args[7 + j] == screen[j] by {}
    assert(args[7] == screen[0]);
    if cfg.extend {
        if cfg.mode_index > 0 {
            assert(args[8] == screen[1] && args[9] == screen[2]);
            assert(stands_at(args, "--mode"@, screen[2], 8));
        }
    } else {
        assert(args[8] == screen[1]);
        assert(stands_at(args, "--output"@, dec(cfg.output_index as nat), 7));
    }
    let n = 7 + screen.len();
    if !cfg.audio {
        assert(args[n as int] == "--no-audio"@);
    } else if cfg.tv_audio {
        assert(args[n as int] == "--tv-audio"@);
    }
}

/// Half as much bandwidth again as the bit rate should be free; half a Mbit/s is
/// rounded up.
pub proof fn law_bandwidth(bitrate: u32)
    ensures
        3 * bitrate <= 2 * bandwidth(bitrate) <= 3 * bitrate + 1,
{
}

/// The output at the origin is offered as the primary monitor, and any other without
/// the word; each stands for the output with its own index.
pub proof fn law_primary_output(o: OutputInfo, w: int, h: int)
    requires
        w == o.rect.right - o.rect.left,
        h == o.rect.bottom - o.rect.top,
        1 <= w <= 0x7fff_ffff,
        1 <= h <= 0x7fff_ffff,
    ensures
        ({
            let plain = "Monitör "@ + dec((o.output_index + 1) as nat) + " — "@ + dec(w as nat)
                + "x"@ + dec(h as nat);
            &&& o.rect.left == 0 && o.rect.top == 0 ==> offered(o).0 == plain + " (birincil)"@
            &&& o.rect.left != 0 || o.rect.top != 0 ==> offered(o).0 == plain
            &&& offered(o).1 == o.output_index
            &&& offered(o).2 == w * h
        }),
{
    law_entry(o.output_index, w, h, o.rect.left == 0 && o.rect.top == 0);
}

/// The panel on Windows offers the outputs in their order, each once.
pub proof fn law_outputs_in_order(outputs: Seq<OutputInfo>, n: int)
    requires
        0 <= n < outputs.len(),
    ensures
        output_entries(outputs, 0).len() == 0,
        outputs[n].adapter_index == 0 ==> output_entries(outputs, n + 1) == output_entries(
            outputs,
            n,
        ).push(offered(outputs[n])),
        outputs[n].adapter_index != 0 ==> output_entries(outputs, n + 1) == output_entries(
            outputs,
            n,
        ),
{
}

/// A side below one counts as one pixel.
pub proof fn law_entry_of_nothing(index: u32, w: int, h: int, primary: bool)
    requires
        w < 1,
        h <= 0x7fff_ffff,
    ensures
        entry_of(index, w, h, primary).2 == (if h < 1 {
            1
        } else {
            h
        }),
        entry_of(index, h, w, primary).2 == entry_of(index, w, h, primary).2,
{
}

} // verus!
