//! What the command line asks for.

use crate::engine::PipelineConfig;
use crate::text::{
    all_digits, dec, first_index, is_digit, is_text, law_number_of_dec, lemma_dec_digits,
    lemma_first_index, number, optional, parse_number, same, split_once, texts, trim, trimmed,
};
use crate::vdd::OutputInfo;
use vstd::prelude::*;

verus! {

/// Why a display mode cannot be read.
#[derive(Clone, Copy, Debug, PartialEq, Eq, Structural)]
pub enum ModeError {
    /// There is no `x` between a width and a height.
    Form,
    /// One of the three is no number.
    Number,
}

/// The part before the first `c`, and the part behind it.
pub open spec fn parts(s: Seq<char>, c: char) -> Option<(Seq<char>, Seq<char>)> {
    let k = first_index(s, c);
    if k < s.len() {
        Some((s.take(k), s.skip(k + 1)))
    } else {
        None
    }
}

/// A number with white space around it.
pub open spec fn spaced_number(s: Seq<char>) -> Option<u32> {
    number(trimmed(s))
}

/// The display mode that a text spells: width, `x`, height, and perhaps `@` and a
/// frequency, which is 60 otherwise.
pub open spec fn mode_of(s: Seq<char>) -> Result<(u32, u32, u32), ModeError> {
    let (size, hz) = match parts(s, '@') {
        Some((a, b)) => (a, b),
        None => (s, "60"@),
    };
    match parts(size, 'x') {
        None => Err(ModeError::Form),
        Some((w, h)) => match (spaced_number(w), spaced_number(h), spaced_number(hz)) {
            (Some(w), Some(h), Some(hz)) => Ok((w, h, hz)),
            _ => Err(ModeError::Number),
        },
    }
}

/// A number with white space around it.
fn parse_spaced(s: &str) -> (r: Option<u32>)
    ensures
        r == spaced_number(s@),
{
    let t = trim(s);
    parse_number(t.as_str())
}

/// Reads a display mode, such as `3840x2160@60` or `2560x1440`.
pub fn parse_mode(s: &str) -> (r: Result<(u32, u32, u32), ModeError>)
    ensures
        r == mode_of(s@),
{
    let (size, hz) = match split_once(s, '@') {
        Some((a, b)) => (a, b),
        None => (s.to_owned(), "60".to_owned()),
    };
    proof {
        lemma_first_index_bound(s@, '@');
        lemma_first_index_bound(size@, 'x');
    }
    match split_once(size.as_str(), 'x') {
        None => Err(ModeError::Form),
        Some((w, h)) => {
            let w = parse_spaced(w.as_str());
            let h = parse_spaced(h.as_str());
            let hz = parse_spaced(hz.as_str());
            match (w, h, hz) {
                (Some(w), Some(h), Some(hz)) => Ok((w, h, hz)),
                _ => Err(ModeError::Number),
            }
        },
    }
}

/// The first place of a character is in the text or right behind it.
proof fn lemma_first_index_bound(s: Seq<char>, c: char)
    ensures
        0 <= first_index(s, c) <= s.len(),
    decreases s.len(),
{
    if s.len() > 0 && s[0] != c {
        lemma_first_index_bound(s.skip(1), c);
    }
}

/// A display mode as a text.
pub open spec fn mode_text(w: u32, h: u32, hz: u32) -> Seq<char> {
    dec(w as nat) + seq!['x'] + dec(h as nat) + seq!['@'] + dec(hz as nat)
}

/// White space is no digit, so that a number has none around it.
proof fn lemma_digits_trimmed(s: Seq<char>)
    requires
        all_digits(s),
    ensures
        trimmed(s) == s,
{
    if s.len() > 0 {
        assert(is_digit(s[0]));
        assert(is_digit(s.last()));
    }
}

/// A character that is no digit does not stand in a run of digits.
proof fn lemma_behind_digits(a: Seq<char>, c: char, b: Seq<char>)
    requires
        all_digits(a),
        !is_digit(c),
    ensures
        parts(a + seq![c] + b, c) == Some((a, b)),
{
    let s = a + seq![c] + b;
    let k = a.len() as int;
    assert forall|j: int| 0 <= j < k implies s[j] != c by {
        assert(is_digit(a[j]));
    }
    lemma_first_index(s, c, k);
    assert(s.take(k) =~= a);
    assert(s.skip(k + 1) =~= b);
}

/// Every display mode can be asked for: its text is read back as it is.
pub proof fn law_mode_roundtrip(w: u32, h: u32, hz: u32)
    ensures
        mode_of(mode_text(w, h, hz)) == Ok::<(u32, u32, u32), ModeError>((w, h, hz)),
{
    let a = dec(w as nat);
    let b = dec(h as nat);
    let c = dec(hz as nat);
    lemma_dec_digits(w as nat);
    lemma_dec_digits(h as nat);
    lemma_dec_digits(hz as nat);
    law_number_of_dec(w);
    law_number_of_dec(h);
    law_number_of_dec(hz);
    lemma_digits_trimmed(a);
    lemma_digits_trimmed(b);
    lemma_digits_trimmed(c);
    let size = a + seq!['x'] + b;
    let s = mode_text(w, h, hz);
    assert(s =~= size + seq!['@'] + c);
    let k = size.len() as int;
    assert forall|j: int| 0 <= j < k implies s[j] != '@' by {
        if j < a.len() {
            assert(s[j] == a[j]);
            assert(is_digit(a[j]));
        } else if j > a.len() {
            assert(s[j] == b[j - a.len() - 1]);
            assert(is_digit(b[j - a.len() - 1]));
        }
    }
    lemma_first_index(s, '@', k);
    assert(s.take(k) =~= size);
    assert(s.skip(k + 1) =~= c);
    lemma_behind_digits(a, 'x', b);
}

/// A mode without a frequency is one at 60.
pub proof fn law_mode_default_frequency(w: u32, h: u32)
    ensures
        mode_of(dec(w as nat) + seq!['x'] + dec(h as nat)) == mode_of(mode_text(w, h, 60)),
{
    let a = dec(w as nat);
    let b = dec(h as nat);
    let size = a + seq!['x'] + b;
    lemma_dec_digits(w as nat);
    lemma_dec_digits(h as nat);
    law_number_of_dec(w);
    law_number_of_dec(h);
    lemma_digits_trimmed(a);
    lemma_digits_trimmed(b);
    law_mode_roundtrip(w, h, 60);
    assert forall|j: int| 0 <= j < size.len() implies size[j] != '@' by {
        if j < a.len() {
            assert(size[j] == a[j]);
            assert(is_digit(a[j]));
        } else if j > a.len() {
            assert(size[j] == b[j - a.len() - 1]);
            assert(is_digit(b[j - a.len() - 1]));
        }
    }
    lemma_first_index(size, '@', size.len() as int);
    lemma_behind_digits(a, 'x', b);
    reveal_strlit("60");
    reveal_with_fuel(dec, 3);
    assert("60"@ =~= dec(60));
    lemma_dec_digits(60);
    lemma_digits_trimmed("60"@);
    law_number_of_dec(60);
}

/// The panel opens where there are no arguments, as on a double click, or where it
/// is asked for.
pub open spec fn panel_wanted(argv: Seq<Seq<char>>) -> bool {
    argv.len() <= 1 || argv.contains("--gui"@)
}

/// Whether the panel opens. `argv` begins with the program's own name.
pub fn opens_panel(argv: &Vec<String>) -> (r: bool)
    ensures
        r == panel_wanted(texts(argv@)),
{
    assert(texts(argv@).len() == argv@.len());
    if argv.len() <= 1 {
        return true;
    }
    let mut i: usize = 0;
    while i < argv.len()
        invariant
            i <= argv@.len(),
            texts(argv@).len() == argv@.len(),
            forall|k: int| 0 <= k < i ==> #[trigger] texts(argv@)[k] != "--gui"@,
        decreases argv@.len() - i,
    {
        assert(texts(argv@)[i as int] == argv@[i as int]@);
        if same(argv[i].as_str(), "--gui") {
            return true;
        }
        i += 1;
    }
    false
}

/// A product, or the largest number where it does not fit.
pub open spec fn saturated(a: u32, b: u32) -> u32 {
    if a * b <= u32::MAX {
        (a * b) as u32
    } else {
        u32::MAX
    }
}

/// A product, or the largest number where it does not fit.
fn saturating(a: u32, b: u32) -> (r: u32)
    ensures
        r == saturated(a, b),
{
    match a.checked_mul(b) {
        Some(n) => n,
        None => u32::MAX,
    }
}

/// What the engine is asked for: `bitrate` in Mbit/s, `gop` in seconds.
pub fn pipeline_config(fps: u32, bitrate: u32, gop: u32, output: u32) -> (r: PipelineConfig)
    ensures
        r == (PipelineConfig {
            fps,
            bitrate_bps: saturated(bitrate, 1_000_000),
            gop_frames: saturated(gop, fps),
            output_index: output,
            adapter_index: 0,
            capture_size: None,
        }),
{
    PipelineConfig {
        fps,
        bitrate_bps: saturating(bitrate, 1_000_000),
        gop_frames: saturating(gop, fps),
        output_index: output,
        adapter_index: 0,
        capture_size: None,
    }
}

/// What the engine is asked for, with a virtual monitor as what is captured.
pub fn extended_config(cfg: &PipelineConfig, out: &OutputInfo) -> (r: PipelineConfig)
    requires
        out.rect.measurable(),
    ensures
        r == (PipelineConfig {
            output_index: out.output_index,
            adapter_index: out.adapter_index,
            capture_size: Some((out.rect.width_of() as u32, out.rect.height_of() as u32)),
            ..*cfg
        }),
{
    PipelineConfig {
        fps: cfg.fps,
        bitrate_bps: cfg.bitrate_bps,
        gop_frames: cfg.gop_frames,
        output_index: out.output_index,
        adapter_index: out.adapter_index,
        capture_size: Some((out.rect.width() as u32, out.rect.height() as u32)),
    }
}

/// What the engine is asked for, with the size of what is captured.
pub fn sized_config(cfg: &PipelineConfig, width: u32, height: u32) -> (r: PipelineConfig)
    ensures
        r == (PipelineConfig { capture_size: Some((width, height)), ..*cfg }),
{
    PipelineConfig {
        fps: cfg.fps,
        bitrate_bps: cfg.bitrate_bps,
        gop_frames: cfg.gop_frames,
        output_index: cfg.output_index,
        adapter_index: cfg.adapter_index,
        capture_size: Some((width, height)),
    }
}

/// Whether the session is a Wayland one, by two environment variables.
pub fn is_wayland(display: &Option<String>, session: &Option<String>) -> (r: bool)
    ensures
        r == (display is Some || optional(*session) == Some("wayland"@)),
{
    display.is_some() || is_text(session, "wayland")
}

/// The X11 display, by its environment variable.
pub fn x11_display(display: Option<String>) -> (r: String)
    ensures
        r@ == (match optional(display) {
            Some(name) => name,
            None => ":0"@,
        }),
{
    match display {
        Some(name) => name,
        None => ":0".to_owned(),
    }
}

/// Why a stream cannot be started as asked.
#[derive(Clone, Copy, Debug, PartialEq, Eq, Structural)]
pub enum PlanError {
    /// The engine exists on Windows alone.
    WindowsEngine,
    /// The way of capture does not exist.
    UnknownCapture,
    /// X11 has no virtual monitors.
    X11Extend,
    /// The display mode cannot be read.
    Mode(ModeError),
    /// There is no `ffmpeg`.
    NoFfmpeg,
    /// A virtual monitor needs `ffmpeg`, and there is none.
    ExtendNeedsFfmpeg,
}

/// What is captured on Linux.
#[derive(Clone, Copy, Debug, PartialEq, Eq, Structural)]
pub enum LinuxPlan {
    /// A new virtual monitor of this size, through the compositor.
    Virtual { width: u32, height: u32 },
    /// The monitor with this number, through the compositor.
    Mirror { output: u32 },
    /// The whole X11 display.
    X11,
}

/// What the command line says that bears on the plan.
pub struct Request {
    pub engine: String,
    pub capture: String,
    pub extend: bool,
    pub mode: Option<String>,
    pub output: u32,
}

/// The compositor does the capture.
pub open spec fn by_compositor(capture: Seq<char>, wayland: bool) -> bool {
    capture == "gnome"@ || (capture == "auto"@ && wayland)
}

/// The X server does the capture.
pub open spec fn by_x11(capture: Seq<char>, wayland: bool) -> bool {
    capture == "x11"@ || (capture == "auto"@ && !wayland)
}

/// What is captured on Linux.
pub open spec fn linux_choice(req: Request, wayland: bool) -> Result<LinuxPlan, PlanError> {
    if req.engine@ == "mf"@ {
        Err(PlanError::WindowsEngine)
    } else if by_compositor(req.capture@, wayland) {
        if !req.extend {
            Ok(LinuxPlan::Mirror { output: req.output })
        } else {
            match req.mode {
                None => Ok(LinuxPlan::Virtual { width: 1920, height: 1080 }),
                Some(m) => match mode_of(m@) {
                    Ok((w, h, hz)) => Ok(LinuxPlan::Virtual { width: w, height: h }),
                    Err(e) => Err(PlanError::Mode(e)),
                },
            }
        }
    } else if by_x11(req.capture@, wayland) {
        if req.extend {
            Err(PlanError::X11Extend)
        } else {
            Ok(LinuxPlan::X11)
        }
    } else {
        Err(PlanError::UnknownCapture)
    }
}

/// What is captured on Linux: through the compositor in a Wayland session, else
/// from the X server, unless the command line says which.
pub fn linux_plan(req: &Request, wayland: bool) -> (r: Result<LinuxPlan, PlanError>)
    ensures
        r == linux_choice(*req, wayland),
{
    let capture = req.capture.as_str();
    let auto = same(capture, "auto");
    if same(req.engine.as_str(), "mf") {
        return Err(PlanError::WindowsEngine);
    }
    if same(capture, "gnome") || (auto && wayland) {
        if !req.extend {
            return Ok(LinuxPlan::Mirror { output: req.output });
        }
        return match &req.mode {
            None => Ok(LinuxPlan::Virtual { width: 1920, height: 1080 }),
            Some(m) => match parse_mode(m.as_str()) {
                Ok((width, height, _)) => Ok(LinuxPlan::Virtual { width, height }),
                Err(e) => Err(PlanError::Mode(e)),
            },
        };
    }
    if same(capture, "x11") || (auto && !wayland) {
        if req.extend {
            return Err(PlanError::X11Extend);
        }
        return Ok(LinuxPlan::X11);
    }
    Err(PlanError::UnknownCapture)
}

/// What captures and encodes on Windows.
#[derive(Clone, Copy, Debug, PartialEq, Eq, Structural)]
pub enum WindowsEngine {
    Ffmpeg,
    /// The encoder of the system, inside the host.
    MediaFoundation,
    /// The same, because there is no `ffmpeg`; it is slow.
    Fallback,
}

/// Whether `ffmpeg` has to be looked for.
pub fn needs_ffmpeg(engine: &str) -> (r: bool)
    ensures
        r == (engine@ != "mf"@),
{
    !same(engine, "mf")
}

/// What captures and encodes on Windows.
pub open spec fn engine_choice(engine: Seq<char>, found: bool, extend: bool) -> Result<
    WindowsEngine,
    PlanError,
> {
    if engine == "mf"@ {
        Ok(WindowsEngine::MediaFoundation)
    } else if found {
        Ok(WindowsEngine::Ffmpeg)
    } else if engine == "ffmpeg"@ {
        Err(PlanError::NoFfmpeg)
    } else if extend {
        Err(PlanError::ExtendNeedsFfmpeg)
    } else {
        Ok(WindowsEngine::Fallback)
    }
}

/// What captures and encodes on Windows. `found` says whether there is an
/// `ffmpeg`.
pub fn windows_engine(engine: &str, found: bool, extend: bool) -> (r: Result<
    WindowsEngine,
    PlanError,
>)
    ensures
        r == engine_choice(engine@, found, extend),
{
    if same(engine, "mf") {
        Ok(WindowsEngine::MediaFoundation)
    } else if found {
        Ok(WindowsEngine::Ffmpeg)
    } else if same(engine, "ffmpeg") {
        Err(PlanError::NoFfmpeg)
    } else if extend {
        Err(PlanError::ExtendNeedsFfmpeg)
    } else {
        Ok(WindowsEngine::Fallback)
    }
}

/// Whether the sound is sent to the television alone. That has to be done before
/// the capture of the sound begins, which then takes the new default.
pub fn routes_audio(tv_audio: bool, no_audio: bool) -> (r: bool)
    ensures
        r == (tv_audio && !no_audio),
{
    tv_audio && !no_audio
}

/// A virtual monitor is left to `ffmpeg`, unless the other engine is asked for by
/// its name: the host never falls back on one that reaches the main adapter alone.
pub proof fn law_extend_needs_ffmpeg(engine: Seq<char>, found: bool)
    requires
        engine != "mf"@,
    ensures
        engine_choice(engine, found, true) is Ok <==> found,
        engine_choice(engine, found, true) matches Ok(e) ==> e == WindowsEngine::Ffmpeg,
{
}

/// A text without an `x` before its `@` is no mode; one with an `x`, of which a part is
/// no number, is none either.
pub proof fn law_mode_errors(size: Seq<char>, hz: Seq<char>)
    requires
        forall|i: int| 0 <= i < size.len() ==> #[trigger] size[i] != '@',
    ensures
        (forall|i: int| 0 <= i < size.len() ==> #[trigger] size[i] != 'x') ==> mode_of(size) == Err::<
            (u32, u32, u32),
            ModeError,
        >(ModeError::Form) && mode_of(size + seq!['@'] + hz) == Err::<
            (u32, u32, u32),
            ModeError,
        >(ModeError::Form),
        number(trimmed(hz)) is None && mode_of(size) is Ok ==> mode_of(size + seq!['@'] + hz)
            == Err::<(u32, u32, u32), ModeError>(ModeError::Number),
        number(trimmed(hz)) matches Some(f) ==> (mode_of(size) matches Ok((w, h, d)) ==> mode_of(
            size + seq!['@'] + hz,
        ) == Ok::<(u32, u32, u32), ModeError>((w, h, f))),
{
    let s = size + seq!['@'] + hz;
    let k = size.len() as int;
    assert(s[k] == '@');
    assert forall|j: int| 0 <= j < k implies s[j] != '@' by {
        assert(s[j] == size[j]);
    }
    lemma_first_index(s, '@', k);
    lemma_first_index(size, '@', k);
    assert(s.take(k) =~= size);
    assert(s.skip(k + 1) =~= hz);
    if forall|i: int| 0 <= i < size.len() ==> #[trigger] size[i] != 'x' {
        lemma_first_index(size, 'x', k);
    }
}

/// White space around the three numbers of a mode does not matter.
pub proof fn law_mode_white_space(w: Seq<char>, h: Seq<char>)
    requires
        forall|i: int| 0 <= i < w.len() ==> #[trigger] w[i] != 'x' && w[i] != '@',
        forall|i: int| 0 <= i < h.len() ==> #[trigger] h[i] != '@',
        number(trimmed(w)) is Some,
        number(trimmed(h)) is Some,
    ensures
        mode_of(w + seq!['x'] + h) == Ok::<(u32, u32, u32), ModeError>(
            (number(trimmed(w))->Some_0, number(trimmed(h))->Some_0, 60),
        ),
{
    let s = w + seq!['x'] + h;
    let k = w.len() as int;
    assert forall|j: int| 0 <= j < s.len() implies s[j] != '@' by {
        if j < k {
            assert(s[j] == w[j]);
        } else if j > k {
            assert(s[j] == h[j - k - 1]);
        }
    }
    lemma_first_index(s, '@', s.len() as int);
    assert(s[k] == 'x');
    assert forall|j: int| 0 <= j < k implies s[j] != 'x' by {
        assert(s[j] == w[j]);
    }
    lemma_first_index(s, 'x', k);
    assert(s.take(k) =~= w);
    assert(s.skip(k + 1) =~= h);
    reveal_strlit("60");
    reveal_with_fuel(dec, 3);
    assert("60"@ =~= dec(60));
    lemma_dec_digits(60);
    lemma_digits_trimmed("60"@);
    law_number_of_dec(60);
}

/// The panel opens on a double click, and where it is asked for among other arguments;
/// any other argument starts a stream.
pub proof fn law_panel(program: Seq<char>, more: Seq<Seq<char>>)
    ensures
        panel_wanted(Seq::<Seq<char>>::empty()),
        panel_wanted(seq![program]),
        program != "--gui"@ && more.len() > 0 ==> (panel_wanted(seq![program] + more)
            <==> more.contains("--gui"@)),
{
    let all = seq![program] + more;
    if more.contains("--gui"@) {
        let k = choose|k: int| 0 <= k < more.len() && more[k] == "--gui"@;
        assert(all[k + 1] == "--gui"@);
    }
    if program != "--gui"@ && all.contains("--gui"@) {
        let k = choose|k: int| 0 <= k < all.len() && all[k] == "--gui"@;
        assert(more[k - 1] == "--gui"@);
    }
}

/// A bit rate in Mbit/s becomes one in bit/s, and a distance of key frames in seconds
/// one in frames, as far as the numbers reach.
pub proof fn law_saturated(a: u32, b: u32)
    ensures
        a * b <= 0xffff_ffff ==> saturated(a, b) == a * b,
        a * b > 0xffff_ffff ==> saturated(a, b) == 0xffff_ffff,
{
}

/// On Linux, the compositor captures in a Wayland session and the X server in another,
/// unless the command line says which. Only the compositor makes a virtual monitor, of
/// the size of the mode or of full HD; the engine of Windows is refused first of all.
pub proof fn law_linux_plans(req: Request, wayland: bool)
    ensures
        req.engine@ == "mf"@ <==> linux_choice(req, wayland) == Err::<LinuxPlan, PlanError>(
            PlanError::WindowsEngine,
        ),
        req.engine@ != "mf"@ && !req.extend && (req.capture@ == "gnome"@ || (req.capture@ == "auto"@
            && wayland)) ==> linux_choice(req, wayland) == Ok::<LinuxPlan, PlanError>(
            LinuxPlan::Mirror { output: req.output },
        ),
        req.engine@ != "mf"@ && !req.extend && (req.capture@ == "x11"@ || (req.capture@ == "auto"@
            && !wayland)) ==> linux_choice(req, wayland) == Ok::<LinuxPlan, PlanError>(
            LinuxPlan::X11,
        ),
        req.engine@ != "mf"@ && req.extend && (req.capture@ == "x11"@ || (req.capture@ == "auto"@
            && !wayland)) ==> linux_choice(req, wayland) == Err::<LinuxPlan, PlanError>(
            PlanError::X11Extend,
        ),
        req.engine@ != "mf"@ && req.extend && req.mode is None && (req.capture@ == "gnome"@ || (
        req.capture@ == "auto"@ && wayland)) ==> linux_choice(req, wayland) == Ok::<
            LinuxPlan,
            PlanError,
        >(LinuxPlan::Virtual { width: 1920, height: 1080 }),
        req.engine@ != "mf"@ && req.capture@ != "gnome"@ && req.capture@ != "x11"@ && req.capture@
            != "auto"@ ==> linux_choice(req, wayland) == Err::<LinuxPlan, PlanError>(
            PlanError::UnknownCapture,
        ),
        req.mode matches Some(m) ==> (mode_of(m@) matches Ok((w, h, hz)) ==> (req.engine@ != "mf"@
            && req.extend && (req.capture@ == "gnome"@ || (req.capture@ == "auto"@ && wayland))
            ==> linux_choice(req, wayland) == Ok::<LinuxPlan, PlanError>(
            LinuxPlan::Virtual { width: w, height: h },
        ))),
        req.mode matches Some(m) ==> (mode_of(m@) matches Err(e) ==> (req.engine@ != "mf"@
            && req.extend && (req.capture@ == "gnome"@ || (req.capture@ == "auto"@ && wayland))
            ==> linux_choice(req, wayland) == Err::<LinuxPlan, PlanError>(PlanError::Mode(e)))),
{
    reveal_strlit("gnome");
    reveal_strlit("x11");
    reveal_strlit("auto");
    assert("gnome"@.len() == 5 && "x11"@.len() == 3 && "auto"@.len() == 4);
}

/// On Windows, `ffmpeg` is used where it is found, unless the other engine is asked for
/// by its name. Where it is not found, the host falls back on the other one, but not
/// where `ffmpeg` was asked for, nor for a virtual monitor.
pub proof fn law_windows_engines(engine: Seq<char>, found: bool, extend: bool)
    ensures
        engine == "mf"@ ==> engine_choice(engine, found, extend) == Ok::<WindowsEngine, PlanError>(
            WindowsEngine::MediaFoundation,
        ),
        engine != "mf"@ ==> engine_choice(engine, true, extend) == Ok::<WindowsEngine, PlanError>(
            WindowsEngine::Ffmpeg,
        ),
        engine == "ffmpeg"@ ==> engine_choice(engine, false, extend) == Err::<
            WindowsEngine,
            PlanError,
        >(PlanError::NoFfmpeg),
        engine != "mf"@ && engine != "ffmpeg"@ ==> engine_choice(engine, false, true) == Err::<
            WindowsEngine,
            PlanError,
        >(PlanError::ExtendNeedsFfmpeg) && engine_choice(engine, false, false) == Ok::<
            WindowsEngine,
            PlanError,
        >(WindowsEngine::Fallback),
{
    reveal_strlit("mf");
    reveal_strlit("ffmpeg");
    assert("mf"@.len() == 2 && "ffmpeg"@.len() == 6);
}

/// A mode of which the width or the height is no number is none, whatever its frequency
/// is.
pub proof fn law_mode_numbers(w: Seq<char>, h: Seq<char>, hz: Seq<char>)
    requires
        forall|i: int| 0 <= i < w.len() ==> #[trigger] w[i] != 'x' && w[i] != '@',
        forall|i: int| 0 <= i < h.len() ==> #[trigger] h[i] != '@',
        number(trimmed(w)) is None || number(trimmed(h)) is None,
    ensures
        mode_of(w + seq!['x'] + h) == Err::<(u32, u32, u32), ModeError>(ModeError::Number),
        mode_of(w + seq!['x'] + h + seq!['@'] + hz) == Err::<(u32, u32, u32), ModeError>(
            ModeError::Number,
        ),
{
    let size = w + seq!['x'] + h;
    let s = size + seq!['@'] + hz;
    let k = w.len() as int;
    let n = size.len() as int;
    assert forall|j: int| 0 <= j < n implies size[j] != '@' && s[j] != '@' by {
        assert(s[j] == size[j]);
        if j < k {
            assert(size[j] == w[j]);
        } else if j > k {
            assert(size[j] == h[j - k - 1]);
        }
    }
    assert(s[n] == '@');
    lemma_first_index(s, '@', n);
    lemma_first_index(size, '@', n);
    assert(s.take(n) =~= size);
    assert(size[k] == 'x');
    assert forall|j: int| 0 <= j < k implies size[j] != 'x' by {
        assert(size[j] == w[j]);
    }
    lemma_first_index(size, 'x', k);
    assert(size.take(k) =~= w);
    assert(size.skip(k + 1) =~= h);
}

} // verus!
