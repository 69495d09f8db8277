//! Monitors as the Linux compositor reports them: where they are, and which one is
//! captured.

use crate::engine::Rect;
use crate::signaling::{json_string, json_text};
use crate::text::{
    dec, join, joined, labelled, optional, push_dec, push_string, push_text, same, texts,
};
use vstd::prelude::*;
use vstd::string::StringExecFns;

verus! {

/// The cursor is drawn into the picture: a program cannot learn its place from the
/// compositor.
pub const CURSOR_EMBEDDED: u32 = 1;

/// How long to wait for the stream of a new capture, in seconds.
pub const STREAM_SECONDS: u64 = 10;

/// A mode of a monitor.
pub struct RawMode {
    pub width: i32,
    pub height: i32,
    /// The monitor is in this mode.
    pub current: bool,
}

/// A monitor that is plugged in.
pub struct RawMonitor {
    /// The name of the plug.
    pub connector: String,
    pub modes: Vec<RawMode>,
}

/// A part of the desktop, and the plugs of the monitors that show it.
pub struct RawLogical {
    pub x: i32,
    pub y: i32,
    pub primary: bool,
    pub connectors: Vec<String>,
}

/// A monitor of the desktop.
#[derive(Clone, Debug)]
pub struct MonitorInfo {
    /// The name of the plug.
    pub connector: String,
    pub rect: Rect,
    pub primary: bool,
}

impl View for MonitorInfo {
    type V = (Seq<char>, Rect, bool);

    open spec fn view(&self) -> (Seq<char>, Rect, bool) {
        (self.connector@, self.rect, self.primary)
    }
}

impl MonitorInfo {
    /// The width, at least one.
    pub fn width(&self) -> (r: u32)
        requires
            i32::MIN <= self.rect.right - self.rect.left <= i32::MAX,
        ensures
            r == self.rect.width_of(),
    {
        self.rect.width() as u32
    }

    /// The height, at least one.
    pub fn height(&self) -> (r: u32)
        requires
            i32::MIN <= self.rect.bottom - self.rect.top <= i32::MAX,
        ensures
            r == self.rect.height_of(),
    {
        self.rect.height() as u32
    }
}

/// The size of the current mode, from mode `i` on.
pub open spec fn current_size(modes: Seq<RawMode>, i: int) -> Option<(i32, i32)>
    decreases modes.len() - i,
{
    if i < 0 || i >= modes.len() {
        None
    } else if modes[i].current {
        Some((modes[i].width, modes[i].height))
    } else {
        current_size(modes, i + 1)
    }
}

/// The size of the current mode of the monitor on a plug, from monitor `i` on.
pub open spec fn plug_size(monitors: Seq<RawMonitor>, connector: Seq<char>, i: int) -> Option<
    (i32, i32),
>
    decreases monitors.len() - i,
{
    if i < 0 || i >= monitors.len() {
        None
    } else if monitors[i].connector@ == connector {
        current_size(monitors[i].modes@, 0)
    } else {
        plug_size(monitors, connector, i + 1)
    }
}

/// The size of a monitor in pixels; full HD where it is not known.
pub open spec fn pixels(monitors: Seq<RawMonitor>, connector: Seq<char>) -> (i32, i32) {
    match plug_size(monitors, connector, 0) {
        Some(size) => size,
        None => (1920, 1080),
    }
}

/// The size of the current mode.
fn find_current(modes: &Vec<RawMode>) -> (r: Option<(i32, i32)>)
    ensures
        r == current_size(modes@, 0),
{
    let mut i: usize = 0;
    while i < modes.len()
        invariant
            i <= modes@.len(),
            current_size(modes@, 0) == current_size(modes@, i as int),
        decreases modes@.len() - i,
    {
        if modes[i].current {
            return Some((modes[i].width, modes[i].height));
        }
        i += 1;
    }
    None
}

/// The size of a monitor in pixels; full HD where it is not known.
pub fn pixel_size(monitors: &Vec<RawMonitor>, connector: &str) -> (r: (i32, i32))
    ensures
        r == pixels(monitors@, connector@),
{
    let mut i: usize = 0;
    while i < monitors.len()
        invariant
            i <= monitors@.len(),
            plug_size(monitors@, connector@, 0) == plug_size(monitors@, connector@, i as int),
        decreases monitors@.len() - i,
    {
        if same(monitors[i].connector.as_str(), connector) {
            return match find_current(&monitors[i].modes) {
                Some(size) => size,
                None => (1920, 1080),
            };
        }
        i += 1;
    }
    (1920, 1080)
}

/// A monitor before the scale of its part of the desktop is taken into account.
pub struct Placement {
    /// The part of the desktop that it shows.
    pub logical: usize,
    pub connector: String,
    pub x: i32,
    pub y: i32,
    /// Its size in pixels.
    pub width: i32,
    pub height: i32,
    pub primary: bool,
}

/// A placement over characters.
pub struct PlacementView {
    pub logical: int,
    pub connector: Seq<char>,
    pub x: i32,
    pub y: i32,
    pub size: (i32, i32),
    pub primary: bool,
}

impl View for Placement {
    type V = PlacementView;

    open spec fn view(&self) -> PlacementView {
        PlacementView {
            logical: self.logical as int,
            connector: self.connector@,
            x: self.x,
            y: self.y,
            size: (self.width, self.height),
            primary: self.primary,
        }
    }
}

/// The placements of a list.
pub open spec fn placement_views(v: Seq<Placement>) -> Seq<PlacementView> {
    v.map_values(|p: Placement| p@)
}

/// The monitor on one plug of a part of the desktop.
pub open spec fn placed(
    monitors: Seq<RawMonitor>,
    logical: RawLogical,
    l: int,
    m: int,
) -> PlacementView {
    PlacementView {
        logical: l,
        connector: logical.connectors@[m]@,
        x: logical.x,
        y: logical.y,
        size: pixels(monitors, logical.connectors@[m]@),
        primary: logical.primary,
    }
}

/// The monitors of the first `n` parts of the desktop, each part's plugs in order.
pub open spec fn layout(monitors: Seq<RawMonitor>, logicals: Seq<RawLogical>, n: int) -> Seq<
    PlacementView,
>
    decreases n,
{
    if n <= 0 {
        Seq::empty()
    } else {
        layout(monitors, logicals, n - 1) + Seq::new(
            logicals[n - 1].connectors@.len(),
            |m: int| placed(monitors, logicals[n - 1], n - 1, m),
        )
    }
}

/// The monitors of the desktop, before their scale is taken into account.
pub fn placements(monitors: &Vec<RawMonitor>, logicals: &Vec<RawLogical>) -> (r: Vec<Placement>)
    ensures
        placement_views(r@) == layout(monitors@, logicals@, logicals@.len() as int),
{
    let mut r: Vec<Placement> = Vec::new();
    let mut l: usize = 0;
    assert(placement_views(r@) =~= layout(monitors@, logicals@, 0));
    while l < logicals.len()
        invariant
            l <= logicals@.len(),
            placement_views(r@) == layout(monitors@, logicals@, l as int),
        decreases logicals@.len() - l,
    {
        let ghost before = placement_views(r@);
        let ghost row = Seq::new(
            logicals@[l as int].connectors@.len(),
            |m: int| placed(monitors@, logicals@[l as int], l as int, m),
        );
        let mut m: usize = 0;
        assert(before + row.take(0) =~= before);
        while m < logicals[l].connectors.len()
            invariant
                l < logicals@.len(),
                m <= logicals@[l as int].connectors@.len(),
                row == Seq::new(
                    logicals@[l as int].connectors@.len(),
                    |m: int| placed(monitors@, logicals@[l as int], l as int, m),
                ),
                placement_views(r@) == before + row.take(m as int),
            decreases logicals@[l as int].connectors@.len() - m,
        {
            let ghost so_far = placement_views(r@);
            let logical = &logicals[l];
            let connector = logical.connectors[m].clone();
            let (width, height) = pixel_size(monitors, connector.as_str());
            let p = Placement {
                logical: l,
                connector,
                x: logical.x,
                y: logical.y,
                width,
                height,
                primary: logical.primary,
            };
            assert(p@ == row[m as int]);
            r.push(p);
            assert(placement_views(r@) =~= so_far.push(row[m as int]));
            assert(row.take(m + 1) =~= row.take(m as int).push(row[m as int]));
            m += 1;
            assert(placement_views(r@) =~= before + row.take(m as int));
        }
        assert(row.take(m as int) =~= row);
        l += 1;
    }
    r
}

impl Placement {
    /// The monitor, once its size on the desktop is known: the size in pixels over
    /// the scale of its part of the desktop.
    pub fn scaled(self, width: i32, height: i32) -> (r: MonitorInfo)
        requires
            i32::MIN <= self.x + width <= i32::MAX,
            i32::MIN <= self.y + height <= i32::MAX,
        ensures
            r@ == (
                self.connector@,
                (Rect {
                    left: self.x,
                    top: self.y,
                    right: (self.x + width) as i32,
                    bottom: (self.y + height) as i32,
                }),
                self.primary,
            ),
    {
        MonitorInfo {
            connector: self.connector,
            rect: Rect {
                left: self.x,
                top: self.y,
                right: self.x + width,
                bottom: self.y + height,
            },
            primary: self.primary,
        }
    }
}

/// Why no monitor can be captured.
pub enum ChooseError {
    /// There is none.
    NoMonitor,
    /// There is none on that plug; these are the plugs.
    NoSuchPlug(String),
}

/// The plugs of a list of monitors.
pub open spec fn plugs(monitors: Seq<MonitorInfo>) -> Seq<Seq<char>> {
    monitors.map_values(|m: MonitorInfo| m.connector@)
}

/// The number of the first monitor on a plug, from `i` on, or their number.
pub open spec fn plug_index(monitors: Seq<MonitorInfo>, name: Seq<char>, i: int) -> int
    decreases monitors.len() - i,
{
    if i < 0 || i >= monitors.len() {
        monitors.len() as int
    } else if monitors[i].connector@ == name {
        i
    } else {
        plug_index(monitors, name, i + 1)
    }
}

/// The number of the first primary monitor, from `i` on, or their number.
pub open spec fn primary_index(monitors: Seq<MonitorInfo>, i: int) -> int
    decreases monitors.len() - i,
{
    if i < 0 || i >= monitors.len() {
        monitors.len() as int
    } else if monitors[i].primary {
        i
    } else {
        primary_index(monitors, i + 1)
    }
}

/// The plugs of a list of monitors, with commas between them.
fn plug_names(monitors: &Vec<MonitorInfo>) -> (r: String)
    ensures
        r@ == joined(plugs(monitors@), ", "@),
{
    let mut names: Vec<String> = Vec::new();
    let mut i: usize = 0;
    assert(texts(names@) =~= plugs(monitors@).take(0));
    while i < monitors.len()
        invariant
            i <= monitors@.len(),
            texts(names@) == plugs(monitors@).take(i as int),
        decreases monitors@.len() - i,
    {
        push_text(&mut names, monitors[i].connector.as_str());
        assert(plugs(monitors@).take(i + 1) =~= plugs(monitors@).take(i as int).push(
            monitors@[i as int].connector@,
        ));
        i += 1;
    }
    assert(plugs(monitors@).take(i as int) =~= plugs(monitors@));
    join(&names, ", ")
}

/// Which monitor is captured: the one on the given plug; without one the primary
/// monitor, or the first.
pub fn choose_monitor(monitors: &Vec<MonitorInfo>, plug: &Option<String>) -> (r: Result<
    usize,
    ChooseError,
>)
    ensures
        monitors@.len() == 0 ==> (r matches Err(ChooseError::NoMonitor)),
        monitors@.len() > 0 ==> match optional(*plug) {
            Some(name) => {
                let k = plug_index(monitors@, name, 0);
                if k < monitors@.len() {
                    r matches Ok(n) && n == k
                } else {
                    r matches Err(ChooseError::NoSuchPlug(list)) && list@ == joined(
                        plugs(monitors@),
                        ", "@,
                    )
                }
            },
            None => {
                let k = primary_index(monitors@, 0);
                r matches Ok(n) && n == (if k < monitors@.len() {
                    k
                } else {
                    0
                })
            },
        },
{
    if monitors.len() == 0 {
        return Err(ChooseError::NoMonitor);
    }
    match plug {
        Some(name) => {
            let mut i: usize = 0;
            while i < monitors.len()
                invariant
                    i <= monitors@.len(),
                    monitors@.len() > 0,
                    optional(*plug) == Some(name@),
                    plug_index(monitors@, name@, 0) == plug_index(monitors@, name@, i as int),
                decreases monitors@.len() - i,
            {
                if same(monitors[i].connector.as_str(), name.as_str()) {
                    return Ok(i);
                }
                i += 1;
            }
            Err(ChooseError::NoSuchPlug(plug_names(monitors)))
        },
        None => {
            let p = find_primary(monitors);
            if p < monitors.len() {
                Ok(p)
            } else {
                Ok(0)
            }
        },
    }
}

/// The place in the list of the monitor with a number: number 0 is the primary
/// monitor, and the others follow in the order of the list. Where there is no primary
/// monitor the numbers are the places.
pub open spec fn numbered_index(monitors: Seq<MonitorInfo>, number: int) -> int {
    let p = primary_index(monitors, 0);
    if p >= monitors.len() || number > p {
        number
    } else if number == 0 {
        p
    } else {
        number - 1
    }
}

/// The first primary monitor is in the list or behind it.
proof fn lemma_primary_index(monitors: Seq<MonitorInfo>, i: int)
    requires
        0 <= i <= monitors.len(),
    ensures
        i <= primary_index(monitors, i) <= monitors.len(),
        primary_index(monitors, i) < monitors.len() ==> monitors[primary_index(
            monitors,
            i,
        )].primary,
    decreases monitors.len() - i,
{
    if i < monitors.len() && !monitors[i].primary {
        lemma_primary_index(monitors, i + 1);
    }
}

/// Every monitor has one number, and number 0 is a primary one where there is any;
/// the numbers behind it go in the order of the list.
pub proof fn law_numbering(monitors: Seq<MonitorInfo>, a: int, b: int)
    requires
        0 <= a < b < monitors.len(),
    ensures
        0 <= numbered_index(monitors, a) < monitors.len(),
        0 <= numbered_index(monitors, b) < monitors.len(),
        numbered_index(monitors, a) != numbered_index(monitors, b),
        a > 0 ==> numbered_index(monitors, a) < numbered_index(monitors, b),
        primary_index(monitors, 0) < monitors.len() ==> monitors[numbered_index(
            monitors,
            0,
        )].primary,
{
    lemma_primary_index(monitors, 0);
}

/// The place in the list of the first primary monitor, or the length of the list.
fn find_primary(monitors: &Vec<MonitorInfo>) -> (r: usize)
    ensures
        r == primary_index(monitors@, 0),
        r <= monitors@.len(),
{
    let mut i: usize = 0;
    while i < monitors.len()
        invariant
            i <= monitors@.len(),
            primary_index(monitors@, 0) == primary_index(monitors@, i as int),
        decreases monitors@.len() - i,
    {
        if monitors[i].primary {
            return i;
        }
        i += 1;
    }
    i
}

/// The place in the list of the monitor with a number.
pub(crate) fn place_of(monitors: &Vec<MonitorInfo>, number: usize) -> (r: usize)
    requires
        number < monitors@.len(),
    ensures
        r == numbered_index(monitors@, number as int),
        r < monitors@.len(),
{
    let p = find_primary(monitors);
    if p >= monitors.len() || number > p {
        number
    } else if number == 0 {
        p
    } else {
        number - 1
    }
}

/// Numbered plugs, such as `0=HDMI-1`, in the order of their numbers.
pub open spec fn numbered(monitors: Seq<MonitorInfo>) -> Seq<Seq<char>> {
    Seq::new(
        monitors.len(),
        |i: int| dec(i as nat) + "="@ + monitors[numbered_index(monitors, i)].connector@,
    )
}

/// The place in the list of the monitor with a number, or the numbered plugs where
/// there is none. Number 0 is the primary monitor.
pub fn monitor_at(monitors: &Vec<MonitorInfo>, number: u32) -> (r: Result<usize, String>)
    ensures
        (number as int) < monitors@.len() ==> (r matches Ok(n) && n == numbered_index(
            monitors@,
            number as int,
        ) && n < monitors@.len()),
        (number as int) >= monitors@.len() ==> (r matches Err(list) && list@ == joined(
            numbered(monitors@),
            ", "@,
        )),
{
    if (number as usize) < monitors.len() {
        return Ok(place_of(monitors, number as usize));
    }
    let mut names: Vec<String> = Vec::new();
    let mut i: usize = 0;
    assert(texts(names@) =~= numbered(monitors@).take(0));
    while i < monitors.len()
        invariant
            i <= monitors@.len(),
            texts(names@) == numbered(monitors@).take(i as int),
        decreases monitors@.len() - i,
    {
        let mut name = labelled("", i as u64);
        proof {
            reveal_strlit("");
            assert(name@ =~= dec(i as nat));
        }
        name.append("=");
        name.append(monitors[place_of(monitors, i)].connector.as_str());
        assert(name@ =~= numbered(monitors@)[i as int]);
        push_string(&mut names, name);
        assert(numbered(monitors@).take(i + 1) =~= numbered(monitors@).take(i as int).push(
            numbered(monitors@)[i as int],
        ));
        i += 1;
    }
    assert(numbered(monitors@).take(i as int) =~= numbered(monitors@));
    Err(join(&names, ", "))
}

/// Where a virtual monitor is taken to be. The cursor is part of its picture, so
/// that its true place does not matter.
pub fn virtual_rect(width: u32, height: u32) -> (r: Rect)
    ensures
        r == (Rect { left: 0, top: 0, right: width as i32, bottom: height as i32 }),
{
    Rect { left: 0, top: 0, right: width as i32, bottom: height as i32 }
}

/// A screen in JSON.
pub open spec fn screen_json(number: int, name: Seq<char>, rect: Rect, primary: bool) -> Seq<char> {
    "{\"index\":"@ + dec(number as nat) + ",\"connector\":"@ + json_text(name) + ",\"width\":"@
        + dec(rect.width_of() as nat) + ",\"height\":"@ + dec(rect.height_of() as nat)
        + ",\"primary\":"@ + (if primary {
        "true"@
    } else {
        "false"@
    }) + "}"@
}

/// Items in JSON as a list.
pub open spec fn json_list(items: Seq<Seq<char>>) -> Seq<char> {
    "["@ + joined(items, ","@) + "]"@
}

/// A list of monitors in JSON, in the order of their numbers.
pub open spec fn monitors_json(monitors: Seq<MonitorInfo>) -> Seq<char> {
    json_list(
        Seq::new(
            monitors.len(),
            |i: int|
                {
                    let m = monitors[numbered_index(monitors, i)];
                    screen_json(i, m.connector@, m.rect, m.primary)
                },
        ),
    )
}

/// A screen in JSON.
pub(crate) fn describe(number: u64, name: &str, rect: Rect, primary: bool) -> (r: String)
    requires
        rect.measurable(),
    ensures
        r@ == screen_json(number as int, name@, rect, primary),
{
    let mut r = labelled("{\"index\":", number);
    r.append(",\"connector\":");
    r.append(json_string(name).as_str());
    r.append(",\"width\":");
    push_dec(&mut r, rect.width() as u64);
    r.append(",\"height\":");
    push_dec(&mut r, rect.height() as u64);
    r.append(",\"primary\":");
    if primary {
        r.append("true");
    } else {
        r.append("false");
    }
    r.append("}");
    r
}

/// Items in JSON as a list.
pub(crate) fn bracketed(items: &Vec<String>) -> (r: String)
    ensures
        r@ == json_list(texts(items@)),
{
    let mut r = "[".to_owned();
    r.append(join(items, ",").as_str());
    r.append("]");
    r
}

/// A list of monitors in JSON, with the numbers by which they can be chosen.
pub fn list_json(monitors: &Vec<MonitorInfo>) -> (r: String)
    requires
        forall|i: int| 0 <= i < monitors@.len() ==> (#[trigger] monitors@[i]).rect.measurable(),
    ensures
        r@ == monitors_json(monitors@),
{
    let mut items: Vec<String> = Vec::new();
    let ghost all = Seq::new(
        monitors@.len(),
        |i: int|
            {
                let m = monitors@[numbered_index(monitors@, i)];
                screen_json(i, m.connector@, m.rect, m.primary)
            },
    );
    let mut i: usize = 0;
    assert(texts(items@) =~= all.take(0));
    while i < monitors.len()
        invariant
            i <= monitors@.len(),
            all == Seq::new(
                monitors@.len(),
                |i: int|
                    {
                        let m = monitors@[numbered_index(monitors@, i)];
                        screen_json(i, m.connector@, m.rect, m.primary)
                    },
            ),
            forall|i: int|
                0 <= i < monitors@.len() ==> (#[trigger] monitors@[i]).rect.measurable(),
            texts(items@) == all.take(i as int),
        decreases monitors@.len() - i,
    {
        let m = &monitors[place_of(monitors, i)];
        assert(m.rect.measurable());
        push_string(&mut items, describe(i as u64, m.connector.as_str(), m.rect, m.primary));
        assert(all.take(i + 1) =~= all.take(i as int).push(all[i as int]));
        i += 1;
    }
    assert(all.take(i as int) =~= all);
    bracketed(&items)
}

/// The size of a monitor is that of its current mode, the first that is marked so, of
/// the first monitor on the plug; it is full HD where there is no such mode.
pub proof fn law_monitor_size(monitors: Seq<RawMonitor>, plug: Seq<char>, k: int, m: int)
    requires
        0 <= k <= monitors.len(),
        forall|j: int| 0 <= j < k ==> (#[trigger] monitors[j]).connector@ != plug,
        k < monitors.len() ==> monitors[k].connector@ == plug && 0 <= m
            <= monitors[k].modes@.len() && (forall|j: int|
            0 <= j < m ==> !(#[trigger] monitors[k].modes@[j]).current) && (m
            < monitors[k].modes@.len() ==> monitors[k].modes@[m].current),
    ensures
        k < monitors.len() && m < monitors[k].modes@.len() ==> pixels(monitors, plug) == (
            monitors[k].modes@[m].width,
            monitors[k].modes@[m].height,
        ),
        k == monitors.len() || m == monitors[k].modes@.len() ==> pixels(monitors, plug) == (
            1920i32,
            1080i32,
        ),
{
    lemma_plug_from(monitors, plug, 0, k);
    if k < monitors.len() {
        lemma_mode_from(monitors[k].modes@, 0, m);
    }
}

/// Monitors on other plugs are passed over.
proof fn lemma_plug_from(monitors: Seq<RawMonitor>, plug: Seq<char>, i: int, k: int)
    requires
        0 <= i <= k <= monitors.len(),
        forall|j: int| 0 <= j < k ==> (#[trigger] monitors[j]).connector@ != plug,
    ensures
        plug_size(monitors, plug, i) == plug_size(monitors, plug, k),
    decreases k - i,
{
    if i < k {
        lemma_plug_from(monitors, plug, i + 1, k);
    }
}

/// Modes that are not current are passed over.
proof fn lemma_mode_from(modes: Seq<RawMode>, i: int, m: int)
    requires
        0 <= i <= m <= modes.len(),
        forall|j: int| 0 <= j < m ==> !(#[trigger] modes[j]).current,
    ensures
        current_size(modes, i) == current_size(modes, m),
    decreases m - i,
{
    if i < m {
        lemma_mode_from(modes, i + 1, m);
    }
}

/// How many plugs the first `n` parts of the desktop have.
pub open spec fn plug_count(logicals: Seq<RawLogical>, n: int) -> int
    decreases n,
{
    if n <= 0 {
        0
    } else {
        plug_count(logicals, n - 1) + logicals[n - 1].connectors@.len()
    }
}

/// Every plug of every part of the desktop is listed once and in order, at the place
/// of its part, with the size of its monitor and the mark of its part.
pub proof fn law_every_plug_listed(
    monitors: Seq<RawMonitor>,
    logicals: Seq<RawLogical>,
    n: int,
    l: int,
    m: int,
)
    requires
        0 <= l < n <= logicals.len(),
        0 <= m < logicals[l].connectors@.len(),
    ensures
        ({
            let all = layout(monitors, logicals, n);
            let k = plug_count(logicals, l) + m;
            &&& all.len() == plug_count(logicals, n)
            &&& 0 <= k < all.len()
            &&& all[k].logical == l
            &&& all[k].connector == logicals[l].connectors@[m]@
            &&& all[k].x == logicals[l].x
            &&& all[k].y == logicals[l].y
            &&& all[k].size == pixels(monitors, logicals[l].connectors@[m]@)
            &&& all[k].primary == logicals[l].primary
        }),
    decreases n,
{
    lemma_layout_len(monitors, logicals, n - 1);
    lemma_layout_len(monitors, logicals, n);
    lemma_layout_len(monitors, logicals, l);
    let all = layout(monitors, logicals, n);
    let before = layout(monitors, logicals, n - 1);
    let k = plug_count(logicals, l) + m;
    if l < n - 1 {
        law_every_plug_listed(monitors, logicals, n - 1, l, m);
        assert(all[k] == before[k]);
    } else {
        assert(all[before.len() + m] == placed(monitors, logicals[l], l, m));
    }
}

/// As many monitors are listed as there are plugs.
proof fn lemma_layout_len(monitors: Seq<RawMonitor>, logicals: Seq<RawLogical>, n: int)
    requires
        n <= logicals.len(),
    ensures
        layout(monitors, logicals, n).len() == plug_count(logicals, n),
        plug_count(logicals, n) >= 0,
    decreases n,
{
    if n > 0 {
        lemma_layout_len(monitors, logicals, n - 1);
    }
}

/// A monitor is found by its plug, the first that has it, and the primary one is the
/// first that is marked so.
pub proof fn law_first_found(monitors: Seq<MonitorInfo>, name: Seq<char>, k: int, p: int)
    requires
        0 <= k <= monitors.len(),
        forall|j: int| 0 <= j < k ==> (#[trigger] monitors[j]).connector@ != name,
        k < monitors.len() ==> monitors[k].connector@ == name,
        0 <= p <= monitors.len(),
        forall|j: int| 0 <= j < p ==> !(#[trigger] monitors[j]).primary,
        p < monitors.len() ==> monitors[p].primary,
    ensures
        plug_index(monitors, name, 0) == k,
        primary_index(monitors, 0) == p,
{
    lemma_name_from(monitors, name, 0, k);
    lemma_primary_from(monitors, 0, p);
}

/// Monitors on other plugs are passed over.
proof fn lemma_name_from(monitors: Seq<MonitorInfo>, name: Seq<char>, i: int, k: int)
    requires
        0 <= i <= k <= monitors.len(),
        forall|j: int| 0 <= j < k ==> (#[trigger] monitors[j]).connector@ != name,
    ensures
        plug_index(monitors, name, i) == plug_index(monitors, name, k),
    decreases k - i,
{
    if i < k {
        lemma_name_from(monitors, name, i + 1, k);
    }
}

/// Monitors that are not primary are passed over.
proof fn lemma_primary_from(monitors: Seq<MonitorInfo>, i: int, p: int)
    requires
        0 <= i <= p <= monitors.len(),
        forall|j: int| 0 <= j < p ==> !(#[trigger] monitors[j]).primary,
    ensures
        primary_index(monitors, i) == primary_index(monitors, p),
    decreases p - i,
{
    if i < p {
        lemma_primary_from(monitors, i + 1, p);
    }
}

/// Number 0 is the first primary monitor; the monitors before it come right behind it,
/// and those behind it keep their numbers. Without a primary monitor all keep theirs.
pub proof fn law_numbers(monitors: Seq<MonitorInfo>, p: int, n: int)
    requires
        0 <= n < monitors.len(),
        0 <= p <= monitors.len(),
        forall|j: int| 0 <= j < p ==> !(#[trigger] monitors[j]).primary,
        p < monitors.len() ==> monitors[p].primary,
    ensures
        p < monitors.len() ==> numbered_index(monitors, 0) == p,
        p < monitors.len() && 1 <= n <= p ==> numbered_index(monitors, n) == n - 1,
        p == monitors.len() || n > p ==> numbered_index(monitors, n) == n,
{
    lemma_primary_from(monitors, 0, p);
}

/// A screen in JSON gives its number, its name, its size and whether it is the primary
/// one.
pub proof fn law_screen_json(number: nat, name: Seq<char>, rect: Rect)
    requires
        rect.left < rect.right,
        rect.top < rect.bottom,
    ensures
        screen_json(number as int, name, rect, true) == "{\"index\":"@ + dec(number)
            + ",\"connector\":"@ + json_text(name) + ",\"width\":"@ + dec(
            (rect.right - rect.left) as nat,
        ) + ",\"height\":"@ + dec((rect.bottom - rect.top) as nat) + ",\"primary\":"@ + "true"@
            + "}"@,
        screen_json(number as int, name, rect, false) == "{\"index\":"@ + dec(number)
            + ",\"connector\":"@ + json_text(name) + ",\"width\":"@ + dec(
            (rect.right - rect.left) as nat,
        ) + ",\"height\":"@ + dec((rect.bottom - rect.top) as nat) + ",\"primary\":"@ + "false"@
            + "}"@,
{
}

/// A wrong number is answered with the plugs under their numbers.
pub proof fn law_numbered_plugs(monitors: Seq<MonitorInfo>, i: int)
    requires
        0 <= i < monitors.len(),
    ensures
        numbered(monitors).len() == monitors.len(),
        numbered(monitors)[i] == dec(i as nat) + "="@ + monitors[numbered_index(
            monitors,
            i,
        )].connector@,
{
}

/// The list in JSON has the monitors in the order of their numbers, between brackets
/// and with commas between them.
pub proof fn law_monitors_json(monitors: Seq<MonitorInfo>, items: Seq<Seq<char>>)
    requires
        items.len() == monitors.len(),
        forall|i: int|
            0 <= i < items.len() ==> #[trigger] items[i] == screen_json(
                i,
                monitors[numbered_index(monitors, i)].connector@,
                monitors[numbered_index(monitors, i)].rect,
                monitors[numbered_index(monitors, i)].primary,
            ),
    ensures
        monitors_json(monitors) == "["@ + joined(items, ","@) + "]"@,
{
    let all = Seq::new(
        monitors.len(),
        |i: int|
            {
                let m = monitors[numbered_index(monitors, i)];
                screen_json(i, m.connector@, m.rect, m.primary)
            },
    );
    assert(all =~= items);
}

} // verus!
