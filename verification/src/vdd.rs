//! The virtual monitor on Windows: the requests to its driver, the list of
//! outputs, and the output that appears once it is attached.
//!
//! The driver removes the monitor by itself when it hears nothing for about a
//! second, so that none is left behind, however the host ends.

use crate::engine::Rect;
use crate::screencast::{bracketed, describe, json_list, screen_json};
use crate::text::{push_string, same, texts};
use crate::utf16::{before_zero, decode, decoded, until_zero};
use vstd::prelude::*;

verus! {

/// The requests that the driver knows.
pub const IOCTL_ADD: u32 = 0x0022e004;

pub const IOCTL_REMOVE: u32 = 0x0022a008;

pub const IOCTL_UPDATE: u32 = 0x0022a00c;

pub const IOCTL_VERSION: u32 = 0x0022e010;

/// The length of a request's input.
pub const INPUT_LEN: usize = 32;

/// The pause between two signs of life to the driver, in milliseconds.
pub const KEEPALIVE_MS: u64 = 50;

/// How often the list of outputs is read until the monitor is there, and the
/// pause before each time, in milliseconds.
pub const ATTACH_POLLS: u32 = 40;

pub const ATTACH_PAUSE_MS: u64 = 250;

/// How many adapters are looked at, and how many outputs of each.
pub const MAX_ADAPTERS: usize = 8;

pub const MAX_OUTPUTS: usize = 8;

/// Why the driver cannot be reached.
#[derive(Clone, Copy, Debug, PartialEq, Eq, Structural)]
pub enum VddError {
    /// No device of the driver is present.
    NotFound,
    /// The list of its devices could not be read.
    NoList,
    /// The list begins with an empty path.
    EmptyPath,
}

/// How long the list of devices is, where there are any. `length` is what the
/// system says; a list with nothing in it has one unit.
pub fn list_length(length: Option<u32>) -> (r: Result<u32, VddError>)
    ensures
        match length {
            Some(n) if n > 1 => r == Ok::<u32, VddError>(n),
            _ => r == Err::<u32, VddError>(VddError::NotFound),
        },
{
    match length {
        Some(n) => if n > 1 {
            Ok(n)
        } else {
            Err(VddError::NotFound)
        },
        None => Err(VddError::NotFound),
    }
}

/// The path of the first device, with a zero behind it. `list` holds the paths,
/// with a zero behind each, where they could be read.
pub fn device_path(list: Option<Vec<u16>>) -> (r: Result<Vec<u16>, VddError>)
    ensures
        match list {
            None => r == Err::<Vec<u16>, VddError>(VddError::NoList),
            Some(u) => if until_zero(u@).len() == 0 {
                r == Err::<Vec<u16>, VddError>(VddError::EmptyPath)
            } else {
                r matches Ok(path) && path@ == until_zero(u@).push(0)
            },
        },
{
    match list {
        None => Err(VddError::NoList),
        Some(u) => {
            let mut path = before_zero(u.as_slice());
            if path.len() == 0 {
                return Err(VddError::EmptyPath);
            }
            path.push(0);
            Ok(path)
        },
    }
}

/// Whether the driver is installed: its first device has a path, and could be
/// opened.
pub fn is_installed(path: &Result<Vec<u16>, VddError>, opened: bool) -> (r: bool)
    ensures
        r == (path is Ok && opened),
{
    path.is_ok() && opened
}

/// The input of the request that removes a monitor: its number in sixteen bits,
/// the upper half first, and zeros.
pub open spec fn remove_bytes(index: u32) -> Seq<u8> {
    Seq::new(
        INPUT_LEN as nat,
        |i: int|
            if i == 0 {
                (index / 256 % 256) as u8
            } else if i == 1 {
                (index % 256) as u8
            } else {
                0u8
            },
    )
}

/// The input of the request that removes a monitor.
pub fn remove_input(index: u32) -> (r: [u8; 32])
    ensures
        r@ == remove_bytes(index),
{
    let mut r: [u8; 32] = [0u8;32];
    r[0] = (index / 256 % 256) as u8;
    r[1] = (index % 256) as u8;
    assert(r@ =~= remove_bytes(index));
    r
}

/// A picture output of the machine.
#[derive(Clone, Debug)]
pub struct OutputInfo {
    pub adapter_index: u32,
    pub output_index: u32,
    pub device_name: String,
    pub rect: Rect,
}

impl View for OutputInfo {
    type V = (u32, u32, Seq<char>, Rect);

    open spec fn view(&self) -> (u32, u32, Seq<char>, Rect) {
        (self.adapter_index, self.output_index, self.device_name@, self.rect)
    }
}

/// The outputs of a list.
pub open spec fn output_views(v: Seq<OutputInfo>) -> Seq<(u32, u32, Seq<char>, Rect)> {
    v.map_values(|o: OutputInfo| o@)
}

impl OutputInfo {
    /// Another value of the same output.
    pub fn copied(&self) -> (r: OutputInfo)
        ensures
            r@ == self@,
    {
        OutputInfo {
            adapter_index: self.adapter_index,
            output_index: self.output_index,
            device_name: self.device_name.clone(),
            rect: self.rect,
        }
    }
}

/// What the system says of an output.
pub struct RawOutput {
    /// The name, up to the first zero.
    pub name: Vec<u16>,
    /// The output is part of the desktop.
    pub attached: bool,
    pub rect: Rect,
}

/// The first `n` outputs of adapter `a` without those that are not part of the
/// desktop, or that the system says nothing of.
pub open spec fn adapter_outputs(a: int, raw: Seq<Option<RawOutput>>, n: int) -> Seq<
    (u32, u32, Seq<char>, Rect),
>
    decreases n,
{
    if n <= 0 {
        Seq::empty()
    } else {
        let before = adapter_outputs(a, raw, n - 1);
        match raw[n - 1] {
            Some(o) => if o.attached {
                before.push((a as u32, (n - 1) as u32, decoded(until_zero(o.name@)), o.rect))
            } else {
                before
            },
            None => before,
        }
    }
}

/// At most eight of a list.
pub open spec fn capped(len: int, limit: int) -> int {
    if len < limit {
        len
    } else {
        limit
    }
}

/// The outputs of the first `n` adapters.
pub open spec fn desktop_outputs(raw: Seq<Vec<Option<RawOutput>>>, n: int) -> Seq<
    (u32, u32, Seq<char>, Rect),
>
    decreases n,
{
    if n <= 0 {
        Seq::empty()
    } else {
        desktop_outputs(raw, n - 1) + adapter_outputs(
            n - 1,
            raw[n - 1]@,
            capped(raw[n - 1]@.len() as int, MAX_OUTPUTS as int),
        )
    }
}

/// The outputs of one adapter.
fn outputs_of(a: usize, raw: &Vec<Option<RawOutput>>) -> (r: Vec<OutputInfo>)
    requires
        a < MAX_ADAPTERS,
    ensures
        output_views(r@) == adapter_outputs(
            a as int,
            raw@,
            capped(raw@.len() as int, MAX_OUTPUTS as int),
        ),
{
    let mut r: Vec<OutputInfo> = Vec::new();
    let mut i: usize = 0;
    assert(output_views(r@) =~= adapter_outputs(a as int, raw@, 0));
    while i < raw.len() && i < MAX_OUTPUTS
        invariant
            a < MAX_ADAPTERS,
            i <= raw@.len(),
            i <= MAX_OUTPUTS,
            output_views(r@) == adapter_outputs(a as int, raw@, i as int),
        decreases raw@.len() - i,
    {
        let ghost before = output_views(r@);
        if let Some(o) = &raw[i] {
            if o.attached {
                let name = before_zero(o.name.as_slice());
                let out = OutputInfo {
                    adapter_index: a as u32,
                    output_index: i as u32,
                    device_name: decode(name.as_slice()),
                    rect: o.rect,
                };
                let ghost view = out@;
                r.push(out);
                assert(output_views(r@) =~= before.push(view));
            }
        }
        i += 1;
    }
    r
}

/// All outputs that are part of the desktop, out of what the system says of the
/// outputs of each adapter.
pub fn all_outputs(raw: &Vec<Vec<Option<RawOutput>>>) -> (r: Vec<OutputInfo>)
    ensures
        output_views(r@) == desktop_outputs(
            raw@,
            capped(raw@.len() as int, MAX_ADAPTERS as int),
        ),
{
    let mut r: Vec<OutputInfo> = Vec::new();
    let mut a: usize = 0;
    assert(output_views(r@) =~= desktop_outputs(raw@, 0));
    while a < raw.len() && a < MAX_ADAPTERS
        invariant
            a <= raw@.len(),
            a <= MAX_ADAPTERS,
            output_views(r@) == desktop_outputs(raw@, a as int),
        decreases raw@.len() - a,
    {
        let mut more = outputs_of(a, &raw[a]);
        let ghost before = r@;
        let ghost added = more@;
        r.append(&mut more);
        assert(r@ =~= before + added);
        assert(output_views(before + added) =~= output_views(before) + output_views(added));
        a += 1;
    }
    r
}

/// The first output with the given name, from number `i` on.
pub open spec fn named_output(
    outputs: Seq<(u32, u32, Seq<char>, Rect)>,
    name: Seq<char>,
    i: int,
) -> Option<(u32, u32, Seq<char>, Rect)>
    decreases outputs.len() - i,
{
    if i < 0 || i >= outputs.len() {
        None
    } else if outputs[i].2 == name {
        Some(outputs[i])
    } else {
        named_output(outputs, name, i + 1)
    }
}

/// An optional output.
pub open spec fn optional_output(o: Option<OutputInfo>) -> Option<(u32, u32, Seq<char>, Rect)> {
    match o {
        Some(x) => Some(x@),
        None => None,
    }
}

/// The output with the given name. Its place and size may have changed since it
/// was last looked up.
pub fn find_output_by_name(outputs: &Vec<OutputInfo>, name: &str) -> (r: Option<OutputInfo>)
    ensures
        optional_output(r) == named_output(output_views(outputs@), name@, 0),
{
    let mut i: usize = 0;
    while i < outputs.len()
        invariant
            i <= outputs@.len(),
            named_output(output_views(outputs@), name@, 0) == named_output(
                output_views(outputs@),
                name@,
                i as int,
            ),
        decreases outputs@.len() - i,
    {
        assert(output_views(outputs@)[i as int] == outputs@[i as int]@);
        if same(outputs[i].device_name.as_str(), name) {
            return Some(outputs[i].copied());
        }
        i += 1;
    }
    None
}

/// The first output whose name is not among `before`, from number `i` on.
pub open spec fn new_output(
    outputs: Seq<(u32, u32, Seq<char>, Rect)>,
    before: Seq<Seq<char>>,
    i: int,
) -> Option<(u32, u32, Seq<char>, Rect)>
    decreases outputs.len() - i,
{
    if i < 0 || i >= outputs.len() {
        None
    } else if !before.contains(outputs[i].2) {
        Some(outputs[i])
    } else {
        new_output(outputs, before, i + 1)
    }
}

/// Whether a name is in a list.
fn listed(names: &Vec<String>, name: &str) -> (r: bool)
    ensures
        r == texts(names@).contains(name@),
{
    let mut i: usize = 0;
    while i < names.len()
        invariant
            i <= names@.len(),
            forall|k: int| 0 <= k < i ==> #[trigger] texts(names@)[k] != name@,
        decreases names@.len() - i,
    {
        assert(texts(names@)[i as int] == names@[i as int]@);
        if same(names[i].as_str(), name) {
            return true;
        }
        i += 1;
    }
    assert(texts(names@).len() == names@.len());
    false
}

/// What to do after a look at the list of outputs.
pub enum AttachStep {
    /// The virtual monitor is there.
    Ready(OutputInfo),
    /// Pause, and look again.
    Wait,
    /// It has not appeared in time.
    GiveUp,
}

/// The virtual monitor is the output that was not there before. `poll` numbers
/// the looks from one on.
pub fn attach_step(outputs: &Vec<OutputInfo>, before: &Vec<String>, poll: u32) -> (r: AttachStep)
    ensures
        match new_output(output_views(outputs@), texts(before@), 0) {
            Some(view) => r matches AttachStep::Ready(o) && o@ == view,
            None => if poll < ATTACH_POLLS {
                r is Wait
            } else {
                r is GiveUp
            },
        },
        r is Wait ==> poll < 40,
        r is GiveUp ==> poll >= 40,
{
    let mut i: usize = 0;
    while i < outputs.len()
        invariant
            i <= outputs@.len(),
            new_output(output_views(outputs@), texts(before@), 0) == new_output(
                output_views(outputs@),
                texts(before@),
                i as int,
            ),
        decreases outputs@.len() - i,
    {
        assert(output_views(outputs@)[i as int] == outputs@[i as int]@);
        if !listed(before, outputs[i].device_name.as_str()) {
            return AttachStep::Ready(outputs[i].copied());
        }
        i += 1;
    }
    if poll < ATTACH_POLLS {
        AttachStep::Wait
    } else {
        AttachStep::GiveUp
    }
}

/// A request for a display mode. Without a frequency the driver keeps its own.
#[derive(Clone, Copy, Debug, PartialEq, Eq, Structural)]
pub struct ModeRequest {
    pub width: u32,
    pub height: u32,
    pub frequency: Option<u32>,
}

/// The request for a display mode; a frequency of zero leaves it open.
pub fn display_mode(w: u32, h: u32, hz: u32) -> (r: ModeRequest)
    ensures
        r == (ModeRequest {
            width: w,
            height: h,
            frequency: if hz > 0 {
                Some(hz)
            } else {
                None
            },
        }),
{
    ModeRequest {
        width: w,
        height: h,
        frequency: if hz > 0 {
            Some(hz)
        } else {
            None
        },
    }
}

/// An output that was there before is never taken for the virtual monitor.
pub proof fn law_new_output_is_new(
    outputs: Seq<(u32, u32, Seq<char>, Rect)>,
    before: Seq<Seq<char>>,
    i: int,
)
    requires
        0 <= i,
    ensures
        new_output(outputs, before, i) matches Some(o) ==> outputs.contains(o) && !before.contains(
            o.2,
        ),
        new_output(outputs, before, i) is None ==> forall|k: int|
            i <= k < outputs.len() ==> before.contains(#[trigger] outputs[k].2),
    decreases outputs.len() - i,
{
    if i < outputs.len() && before.contains(outputs[i].2) {
        law_new_output_is_new(outputs, before, i + 1);
    }
}

/// The list holds only outputs of the adapters and numbers that were looked at.
pub proof fn law_outputs_bounded(raw: Seq<Vec<Option<RawOutput>>>, n: int, k: int)
    requires
        0 <= n <= MAX_ADAPTERS,
        n <= raw.len(),
        0 <= k < desktop_outputs(raw, n).len(),
    ensures
        desktop_outputs(raw, n)[k].0 < n,
        desktop_outputs(raw, n)[k].1 < MAX_OUTPUTS,
    decreases n,
{
    if n > 0 {
        let head = desktop_outputs(raw, n - 1);
        let m = capped(raw[n - 1]@.len() as int, MAX_OUTPUTS as int);
        if k < head.len() {
            law_outputs_bounded(raw, n - 1, k);
            assert(desktop_outputs(raw, n)[k] == head[k]);
        } else {
            lemma_adapter_bounded(n - 1, raw[n - 1]@, m, k - head.len());
        }
    }
}

/// The outputs of one adapter carry its number, and their own.
proof fn lemma_adapter_bounded(a: int, raw: Seq<Option<RawOutput>>, n: int, k: int)
    requires
        0 <= a < MAX_ADAPTERS,
        0 <= n <= MAX_OUTPUTS,
        0 <= k < adapter_outputs(a, raw, n).len(),
    ensures
        adapter_outputs(a, raw, n)[k].0 == a,
        adapter_outputs(a, raw, n)[k].1 < n,
    decreases n,
{
    if n > 0 {
        let before = adapter_outputs(a, raw, n - 1);
        if k < before.len() {
            lemma_adapter_bounded(a, raw, n - 1, k);
            assert(adapter_outputs(a, raw, n)[k] == before[k]);
        }
    }
}

/// The first `n` outputs in JSON, of the main adapter alone. Each has the number by
/// which it is chosen, its own; the one at the origin is the primary one.
pub open spec fn output_items(outputs: Seq<OutputInfo>, n: int) -> Seq<Seq<char>>
    decreases n,
{
    if n <= 0 {
        Seq::empty()
    } else {
        let o = outputs[n - 1];
        let before = output_items(outputs, n - 1);
        if o.adapter_index == 0 {
            before.push(
                screen_json(
                    o.output_index as int,
                    o.device_name@,
                    o.rect,
                    o.rect.left == 0 && o.rect.top == 0,
                ),
            )
        } else {
            before
        }
    }
}

/// The outputs of the main adapter in JSON, with the numbers by which they can be
/// chosen.
pub fn outputs_json(outputs: &Vec<OutputInfo>) -> (r: String)
    requires
        forall|i: int|
            0 <= i < outputs@.len() && outputs@[i].adapter_index == 0 ==> (
            #[trigger] outputs@[i]).rect.measurable(),
    ensures
        r@ == json_list(output_items(outputs@, outputs@.len() as int)),
{
    let mut items: Vec<String> = Vec::new();
    let mut i: usize = 0;
    assert(texts(items@) =~= output_items(outputs@, 0));
    while i < outputs.len()
        invariant
            i <= outputs@.len(),
            forall|i: int|
                0 <= i < outputs@.len() && outputs@[i].adapter_index == 0 ==> (
                #[trigger] outputs@[i]).rect.measurable(),
            texts(items@) == output_items(outputs@, i as int),
        decreases outputs@.len() - i,
    {
        let o = &outputs[i];
        if o.adapter_index == 0 {
            assert(outputs@[i as int].rect.measurable());
            push_string(
                &mut items,
                describe(
                    o.output_index as u64,
                    o.device_name.as_str(),
                    o.rect,
                    o.rect.left == 0 && o.rect.top == 0,
                ),
            );
        }
        i += 1;
    }
    bracketed(&items)
}

/// The request that removes a monitor holds its number in sixteen bits, the upper half
/// first, and nothing else.
pub proof fn law_remove_request(index: u32, i: int)
    ensures
        remove_bytes(index).len() == 32,
        256 * remove_bytes(index)[0] + remove_bytes(index)[1] == index % 65536,
        2 <= i < 32 ==> remove_bytes(index)[i] == 0,
{
}

/// An output that is part of the desktop is listed, under the numbers of its adapter
/// and its own, with its name up to the first zero and its place.
pub proof fn law_output_listed(raw: Seq<Vec<Option<RawOutput>>>, n: int, a: int, i: int)
    requires
        0 <= a < n <= raw.len(),
        n <= 8,
        0 <= i < raw[a]@.len(),
        i < 8,
        raw[a]@[i] is Some,
        raw[a]@[i]->Some_0.attached,
    ensures
        desktop_outputs(raw, n).contains(
            (
                a as u32,
                i as u32,
                decoded(until_zero(raw[a]@[i]->Some_0.name@)),
                raw[a]@[i]->Some_0.rect,
            ),
        ),
    decreases n,
{
    let head = desktop_outputs(raw, n - 1);
    let all = desktop_outputs(raw, n);
    let view = (
        a as u32,
        i as u32,
        decoded(until_zero(raw[a]@[i]->Some_0.name@)),
        raw[a]@[i]->Some_0.rect,
    );
    if a < n - 1 {
        law_output_listed(raw, n - 1, a, i);
        let k = choose|k: int| 0 <= k < head.len() && head[k] == view;
        assert(all[k] == head[k]);
    } else {
        let m = capped(raw[a]@.len() as int, MAX_OUTPUTS as int);
        let own = adapter_outputs(a, raw[a]@, m);
        lemma_adapter_lists(a, raw[a]@, m, i);
        let k = choose|k: int| 0 <= k < own.len() && own[k] == view;
        assert(all[head.len() + k] == own[k]);
    }
}

/// An adapter lists an output that is part of the desktop.
proof fn lemma_adapter_lists(a: int, raw: Seq<Option<RawOutput>>, n: int, i: int)
    requires
        0 <= i < n,
        raw[i] is Some,
        raw[i]->Some_0.attached,
    ensures
        adapter_outputs(a, raw, n).contains(
            (
                a as u32,
                i as u32,
                decoded(until_zero(raw[i]->Some_0.name@)),
                raw[i]->Some_0.rect,
            ),
        ),
    decreases n,
{
    let all = adapter_outputs(a, raw, n);
    let before = adapter_outputs(a, raw, n - 1);
    let view = (
        a as u32,
        i as u32,
        decoded(until_zero(raw[i]->Some_0.name@)),
        raw[i]->Some_0.rect,
    );
    if i < n - 1 {
        lemma_adapter_lists(a, raw, n - 1, i);
        let k = choose|k: int| 0 <= k < before.len() && before[k] == view;
        assert(all[k] == before[k]);
    } else {
        assert(all[before.len() as int] == view);
    }
}

/// Whatever is listed is an output of the desktop, with its own numbers, name and
/// place.
pub proof fn law_listed_is_output(raw: Seq<Vec<Option<RawOutput>>>, n: int, k: int)
    requires
        0 <= n <= 8,
        n <= raw.len(),
        0 <= k < desktop_outputs(raw, n).len(),
    ensures
        ({
            let o = desktop_outputs(raw, n)[k];
            &&& o.0 < n
            &&& o.1 < raw[o.0 as int]@.len()
            &&& o.1 < 8
            &&& raw[o.0 as int]@[o.1 as int] matches Some(r) && r.attached && o.2 == decoded(
                until_zero(r.name@),
            ) && o.3 == r.rect
        }),
    decreases n,
{
    if n > 0 {
        let head = desktop_outputs(raw, n - 1);
        let m = capped(raw[n - 1]@.len() as int, MAX_OUTPUTS as int);
        if k < head.len() {
            law_listed_is_output(raw, n - 1, k);
            assert(desktop_outputs(raw, n)[k] == head[k]);
        } else {
            lemma_adapter_listed(n - 1, raw[n - 1]@, m, k - head.len());
        }
    }
}

/// Whatever an adapter lists is an output of the desktop.
proof fn lemma_adapter_listed(a: int, raw: Seq<Option<RawOutput>>, n: int, k: int)
    requires
        0 <= a < 8,
        0 <= n <= 8,
        n <= raw.len(),
        0 <= k < adapter_outputs(a, raw, n).len(),
    ensures
        ({
            let o = adapter_outputs(a, raw, n)[k];
            &&& o.0 == a
            &&& o.1 < n
            &&& raw[o.1 as int] matches Some(r) && r.attached && o.2 == decoded(
                until_zero(r.name@),
            ) && o.3 == r.rect
        }),
    decreases n,
{
    if n > 0 {
        let before = adapter_outputs(a, raw, n - 1);
        if k < before.len() {
            lemma_adapter_listed(a, raw, n - 1, k);
            assert(adapter_outputs(a, raw, n)[k] == before[k]);
        }
    }
}

/// The output with a name is the first that has it, and there is none only where no
/// output has it.
pub proof fn law_found_by_name(
    outputs: Seq<(u32, u32, Seq<char>, Rect)>,
    name: Seq<char>,
    k: int,
)
    requires
        0 <= k <= outputs.len(),
        forall|j: int| 0 <= j < k ==> (#[trigger] outputs[j]).2 != name,
        k < outputs.len() ==> outputs[k].2 == name,
    ensures
        k < outputs.len() ==> named_output(outputs, name, 0) == Some(outputs[k]),
        k == outputs.len() ==> named_output(outputs, name, 0) is None,
{
    lemma_named_from(outputs, name, 0, k);
}

/// Outputs with another name are passed over.
proof fn lemma_named_from(
    outputs: Seq<(u32, u32, Seq<char>, Rect)>,
    name: Seq<char>,
    i: int,
    k: int,
)
    requires
        0 <= i <= k <= outputs.len(),
        forall|j: int| 0 <= j < k ==> (#[trigger] outputs[j]).2 != name,
    ensures
        named_output(outputs, name, i) == named_output(outputs, name, k),
    decreases k - i,
{
    if i < k {
        lemma_named_from(outputs, name, i + 1, k);
    }
}

/// The virtual monitor is the first output whose name was not there before.
pub proof fn law_first_new_output(
    outputs: Seq<(u32, u32, Seq<char>, Rect)>,
    before: Seq<Seq<char>>,
    k: int,
)
    requires
        0 <= k < outputs.len(),
        forall|j: int| 0 <= j < k ==> before.contains((#[trigger] outputs[j]).2),
        !before.contains(outputs[k].2),
    ensures
        new_output(outputs, before, 0) == Some(outputs[k]),
{
    lemma_new_from(outputs, before, 0, k);
}

/// Outputs that were there before are passed over.
proof fn lemma_new_from(
    outputs: Seq<(u32, u32, Seq<char>, Rect)>,
    before: Seq<Seq<char>>,
    i: int,
    k: int,
)
    requires
        0 <= i <= k <= outputs.len(),
        forall|j: int| 0 <= j < k ==> before.contains((#[trigger] outputs[j]).2),
    ensures
        new_output(outputs, before, i) == new_output(outputs, before, k),
    decreases k - i,
{
    if i < k {
        lemma_new_from(outputs, before, i + 1, k);
    }
}

/// The list in JSON has an item for each output of the main adapter, with its own
/// number and its name, and no other.
pub proof fn law_main_adapter_in_json(outputs: Seq<OutputInfo>, n: int, o: OutputInfo)
    requires
        0 <= n < outputs.len(),
        outputs[n] == o,
    ensures
        o.adapter_index != 0 ==> output_items(outputs, n + 1) == output_items(outputs, n),
        o.adapter_index == 0 ==> output_items(outputs, n + 1) == output_items(outputs, n).push(
            screen_json(
                o.output_index as int,
                o.device_name@,
                o.rect,
                o.rect.left == 0 && o.rect.top == 0,
            ),
        ),
        output_items(outputs, 0) == Seq::<Seq<char>>::empty(),
{
}

/// The virtual monitor is waited for ten seconds, and the driver hears of the host many
/// times in each second, so that it does not remove the monitor.
pub proof fn law_driver_times()
    ensures
        40 * ATTACH_PAUSE_MS == 10_000,
        20 * KEEPALIVE_MS == 1000,
        IOCTL_ADD == 0x0022_e004,
        IOCTL_REMOVE == 0x0022_a008,
        IOCTL_UPDATE == 0x0022_a00c,
        IOCTL_VERSION == 0x0022_e010,
{
}

/// Up to eight adapters are looked at, and up to eight outputs of each.
pub proof fn law_list_limits(n: int)
    ensures
        n < 8 ==> capped(n, MAX_ADAPTERS as int) == n && capped(n, MAX_OUTPUTS as int) == n,
        n >= 8 ==> capped(n, MAX_ADAPTERS as int) == 8 && capped(n, MAX_OUTPUTS as int) == 8,
{
}

/// The outputs are listed in the order of their adapters, and those of an adapter in
/// the order of their numbers; none is listed twice.
pub proof fn law_outputs_ordered(raw: Seq<Vec<Option<RawOutput>>>, n: int, i: int, j: int)
    requires
        0 <= n <= 8,
        n <= raw.len(),
        0 <= i < j < desktop_outputs(raw, n).len(),
    ensures
        ({
            let a = desktop_outputs(raw, n)[i];
            let b = desktop_outputs(raw, n)[j];
            a.0 < b.0 || (a.0 == b.0 && a.1 < b.1)
        }),
    decreases n,
{
    if n > 0 {
        let head = desktop_outputs(raw, n - 1);
        let all = desktop_outputs(raw, n);
        let m = capped(raw[n - 1]@.len() as int, MAX_OUTPUTS as int);
        if j < head.len() {
            law_outputs_ordered(raw, n - 1, i, j);
            assert(all[i] == head[i] && all[j] == head[j]);
        } else if i < head.len() {
            law_outputs_bounded(raw, n - 1, i);
            assert(all[i] == head[i]);
            lemma_adapter_bounded(n - 1, raw[n - 1]@, m, j - head.len());
        } else {
            lemma_adapter_bounded(n - 1, raw[n - 1]@, m, i - head.len());
            lemma_adapter_bounded(n - 1, raw[n - 1]@, m, j - head.len());
            lemma_adapter_ordered(n - 1, raw[n - 1]@, m, i - head.len(), j - head.len());
        }
    }
}

/// An adapter lists its outputs in the order of their numbers.
proof fn lemma_adapter_ordered(a: int, raw: Seq<Option<RawOutput>>, n: int, i: int, j: int)
    requires
        0 <= a < MAX_ADAPTERS,
        0 <= n <= MAX_OUTPUTS,
        0 <= i < j < adapter_outputs(a, raw, n).len(),
    ensures
        adapter_outputs(a, raw, n)[i].1 < adapter_outputs(a, raw, n)[j].1,
    decreases n,
{
    if n > 0 {
        let before = adapter_outputs(a, raw, n - 1);
        let all = adapter_outputs(a, raw, n);
        if j < before.len() {
            lemma_adapter_ordered(a, raw, n - 1, i, j);
            assert(all[i] == before[i] && all[j] == before[j]);
        } else {
            lemma_adapter_bounded(a, raw, n - 1, i);
            assert(all[i] == before[i]);
        }
    }
}

} // verus!
