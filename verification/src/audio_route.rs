//! Sound for the television alone, on Windows: while the stream runs, a virtual
//! device is the default output. What plays there is captured and heard on the
//! television, and the machine is silent. Afterwards the old default comes back.
//!
//! The id of the old default is also kept in a record on disk, for the case that
//! the host does not end in order.

use crate::text::{contains, occurs, occurs_at, optional, trim, trimmed};
use crate::utf16::{decode, decoded, encode_terminated, encoded, law_decode_encode};
use vstd::prelude::*;

verus! {

/// A sound output of the machine.
pub struct Endpoint {
    /// The id in UTF-16, with a zero behind it.
    pub id: Vec<u16>,
    pub name: String,
}

/// The ids of all outputs end in the zero.
pub open spec fn endpoints_wf(endpoints: Seq<Endpoint>) -> bool {
    forall|i: int| 0 <= i < endpoints.len() ==> (#[trigger] endpoints[i]).id@.len() > 0
}

/// The reliable virtual device.
pub open spec fn cable(name: Seq<char>) -> bool {
    occurs(name, "CABLE Input"@)
}

/// The virtual device to fall back on: it gives little sound while nothing is
/// streamed with it.
pub open spec fn steam(name: Seq<char>) -> bool {
    occurs(name, "Steam Streaming"@)
}

/// A device that plays nothing.
pub open spec fn virtual_device(name: Seq<char>) -> bool {
    cable(name) || steam(name)
}

/// Whether a device plays nothing, by its name.
pub fn is_virtual_name(name: &str) -> (r: bool)
    ensures
        r == virtual_device(name@),
{
    contains(name, "CABLE Input") || contains(name, "Steam Streaming")
}

/// Which outputs are looked for.
#[derive(Clone, Copy, Debug, PartialEq, Eq, Structural)]
pub enum Wanted {
    Cable,
    Steam,
    /// No virtual device.
    Real,
}

/// An output of the wanted kind.
pub open spec fn fits(name: Seq<char>, w: Wanted) -> bool {
    match w {
        Wanted::Cable => cable(name),
        Wanted::Steam => steam(name),
        Wanted::Real => !virtual_device(name),
    }
}

/// The number of the first output of the wanted kind, from `i` on, or the number
/// of outputs.
pub open spec fn first_fit(endpoints: Seq<Endpoint>, w: Wanted, i: int) -> int
    decreases endpoints.len() - i,
{
    if i < 0 || i >= endpoints.len() {
        endpoints.len() as int
    } else if fits(endpoints[i].name@, w) {
        i
    } else {
        first_fit(endpoints, w, i + 1)
    }
}

/// The number of the first output of the wanted kind, or the number of outputs.
fn find_fit(endpoints: &Vec<Endpoint>, w: Wanted) -> (r: usize)
    ensures
        r == first_fit(endpoints@, w, 0),
        r <= endpoints@.len(),
        r < endpoints@.len() ==> fits(endpoints@[r as int].name@, w),
{
    let mut i: usize = 0;
    while i < endpoints.len()
        invariant
            i <= endpoints@.len(),
            first_fit(endpoints@, w, 0) == first_fit(endpoints@, w, i as int),
        decreases endpoints@.len() - i,
    {
        let name = endpoints[i].name.as_str();
        let fit = match w {
            Wanted::Cable => contains(name, "CABLE Input"),
            Wanted::Steam => contains(name, "Steam Streaming"),
            Wanted::Real => !is_virtual_name(name),
        };
        if fit {
            return i;
        }
        i += 1;
    }
    i
}

/// Whether the reliable virtual device is there. `endpoints` is absent where the
/// outputs could not be listed.
pub fn virtual_sink_available(endpoints: &Option<Vec<Endpoint>>) -> (r: bool)
    ensures
        r == (endpoints matches Some(list) && first_fit(list@, Wanted::Cable, 0) < list@.len()),
{
    match endpoints {
        Some(list) => find_fit(list, Wanted::Cable) < list.len(),
        None => false,
    }
}

/// The virtual device that is used: the reliable one, else the other.
pub open spec fn target_of(endpoints: Seq<Endpoint>) -> int {
    let c = first_fit(endpoints, Wanted::Cable, 0);
    if c < endpoints.len() {
        c
    } else {
        first_fit(endpoints, Wanted::Steam, 0)
    }
}

/// The number of the output with the given id, from `i` on, or the number of
/// outputs.
pub open spec fn id_index(endpoints: Seq<Endpoint>, id: Seq<u16>, i: int) -> int
    decreases endpoints.len() - i,
{
    if i < 0 || i >= endpoints.len() {
        endpoints.len() as int
    } else if endpoints[i].id@ == id {
        i
    } else {
        id_index(endpoints, id, i + 1)
    }
}

/// The default output is a virtual device already: an earlier run did not end in
/// order.
pub open spec fn stuck(endpoints: Seq<Endpoint>, default_id: Seq<u16>) -> bool {
    let k = id_index(endpoints, default_id, 0);
    0 <= k < endpoints.len() && virtual_device(endpoints[k].name@)
}

/// The id that a record on disk holds.
pub open spec fn recorded_id(record: Seq<char>) -> Seq<u16> {
    encoded(trimmed(record)).push(0)
}

/// What a record on disk holds of an id.
pub open spec fn record_of(id: Seq<u16>) -> Seq<char> {
    decoded(id.drop_last())
}

/// A real output: the recorded one, else the first in the list.
pub open spec fn real_output(endpoints: Seq<Endpoint>, record: Option<Seq<char>>) -> Option<
    Seq<u16>,
> {
    let k = first_fit(endpoints, Wanted::Real, 0);
    match record {
        Some(text) => Some(recorded_id(text)),
        None => if 0 <= k < endpoints.len() {
            Some(endpoints[k].id@)
        } else {
            None
        },
    }
}

/// The output that comes back at the end: the default one, and where that is
/// stuck on a virtual device, a real one if any is known.
pub open spec fn previous_of(
    endpoints: Seq<Endpoint>,
    default_id: Seq<u16>,
    record: Option<Seq<char>>,
) -> Seq<u16> {
    if stuck(endpoints, default_id) && real_output(endpoints, record) is Some {
        real_output(endpoints, record)->0
    } else {
        default_id
    }
}

/// Whether two ids are the same.
fn same_id(a: &Vec<u16>, b: &Vec<u16>) -> (r: bool)
    ensures
        r == (a@ == b@),
{
    if a.len() != b.len() {
        return false;
    }
    let mut i: usize = 0;
    while i < a.len()
        invariant
            i <= a@.len(),
            a@.len() == b@.len(),
            forall|k: int| 0 <= k < i ==> a@[k] == b@[k],
        decreases a@.len() - i,
    {
        if a[i] != b[i] {
            return false;
        }
        i += 1;
    }
    assert(a@ =~= b@);
    true
}

/// Another value of the same id.
fn copy_id(a: &Vec<u16>) -> (r: Vec<u16>)
    ensures
        r@ == a@,
{
    let mut r: Vec<u16> = Vec::new();
    r.extend_from_slice(a.as_slice());
    assert(r@ =~= a@);
    r
}

/// Whether the default output is stuck on a virtual device.
fn is_stuck(endpoints: &Vec<Endpoint>, default_id: &Vec<u16>) -> (r: bool)
    ensures
        r == stuck(endpoints@, default_id@),
{
    let mut i: usize = 0;
    while i < endpoints.len()
        invariant
            i <= endpoints@.len(),
            id_index(endpoints@, default_id@, 0) == id_index(endpoints@, default_id@, i as int),
        decreases endpoints@.len() - i,
    {
        if same_id(&endpoints[i].id, default_id) {
            return is_virtual_name(endpoints[i].name.as_str());
        }
        i += 1;
    }
    false
}

/// An optional id.
pub open spec fn optional_id(id: Option<Vec<u16>>) -> Option<Seq<u16>> {
    match id {
        Some(v) => Some(v@),
        None => None,
    }
}

/// The output that sound goes back to, where none is known: the recorded one,
/// else the first real one.
pub fn restore_target(endpoints: &Vec<Endpoint>, record: &Option<String>) -> (r: Option<Vec<u16>>)
    ensures
        optional_id(r) == real_output(endpoints@, optional(*record)),
{
    match record {
        Some(text) => {
            let t = trim(text.as_str());
            Some(encode_terminated(t.as_str()))
        },
        None => {
            let k = find_fit(endpoints, Wanted::Real);
            if k < endpoints.len() {
                Some(copy_id(&endpoints[k].id))
            } else {
                None
            }
        },
    }
}

/// What is done to send the sound to the television.
pub struct RoutePlan {
    /// The number of the output that becomes the default.
    pub target: usize,
    /// It is not the reliable virtual device.
    pub unreliable: bool,
    /// The id that comes back at the end.
    pub previous_id: Vec<u16>,
    /// The id was not the default, because that was stuck on a virtual device.
    pub replaced: bool,
    /// What is recorded on disk.
    pub record: String,
}

/// There is no virtual device.
#[derive(Clone, Copy, Debug, PartialEq, Eq, Structural)]
pub struct NoVirtualDevice;

/// The number of the virtual device that is used: the reliable one, else the other.
pub fn find_target(endpoints: &Vec<Endpoint>) -> (r: Option<usize>)
    ensures
        r is Some <==> target_of(endpoints@) < endpoints@.len(),
        r matches Some(k) ==> k == target_of(endpoints@) && k < endpoints@.len()
            && virtual_device(endpoints@[k as int].name@),
{
    let first = find_fit(endpoints, Wanted::Cable);
    let target: usize = if first < endpoints.len() {
        first
    } else {
        find_fit(endpoints, Wanted::Steam)
    };
    if target < endpoints.len() {
        Some(target)
    } else {
        None
    }
}

/// Plans how the sound is sent to the television: which device becomes the
/// default, and which one comes back. `record` is what an earlier run left on
/// disk.
pub fn engage(endpoints: &Vec<Endpoint>, default_id: &Vec<u16>, record: &Option<String>) -> (r:
    Result<RoutePlan, NoVirtualDevice>)
    requires
        endpoints_wf(endpoints@),
        default_id@.len() > 0,
    ensures
        r is Ok <==> target_of(endpoints@) < endpoints@.len(),
        r matches Ok(plan) ==> {
            &&& plan.target == target_of(endpoints@)
            &&& virtual_device(endpoints@[plan.target as int].name@)
            &&& plan.unreliable == steam(endpoints@[plan.target as int].name@)
            &&& plan.previous_id@ == previous_of(endpoints@, default_id@, optional(*record))
            &&& plan.replaced == (stuck(endpoints@, default_id@) && real_output(
                endpoints@,
                optional(*record),
            ) is Some)
            &&& plan.record@ == record_of(plan.previous_id@)
        },
{
    let target: usize = match find_target(endpoints) {
        Some(k) => k,
        None => {
            return Err(NoVirtualDevice);
        },
    };
    let unreliable = contains(endpoints[target].name.as_str(), "Steam Streaming");
    let mut previous_id = copy_id(default_id);
    let mut replaced = false;
    if is_stuck(endpoints, default_id) {
        if let Some(id) = restore_target(endpoints, record) {
            proof {
                lemma_real_output_terminated(endpoints@, optional(*record));
            }
            previous_id = id;
            replaced = true;
        }
    }
    let body = vstd::slice::slice_subrange(previous_id.as_slice(), 0, previous_id.len() - 1);
    assert(body@ =~= previous_id@.drop_last());
    let record = decode(body);
    Ok(RoutePlan { target, unreliable, previous_id, replaced, record })
}

/// A real output has an id with a zero behind it.
proof fn lemma_real_output_terminated(endpoints: Seq<Endpoint>, record: Option<Seq<char>>)
    requires
        endpoints_wf(endpoints),
    ensures
        real_output(endpoints, record) matches Some(id) ==> id.len() > 0,
{
}

/// The first output of a kind is of that kind.
proof fn lemma_first_fit(endpoints: Seq<Endpoint>, w: Wanted, i: int)
    requires
        0 <= i,
    ensures
        i < endpoints.len() ==> i <= first_fit(endpoints, w, i) <= endpoints.len(),
        first_fit(endpoints, w, i) < endpoints.len() ==> fits(
            endpoints[first_fit(endpoints, w, i)].name@,
            w,
        ),
    decreases endpoints.len() - i,
{
    if i < endpoints.len() && !fits(endpoints[i].name@, w) {
        lemma_first_fit(endpoints, w, i + 1);
    }
}

/// After a run that did not end in order, the record gives back the very output
/// that was the default before, for an id that is proper UTF-16 without white
/// space around it.
pub proof fn law_record_restores(endpoints: Seq<Endpoint>, id: Seq<u16>, t: Seq<char>)
    requires
        id == encoded(t).push(0),
        trimmed(t) == t,
    ensures
        real_output(endpoints, Some(record_of(id))) == Some(id),
{
    assert(id.drop_last() =~= encoded(t));
    law_decode_encode(t);
}

/// Sound never comes back to a virtual device: without a record, what comes back
/// is no virtual device in the list, as long as a real one is in it and no two
/// outputs have one id.
pub proof fn law_previous_is_real(endpoints: Seq<Endpoint>, default_id: Seq<u16>, k: int)
    requires
        0 <= k < endpoints.len(),
        exists|j: int|
            0 <= j < endpoints.len() && !virtual_device(#[trigger] endpoints[j].name@),
        forall|i: int, j: int|
            0 <= i < j < endpoints.len() ==> (#[trigger] endpoints[i]).id@ != (
            #[trigger] endpoints[j]).id@,
        endpoints[k].id@ == previous_of(endpoints, default_id, None),
    ensures
        !virtual_device(endpoints[k].name@),
{
    let j = choose|j: int|
        0 <= j < endpoints.len() && !virtual_device(#[trigger] endpoints[j].name@);
    lemma_fit_exists(endpoints, Wanted::Real, 0, j);
    lemma_first_fit(endpoints, Wanted::Real, 0);
    lemma_id_index(endpoints, default_id, 0);
    let d = id_index(endpoints, default_id, 0);
    if !stuck(endpoints, default_id) {
        lemma_id_found(endpoints, default_id, 0, k);
    }
}

/// Where an output fits, one is found.
proof fn lemma_fit_exists(endpoints: Seq<Endpoint>, w: Wanted, i: int, j: int)
    requires
        0 <= i <= j < endpoints.len(),
        fits(endpoints[j].name@, w),
    ensures
        i <= first_fit(endpoints, w, i) <= j,
    decreases j - i,
{
    if !fits(endpoints[i].name@, w) {
        lemma_fit_exists(endpoints, w, i + 1, j);
    }
}

/// What is found by its id has that id.
proof fn lemma_id_index(endpoints: Seq<Endpoint>, id: Seq<u16>, i: int)
    requires
        0 <= i,
    ensures
        id_index(endpoints, id, i) < endpoints.len() ==> endpoints[id_index(
            endpoints,
            id,
            i,
        )].id@ == id,
    decreases endpoints.len() - i,
{
    if i < endpoints.len() && endpoints[i].id@ != id {
        lemma_id_index(endpoints, id, i + 1);
    }
}

/// Where an output has an id, one is found.
proof fn lemma_id_found(endpoints: Seq<Endpoint>, id: Seq<u16>, i: int, k: int)
    requires
        0 <= i <= k < endpoints.len(),
        endpoints[k].id@ == id,
    ensures
        i <= id_index(endpoints, id, i) <= k,
    decreases k - i,
{
    if endpoints[i].id@ != id {
        lemma_id_found(endpoints, id, i + 1, k);
    }
}

/// A device is virtual exactly where its name holds that of one of the two virtual
/// devices.
pub proof fn law_virtual_names(a: Seq<char>, b: Seq<char>)
    ensures
        virtual_device(a + "CABLE Input"@ + b),
        virtual_device(a + "Steam Streaming"@ + b),
        !occurs(a, "CABLE Input"@) && !occurs(a, "Steam Streaming"@) ==> !virtual_device(a),
{
    let s = a + "CABLE Input"@ + b;
    let n = a.len() as int;
    assert(s.subrange(n, n + "CABLE Input"@.len()) =~= "CABLE Input"@);
    assert(occurs_at(s, "CABLE Input"@, n));
    let t = a + "Steam Streaming"@ + b;
    assert(t.subrange(n, n + "Steam Streaming"@.len()) =~= "Steam Streaming"@);
    assert(occurs_at(t, "Steam Streaming"@, n));
}

/// The first output of a kind is found: nothing before it is of that kind.
proof fn lemma_fit_first(endpoints: Seq<Endpoint>, w: Wanted, i: int)
    requires
        0 <= i <= endpoints.len(),
    ensures
        i <= first_fit(endpoints, w, i) <= endpoints.len(),
        first_fit(endpoints, w, i) < endpoints.len() ==> fits(
            endpoints[first_fit(endpoints, w, i)].name@,
            w,
        ),
        forall|j: int|
            i <= j < first_fit(endpoints, w, i) ==> !fits(#[trigger] endpoints[j].name@, w),
    decreases endpoints.len() - i,
{
    if i < endpoints.len() && !fits(endpoints[i].name@, w) {
        lemma_fit_first(endpoints, w, i + 1);
    }
}

/// The sound goes to the first reliable device, wherever it stands in the list; only
/// where there is none, to the first of the other kind; and only where there is none
/// of that either, nowhere.
pub proof fn law_target(endpoints: Seq<Endpoint>, k: int)
    requires
        0 <= k < endpoints.len(),
    ensures
        ({
            let t = target_of(endpoints);
            &&& 0 <= t <= endpoints.len()
            &&& occurs(endpoints[k].name@, "CABLE Input"@) ==> t <= k && occurs(
                endpoints[t].name@,
                "CABLE Input"@,
            )
            &&& occurs(endpoints[k].name@, "Steam Streaming"@) ==> t < endpoints.len() && (occurs(
                endpoints[t].name@,
                "CABLE Input"@,
            ) || (t <= k && occurs(endpoints[t].name@, "Steam Streaming"@)))
            &&& t < endpoints.len() ==> virtual_device(endpoints[t].name@)
        }),
{
    lemma_fit_first(endpoints, Wanted::Cable, 0);
    lemma_fit_first(endpoints, Wanted::Steam, 0);
}

/// What comes back at the end is the default output. Only where that is a virtual
/// device, the record is asked, and without a record it is the first real output.
pub proof fn law_previous(
    endpoints: Seq<Endpoint>,
    d: int,
    text: Seq<char>,
    k: int,
)
    requires
        0 <= d < endpoints.len(),
        forall|j: int| 0 <= j < d ==> (#[trigger] endpoints[j]).id@ != endpoints[d].id@,
        0 <= k < endpoints.len(),
        !virtual_device(endpoints[k].name@),
        forall|j: int| 0 <= j < k ==> virtual_device(#[trigger] endpoints[j].name@),
    ensures
        !virtual_device(endpoints[d].name@) ==> previous_of(
            endpoints,
            endpoints[d].id@,
            Some(text),
        ) == endpoints[d].id@ && previous_of(endpoints, endpoints[d].id@, None)
            == endpoints[d].id@,
        virtual_device(endpoints[d].name@) ==> previous_of(
            endpoints,
            endpoints[d].id@,
            Some(text),
        ) == encoded(trimmed(text)).push(0) && previous_of(endpoints, endpoints[d].id@, None)
            == endpoints[k].id@,
{
    let id = endpoints[d].id@;
    lemma_id_found(endpoints, id, 0, d);
    lemma_id_index(endpoints, id, 0);
    let i = id_index(endpoints, id, 0);
    if i < d {
        assert(endpoints[i].id@ == id);
    }
    lemma_fit_first(endpoints, Wanted::Real, 0);
    let r = first_fit(endpoints, Wanted::Real, 0);
    lemma_fit_exists(endpoints, Wanted::Real, 0, k);
    if r < k {
        assert(virtual_device(endpoints[r].name@));
    }
}

/// The reliable device is there exactly where one of the outputs has its name.
pub proof fn law_sink_available(endpoints: Seq<Endpoint>)
    ensures
        first_fit(endpoints, Wanted::Cable, 0) < endpoints.len() <==> exists|k: int|
            0 <= k < endpoints.len() && occurs(#[trigger] endpoints[k].name@, "CABLE Input"@),
{
    lemma_fit_first(endpoints, Wanted::Cable, 0);
    let c = first_fit(endpoints, Wanted::Cable, 0);
    if c < endpoints.len() {
        assert(occurs(endpoints[c].name@, "CABLE Input"@));
    }
    if exists|k: int|
        0 <= k < endpoints.len() && occurs(#[trigger] endpoints[k].name@, "CABLE Input"@) {
        let k = choose|k: int|
            0 <= k < endpoints.len() && occurs(#[trigger] endpoints[k].name@, "CABLE Input"@);
        lemma_fit_exists(endpoints, Wanted::Cable, 0, k);
    }
}

/// The default output comes back where it is not in the list, and where nothing but
/// virtual devices is known.
pub proof fn law_previous_kept(
    endpoints: Seq<Endpoint>,
    default_id: Seq<u16>,
    record: Option<Seq<char>>,
)
    ensures
        (forall|j: int| 0 <= j < endpoints.len() ==> (#[trigger] endpoints[j]).id@ != default_id)
            ==> previous_of(endpoints, default_id, record) == default_id,
        (forall|j: int| 0 <= j < endpoints.len() ==> virtual_device(#[trigger] endpoints[j].name@))
            ==> previous_of(endpoints, default_id, None) == default_id,
{
    lemma_id_index(endpoints, default_id, 0);
    lemma_fit_first(endpoints, Wanted::Real, 0);
    let d = id_index(endpoints, default_id, 0);
    let r = first_fit(endpoints, Wanted::Real, 0);
    if forall|j: int| 0 <= j < endpoints.len() ==> (#[trigger] endpoints[j]).id@ != default_id {
        if 0 <= d < endpoints.len() {
            assert(endpoints[d].id@ == default_id);
        }
    }
    if forall|j: int| 0 <= j < endpoints.len() ==> virtual_device(#[trigger] endpoints[j].name@) {
        if r < endpoints.len() {
            assert(virtual_device(endpoints[r].name@));
        }
    }
}

} // verus!
