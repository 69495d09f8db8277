//! H.264 in Annex-B form: start codes, NAL units, access units.
//!
//! A NAL unit begins with the bytes 0, 0, 1; the low five bits of the byte that
//! follows give its type. An access unit delimiter, type 9, stands before each
//! coded picture.

use vstd::prelude::*;

verus! {

/// The NAL unit types that the host looks at.
pub const NAL_IDR: u8 = 5;

pub const NAL_SPS: u8 = 7;

pub const NAL_PPS: u8 = 8;

pub const NAL_AUD: u8 = 9;

/// A start code stands at offset `i`, with a header byte behind it.
pub open spec fn start_code(s: Seq<u8>, i: int) -> bool {
    &&& 0 <= i
    &&& i + 3 < s.len()
    &&& s[i] == 0
    &&& s[i + 1] == 0
    &&& s[i + 2] == 1
}

/// The type in the header byte behind the start code at offset `i`.
pub open spec fn nal_type(s: Seq<u8>, i: int) -> u8 {
    s[i + 3] & 0x1f
}

/// A NAL unit of type `ty` has its start code at offset `i`.
pub open spec fn nal_at(s: Seq<u8>, i: int, ty: u8) -> bool {
    start_code(s, i) && nal_type(s, i) == ty
}

/// `s` holds a NAL unit of type `ty`.
pub open spec fn has_nal(s: Seq<u8>, ty: u8) -> bool {
    exists|i: int| #[trigger] nal_at(s, i, ty)
}

/// Where the NAL unit whose start code is at `i` begins: a zero byte before the
/// start code belongs to it (the four-byte form).
pub open spec fn nal_start(s: Seq<u8>, i: int) -> int {
    if i > 0 && s[i - 1] == 0 {
        i - 1
    } else {
        i
    }
}

/// The first start code at or after `j`, or the length of `s`.
pub open spec fn next_code(s: Seq<u8>, j: int) -> int
    decreases s.len() - j,
{
    if j + 3 >= s.len() {
        s.len() as int
    } else if start_code(s, j) {
        j
    } else {
        next_code(s, j + 1)
    }
}

/// Where the NAL unit whose start code is at `i` ends.
pub open spec fn nal_end(s: Seq<u8>, i: int) -> int {
    let j = next_code(s, i + 3);
    if j < s.len() {
        nal_start(s, j)
    } else {
        s.len() as int
    }
}

/// Where the delimiters with a start code below `n` begin, in ascending order.
pub open spec fn auds_below(s: Seq<u8>, n: int) -> Seq<int>
    decreases n,
{
    if n <= 0 {
        Seq::empty()
    } else if nal_at(s, n - 1, NAL_AUD) {
        auds_below(s, n - 1).push(nal_start(s, n - 1))
    } else {
        auds_below(s, n - 1)
    }
}

/// Where the access unit delimiters of `s` begin, in ascending order.
pub open spec fn aud_positions(s: Seq<u8>) -> Seq<int> {
    auds_below(s, s.len() as int)
}

/// The complete access units of `s`: what stands between two successive
/// delimiters, with the first of the two.
pub open spec fn units(s: Seq<u8>) -> Seq<Seq<u8>> {
    let p = aud_positions(s);
    if p.len() >= 2 {
        Seq::new((p.len() - 1) as nat, |k: int| s.subrange(p[k], p[k + 1]))
    } else {
        Seq::empty()
    }
}

/// What is kept of `s` once its complete access units are taken out.
pub open spec fn rest(s: Seq<u8>) -> Seq<u8> {
    let p = aud_positions(s);
    if p.len() >= 2 {
        s.skip(p.last())
    } else {
        s
    }
}

/// The parameter sets (SPS and PPS) with a start code below `n`, one after the
/// other.
pub open spec fn sets_below(s: Seq<u8>, n: int) -> Seq<u8>
    decreases n,
{
    if n <= 0 {
        Seq::empty()
    } else if nal_at(s, n - 1, NAL_SPS) || nal_at(s, n - 1, NAL_PPS) {
        sets_below(s, n - 1) + s.subrange(nal_start(s, n - 1), nal_end(s, n - 1))
    } else {
        sets_below(s, n - 1)
    }
}

/// The parameter sets of an access unit, one after the other.
pub open spec fn parameter_sets(s: Seq<u8>) -> Seq<u8> {
    sets_below(s, s.len() as int)
}

/// The parameter sets that are known after an access unit: its own where it has
/// any, else those known before.
pub open spec fn known_sets(before: Seq<u8>, au: Seq<u8>) -> Seq<u8> {
    if parameter_sets(au).len() > 0 {
        parameter_sets(au)
    } else {
        before
    }
}

/// The bytes that go out for an access unit: a key frame without an SPS of its
/// own gets the known parameter sets in front, so that a late viewer's decoder
/// can start on it.
pub open spec fn frame_data(before: Seq<u8>, au: Seq<u8>) -> Seq<u8> {
    if has_nal(au, NAL_IDR) && !has_nal(au, NAL_SPS) {
        known_sets(before, au) + au
    } else {
        au
    }
}

/// Offsets right behind a start code hold no start code.
pub proof fn lemma_codes_apart(s: Seq<u8>, i: int)
    requires
        start_code(s, i),
    ensures
        !start_code(s, i + 1),
        !start_code(s, i + 2),
{
}

/// Delimiters begin in ascending order, inside the buffer.
pub proof fn lemma_auds_ascend(s: Seq<u8>, n: int)
    requires
        n <= s.len(),
    ensures
        forall|k: int| 0 <= k < auds_below(s, n).len() ==> 0 <= #[trigger] auds_below(s, n)[k] < n,
        forall|a: int, b: int|
            0 <= a < b < auds_below(s, n).len() ==> #[trigger] auds_below(s, n)[a]
                < #[trigger] auds_below(s, n)[b],
    decreases n,
{
    if n > 0 {
        lemma_auds_ascend(s, n - 1);
        let p = auds_below(s, n);
        let q = auds_below(s, n - 1);
        assert forall|k: int| 0 <= k < p.len() implies 0 <= #[trigger] p[k] < n by {
            if k < q.len() {
                assert(p[k] == q[k]);
            }
        }
        assert forall|a: int, b: int| 0 <= a < b < p.len() implies #[trigger] p[a]
            < #[trigger] p[b] by {
            assert(p[a] == q[a]);
            if b < q.len() {
                assert(p[b] == q[b]);
            } else {
                lemma_aud_origin(s, n - 1, a);
            }
        }
    }
}

/// Each position that is listed belongs to a delimiter, and lies at least two
/// bytes before any later start code.
proof fn lemma_aud_origin(s: Seq<u8>, n: int, k: int)
    requires
        n <= s.len(),
        0 <= k < auds_below(s, n).len(),
    ensures
        exists|i: int|
            0 <= i < n && #[trigger] nal_at(s, i, NAL_AUD) && auds_below(s, n)[k] == nal_start(
                s,
                i,
            ),
        start_code(s, n) ==> auds_below(s, n)[k] < nal_start(s, n),
    decreases n,
{
    if n > 0 {
        if nal_at(s, n - 1, NAL_AUD) && k == auds_below(s, n).len() - 1 {
            lemma_codes_apart(s, n - 1);
        } else {
            lemma_aud_origin(s, n - 1, k);
            let i = choose|i: int|
                0 <= i < n - 1 && #[trigger] nal_at(s, i, NAL_AUD) && auds_below(s, n - 1)[k]
                    == nal_start(s, i);
            lemma_codes_apart(s, i);
        }
    }
}

/// Bytes that arrive later do not change which delimiters were found.
proof fn lemma_auds_extend(s: Seq<u8>, t: Seq<u8>, n: int)
    requires
        n + 3 <= s.len() || n <= 0,
    ensures
        auds_below(s + t, n) == auds_below(s, n),
    decreases n,
{
    if n > 0 {
        lemma_auds_extend(s, t, n - 1);
        assert(nal_at(s + t, n - 1, NAL_AUD) == nal_at(s, n - 1, NAL_AUD));
    }
}

/// No start code fits into the last three bytes.
pub proof fn lemma_auds_tail(s: Seq<u8>, n: int)
    requires
        s.len() - 3 <= n <= s.len(),
    ensures
        aud_positions(s) == auds_below(s, n),
    decreases s.len() - n,
{
    if n < s.len() {
        lemma_auds_tail(s, n + 1);
        assert(!nal_at(s, n, NAL_AUD));
        assert(auds_below(s, n + 1) == auds_below(s, n));
    }
}

/// The positions `p`, moved by `d`.
pub open spec fn shifted(p: Seq<int>, d: int) -> Seq<int> {
    Seq::new(p.len(), |k: int| p[k] + d)
}

/// Cutting a buffer where a NAL unit begins moves the later delimiters and
/// changes none of them.
proof fn lemma_auds_cut(t: Seq<u8>, cut: int, n: int)
    requires
        0 <= cut <= t.len(),
        0 <= n,
        cut + n <= t.len(),
        nal_at(t, cut, NAL_AUD) ==> nal_start(t, cut) == cut,
    ensures
        auds_below(t, cut + n) == auds_below(t, cut) + shifted(auds_below(t.skip(cut), n), cut),
    decreases n,
{
    let u = t.skip(cut);
    if n == 0 {
        assert(auds_below(u, 0) =~= Seq::empty());
        assert(auds_below(t, cut) + shifted(auds_below(u, 0), cut) =~= auds_below(t, cut));
    } else {
        lemma_auds_cut(t, cut, n - 1);
        let a = auds_below(t, cut);
        let b = auds_below(u, n - 1);
        assert(nal_at(u, n - 1, NAL_AUD) == nal_at(t, cut + n - 1, NAL_AUD));
        if nal_at(t, cut + n - 1, NAL_AUD) {
            assert(nal_start(t, cut + n - 1) == nal_start(u, n - 1) + cut);
            assert((a + shifted(b, cut)).push(nal_start(u, n - 1) + cut) =~= a + shifted(
                b.push(nal_start(u, n - 1)),
                cut,
            ));
        }
    }
}

/// The last delimiter of a buffer: it is found again at the front of what
/// remains when the buffer is cut there, and nothing between is lost.
proof fn lemma_last_aud(s: Seq<u8>, n: int)
    requires
        n <= s.len(),
        auds_below(s, n).len() > 0,
    ensures
        ({
            let cut = auds_below(s, n).last();
            &&& 0 <= cut < n
            &&& nal_at(s, cut, NAL_AUD) ==> nal_start(s, cut) == cut
            &&& auds_below(s, n) == auds_below(s, cut).push(cut)
        }),
    decreases n,
{
    if nal_at(s, n - 1, NAL_AUD) {
        let cut = nal_start(s, n - 1);
        if cut == n - 2 {
            assert(!nal_at(s, n - 2, NAL_AUD)) by {
                assert(s[n - 2] == 0 && s[n - 1] == 0 && s[n] == 0);
            }
            assert(auds_below(s, n - 1) == auds_below(s, n - 2));
        }
    } else {
        lemma_last_aud(s, n - 1);
    }
}

/// Splitting a stream does not depend on where it was interrupted: the units of
/// a buffer followed by those found once `t` has arrived are the units of the
/// whole, and the same bytes are kept.
pub proof fn law_units_resume(s: Seq<u8>, t: Seq<u8>)
    ensures
        units(s + t) == units(s) + units(rest(s) + t),
        rest(s + t) == rest(rest(s) + t),
{
    let p = aud_positions(s);
    let w = s + t;
    if p.len() < 2 {
        assert(units(s) + units(w) =~= units(w));
    } else {
        lemma_auds_ascend(s, s.len() as int);
        lemma_last_aud(s, s.len() as int);
        let cut = p.last();
        let v = rest(s) + t;
        assert(v =~= w.skip(cut));
        let n = s.len() - 3;
        lemma_auds_tail(s, n);
        lemma_auds_extend(s, t, n);
        assert(cut < n) by {
            lemma_auds_ascend(s, n);
        }
        lemma_auds_extend(s, t, cut);
        assert(nal_at(w, cut, NAL_AUD) == nal_at(s, cut, NAL_AUD));
        let n2 = s.len() - 3 - cut;
        lemma_auds_cut(w, cut, n2);
        lemma_auds_cut(w, cut, w.len() - cut);
        let a = auds_below(w, cut);
        let b = aud_positions(v);
        let b2 = auds_below(v, n2);
        assert(aud_positions(w) == a + shifted(b, cut));
        assert(p == a.push(cut));
        assert(p == a + shifted(b2, cut));
        assert(b2.len() == 1);
        assert((a + shifted(b2, cut))[a.len() as int] == b2[0] + cut);
        assert(b2[0] == 0);
        lemma_auds_below_prefix(v, n2, v.len() as int);
        assert(b[0] == 0);
        lemma_auds_ascend(w, w.len() as int);
        lemma_auds_ascend(v, v.len() as int);
        let q = aud_positions(w);
        assert forall|k: int| 0 <= k < a.len() implies q[k] == p[k] by {}
        assert(q[a.len() as int] == cut);
        assert forall|k: int| 0 <= k < b.len() implies q[a.len() + k] == b[k] + cut by {}
        let uw = units(w);
        let us = units(s);
        let uv = units(v);
        assert(uw.len() == us.len() + uv.len());
        assert forall|k: int| 0 <= k < uw.len() implies uw[k] == (us + uv)[k] by {
            if k < us.len() {
                assert(p[k] < p[k + 1] <= s.len());
                assert(w.subrange(q[k], q[k + 1]) =~= s.subrange(p[k], p[k + 1]));
            } else {
                let m = k - us.len();
                assert(b[m] < b[m + 1]);
                assert(q[k] == b[m] + cut && q[k + 1] == b[m + 1] + cut);
                assert(w.subrange(q[k], q[k + 1]) =~= v.subrange(b[m], b[m + 1]));
            }
        }
        assert(uw =~= us + uv);
        assert(rest(w) =~= rest(v)) by {
            assert(q.last() == b.last() + cut);
            assert(w.skip(q.last()) =~= v.skip(b.last()));
            if b.len() < 2 {
                assert(v.skip(0) =~= v);
            }
        }
    }
}

/// The delimiters below a bound come first among those below a higher one.
proof fn lemma_auds_below_prefix(s: Seq<u8>, m: int, n: int)
    requires
        m <= n,
    ensures
        auds_below(s, m).len() <= auds_below(s, n).len(),
        auds_below(s, n).take(auds_below(s, m).len() as int) == auds_below(s, m),
    decreases n - m,
{
    let p = auds_below(s, m);
    if m == n {
        assert(p.take(p.len() as int) =~= p);
    } else {
        lemma_auds_below_prefix(s, m, n - 1);
        assert(auds_below(s, n).take(p.len() as int) =~= auds_below(s, n - 1).take(p.len() as int));
    }
}

/// The pieces of `list`, one after the other.
pub open spec fn concat(list: Seq<Seq<u8>>) -> Seq<u8>
    decreases list.len(),
{
    if list.len() == 0 {
        Seq::empty()
    } else {
        concat(list.drop_last()) + list.last()
    }
}

/// What a splitter that starts out empty has given out, and what it has kept,
/// once it has been handed `chunks` one after the other.
pub open spec fn fed(chunks: Seq<Seq<u8>>) -> (Seq<Seq<u8>>, Seq<u8>)
    decreases chunks.len(),
{
    if chunks.len() == 0 {
        (Seq::empty(), Seq::empty())
    } else {
        let before = fed(chunks.drop_last());
        let s = before.1 + chunks.last();
        (before.0 + units(s), rest(s))
    }
}

/// However a stream is cut into chunks, the access units that come out are those
/// of the whole stream, and the same bytes are kept.
pub proof fn law_chunking(chunks: Seq<Seq<u8>>)
    ensures
        fed(chunks).0 == units(concat(chunks)),
        fed(chunks).1 == rest(concat(chunks)),
    decreases chunks.len(),
{
    if chunks.len() == 0 {
        assert(aud_positions(Seq::<u8>::empty()) =~= Seq::empty());
    } else {
        law_chunking(chunks.drop_last());
        law_units_resume(concat(chunks.drop_last()), chunks.last());
    }
}

/// Consecutive pieces of a sequence make up the stretch that they cover.
proof fn lemma_concat_pieces(s: Seq<u8>, p: Seq<int>, n: int)
    requires
        0 <= n < p.len(),
        forall|k: int| 0 <= k < p.len() ==> 0 <= #[trigger] p[k] <= s.len(),
        forall|a: int, b: int| 0 <= a < b < p.len() ==> #[trigger] p[a] < #[trigger] p[b],
    ensures
        concat(Seq::new(n as nat, |k: int| s.subrange(p[k], p[k + 1]))) == s.subrange(p[0], p[n]),
    decreases n,
{
    let u = Seq::new(n as nat, |k: int| s.subrange(p[k], p[k + 1]));
    if n > 0 {
        lemma_concat_pieces(s, p, n - 1);
        assert(u.drop_last() =~= Seq::new((n - 1) as nat, |k: int| s.subrange(p[k], p[k + 1])));
        assert(p[0] <= p[n - 1] < p[n]);
        assert(s.subrange(p[0], p[n - 1]) + s.subrange(p[n - 1], p[n]) =~= s.subrange(p[0], p[n]));
    } else {
        assert(s.subrange(p[0], p[0]) =~= Seq::empty());
    }
}

/// From the first delimiter on, every byte of a buffer goes into exactly one
/// access unit or is kept, in order.
pub proof fn law_units_cover(s: Seq<u8>)
    requires
        aud_positions(s).len() >= 2,
    ensures
        concat(units(s)) + rest(s) == s.skip(aud_positions(s)[0]),
{
    let p = aud_positions(s);
    lemma_auds_ascend(s, s.len() as int);
    let n = p.len() - 1;
    lemma_concat_pieces(s, p, n);
    assert(p[0] < p[n]);
    assert(s.subrange(p[0], p[n]) + s.skip(p[n]) =~= s.skip(p[0]));
}

/// The next start code lies where it is searched from or later.
pub proof fn lemma_next_code(s: Seq<u8>, j: int)
    requires
        0 <= j <= s.len(),
    ensures
        j <= next_code(s, j) <= s.len(),
        next_code(s, j) < s.len() ==> start_code(s, next_code(s, j)),
        forall|k: int| j <= k < next_code(s, j) ==> !start_code(s, k),
    decreases s.len() - j,
{
    if j + 3 < s.len() && !start_code(s, j) {
        lemma_next_code(s, j + 1);
    }
}

/// A NAL unit of a type other than zero reaches past its header byte.
pub proof fn lemma_nal_extent(s: Seq<u8>, i: int)
    requires
        start_code(s, i),
        nal_type(s, i) != 0,
    ensures
        0 <= nal_start(s, i) <= i,
        i + 4 <= nal_end(s, i) <= s.len(),
{
    let h = s[i + 3];
    assert(h & 0x1f != 0 ==> h != 0) by (bit_vector);
    lemma_next_code(s, i + 3);
}

/// Nothing is a parameter set in the last three bytes.
pub proof fn lemma_sets_tail(s: Seq<u8>, n: int)
    requires
        s.len() - 3 <= n <= s.len(),
    ensures
        parameter_sets(s) == sets_below(s, n),
    decreases s.len() - n,
{
    if n < s.len() {
        lemma_sets_tail(s, n + 1);
        assert(!start_code(s, n));
        assert(sets_below(s, n + 1) == sets_below(s, n));
    }
}

/// A NAL unit is still there when bytes are put around it.
pub proof fn lemma_nal_inside(a: Seq<u8>, s: Seq<u8>, b: Seq<u8>, ty: u8)
    requires
        has_nal(s, ty),
    ensures
        has_nal(a + s + b, ty),
{
    let i = choose|i: int| #[trigger] nal_at(s, i, ty);
    assert(nal_at(a + s + b, a.len() + i, ty));
}

/// The parameter sets of a unit with an SPS hold an SPS.
proof fn lemma_sets_keep_sps(s: Seq<u8>, n: int, i: int)
    requires
        0 <= i < n <= s.len(),
        nal_at(s, i, NAL_SPS),
    ensures
        has_nal(sets_below(s, n), NAL_SPS),
    decreases n,
{
    if i == n - 1 {
        lemma_nal_extent(s, i);
        let piece = s.subrange(nal_start(s, i), nal_end(s, i));
        assert(nal_at(piece, i - nal_start(s, i), NAL_SPS));
        lemma_nal_inside(sets_below(s, n - 1), piece, Seq::empty(), NAL_SPS);
        assert(sets_below(s, n - 1) + piece + Seq::empty() =~= sets_below(s, n));
    } else {
        lemma_sets_keep_sps(s, n - 1, i);
        if nal_at(s, n - 1, NAL_SPS) || nal_at(s, n - 1, NAL_PPS) {
            let piece = s.subrange(nal_start(s, n - 1), nal_end(s, n - 1));
            lemma_nal_inside(Seq::empty(), sets_below(s, n - 1), piece, NAL_SPS);
            assert(Seq::empty() + sets_below(s, n - 1) + piece =~= sets_below(s, n));
        }
    }
}

/// Parameter sets are there exactly where an SPS or a PPS is.
pub proof fn lemma_sets_present(s: Seq<u8>, n: int)
    requires
        n <= s.len(),
    ensures
        sets_below(s, n).len() > 0 <==> exists|i: int|
            0 <= i < n && (#[trigger] nal_at(s, i, NAL_SPS) || nal_at(s, i, NAL_PPS)),
    decreases n,
{
    if n > 0 {
        lemma_sets_present(s, n - 1);
        if nal_at(s, n - 1, NAL_SPS) || nal_at(s, n - 1, NAL_PPS) {
            lemma_nal_extent(s, n - 1);
        }
    }
}

/// The parameter sets that are known once the units `aus` have gone by.
pub open spec fn sets_after(aus: Seq<Seq<u8>>) -> Seq<u8>
    decreases aus.len(),
{
    if aus.len() == 0 {
        Seq::empty()
    } else {
        known_sets(sets_after(aus.drop_last()), aus.last())
    }
}

/// Once an SPS has gone by, one is known for good, as long as no unit brings a
/// PPS without an SPS.
proof fn lemma_sps_stays_known(aus: Seq<Seq<u8>>, m: int)
    requires
        0 <= m < aus.len(),
        has_nal(aus[m], NAL_SPS),
        forall|k: int|
            0 <= k < aus.len() && has_nal(#[trigger] aus[k], NAL_PPS) ==> has_nal(aus[k], NAL_SPS),
    ensures
        has_nal(sets_after(aus), NAL_SPS),
    decreases aus.len(),
{
    let au = aus.last();
    if has_nal(au, NAL_SPS) {
        let i = choose|i: int| #[trigger] nal_at(au, i, NAL_SPS);
        lemma_sets_keep_sps(au, au.len() as int, i);
        lemma_sets_present(au, au.len() as int);
    } else {
        let before = aus.drop_last();
        assert(before[m] == aus[m]);
        assert forall|k: int| 0 <= k < before.len() && has_nal(#[trigger] before[k], NAL_PPS) implies
            has_nal(before[k], NAL_SPS) by {
            assert(before[k] == aus[k]);
        }
        lemma_sps_stays_known(before, m);
        lemma_sets_present(au, au.len() as int);
        assert(!has_nal(au, NAL_PPS)) by {
            assert(au == aus[aus.len() - 1]);
        }
    }
}

/// A viewer may join at any key frame: once the stream has shown an SPS, every
/// key frame goes out with one, as long as no unit brings a PPS without an SPS.
pub proof fn law_keyframes_carry_sps(aus: Seq<Seq<u8>>, au: Seq<u8>, m: int)
    requires
        0 <= m < aus.len(),
        has_nal(aus[m], NAL_SPS),
        forall|k: int|
            0 <= k < aus.len() && has_nal(#[trigger] aus[k], NAL_PPS) ==> has_nal(aus[k], NAL_SPS),
        has_nal(au, NAL_PPS) ==> has_nal(au, NAL_SPS),
        has_nal(au, NAL_IDR),
    ensures
        has_nal(frame_data(sets_after(aus), au), NAL_SPS),
{
    if !has_nal(au, NAL_SPS) {
        lemma_sps_stays_known(aus, m);
        lemma_sets_present(au, au.len() as int);
        let k = sets_after(aus);
        lemma_nal_inside(Seq::empty(), k, au, NAL_SPS);
        assert(Seq::empty() + k + au =~= k + au);
    }
}

/// A NAL unit by itself: the form of its start code, and what stands behind it.
pub struct Nal {
    /// Its start code has four bytes, else three.
    pub long: bool,
    /// The header byte and the payload.
    pub body: Seq<u8>,
}

impl Nal {
    /// The unit with its start code.
    pub open spec fn bytes(self) -> Seq<u8> {
        if self.long {
            seq![0u8, 0u8, 0u8, 1u8] + self.body
        } else {
            seq![0u8, 0u8, 1u8] + self.body
        }
    }

    /// A unit as an encoder writes it: there is a header byte, the last byte is not
    /// zero, and nothing inside looks like a start code.
    pub open spec fn proper(self) -> bool {
        &&& self.body.len() > 0
        &&& self.body.last() != 0
        &&& forall|i: int|
            0 <= i && i + 2 < self.body.len() ==> !(#[trigger] self.body[i] == 0 && self.body[i + 1]
                == 0 && self.body[i + 2] == 1)
    }

    /// The type in the header byte.
    pub open spec fn ty(self) -> u8 {
        self.body[0] & 0x1f
    }
}

/// All units are as an encoder writes them.
pub open spec fn all_proper(nals: Seq<Nal>) -> bool {
    forall|k: int| 0 <= k < nals.len() ==> (#[trigger] nals[k]).proper()
}

/// A stream: units, one after the other.
pub open spec fn stream(nals: Seq<Nal>) -> Seq<u8>
    decreases nals.len(),
{
    if nals.len() == 0 {
        Seq::empty()
    } else {
        stream(nals.drop_last()) + nals.last().bytes()
    }
}

/// The units of the types 7 and 8, one after the other, each as it is.
pub open spec fn kept_sets(nals: Seq<Nal>) -> Seq<u8>
    decreases nals.len(),
{
    if nals.len() == 0 {
        Seq::empty()
    } else if nals.last().ty() == 7 || nals.last().ty() == 8 {
        kept_sets(nals.drop_last()) + nals.last().bytes()
    } else {
        kept_sets(nals.drop_last())
    }
}

/// Where the units of type 9 begin.
pub open spec fn delimiter_offsets(nals: Seq<Nal>) -> Seq<int>
    decreases nals.len(),
{
    if nals.len() == 0 {
        Seq::empty()
    } else if nals.last().ty() == 9 {
        delimiter_offsets(nals.drop_last()).push(stream(nals.drop_last()).len() as int)
    } else {
        delimiter_offsets(nals.drop_last())
    }
}

/// `s` ends in no zero byte, and in no start code without a header byte.
spec fn ends_clean(s: Seq<u8>) -> bool {
    &&& s.len() > 0 ==> s.last() != 0
    &&& s.len() >= 3 ==> !(s[s.len() - 3] == 0 && s[s.len() - 2] == 0 && s[s.len() - 1] == 1)
}

/// A proper unit behind other bytes brings exactly one start code, its own.
proof fn lemma_codes_of_last(t: Seq<u8>, nal: Nal)
    requires
        nal.proper(),
        ends_clean(t),
    ensures
        ({
            let s = t + nal.bytes();
            let own = t.len() + if nal.long {
                1int
            } else {
                0int
            };
            &&& ends_clean(s)
            &&& start_code(s, own)
            &&& nal_type(s, own) == nal.ty()
            &&& forall|i: int| i != own && i >= t.len() ==> !#[trigger] start_code(s, i)
            &&& forall|i: int| i < t.len() ==> #[trigger] start_code(s, i) == start_code(t, i)
        }),
{
    let b = nal.bytes();
    let s = t + b;
    let z: int = if nal.long {
        1
    } else {
        0
    };
    let own = t.len() + z;
    assert(b.len() == 3 + z + nal.body.len());
    assert(forall|k: int| 0 <= k < nal.body.len() ==> b[3 + z + k] == nal.body[k]);
    assert(b[z] == 0 && b[z + 1] == 0 && b[z + 2] == 1);
    assert(forall|k: int| 0 <= k < b.len() ==> s[t.len() + k] == b[k]);
    assert(forall|k: int| 0 <= k < t.len() ==> s[k] == t[k]);
    assert(s[own] == b[z] && s[own + 1] == b[z + 1] && s[own + 2] == b[z + 2]);
    assert(s[own + 3] == b[3 + z]);
    assert(s.last() == nal.body.last());
    assert forall|i: int| i != own && i >= t.len() implies !#[trigger] start_code(s, i) by {
        let k = i - t.len();
        if start_code(s, i) {
            assert(b[k] == s[t.len() + k]);
            assert(b[k + 1] == s[t.len() + (k + 1)]);
            assert(b[k + 2] == s[t.len() + (k + 2)]);
            if k >= 3 + z {
                let m = k - 3 - z;
                assert(nal.body[m] == b[3 + z + m]);
                assert(nal.body[m + 1] == b[3 + z + (m + 1)]);
                assert(nal.body[m + 2] == b[3 + z + (m + 2)]);
            }
        }
    }
    assert forall|i: int| i < t.len() implies #[trigger] start_code(s, i) == start_code(t, i) by {
        if start_code(s, i) {
            if i + 2 >= t.len() {
                // The last byte of `t` would be one of the two zeros.
                assert(t.last() == s[t.len() - 1]);
                assert(i == t.len() - 1 || i == t.len() - 2);
            } else if i + 3 >= t.len() {
                assert(i == t.len() - 3);
                assert(t[i] == s[i] && t[i + 1] == s[i + 1] && t[i + 2] == s[i + 2]);
            } else {
                assert(t[i] == s[i] && t[i + 1] == s[i + 1] && t[i + 2] == s[i + 2]);
            }
        } else if start_code(t, i) {
            assert(t[i] == s[i] && t[i + 1] == s[i + 1] && t[i + 2] == s[i + 2]);
        }
    }
    assert(ends_clean(s)) by {
        let n = nal.body.len() as int;
        if n >= 3 {
            assert(s[s.len() - 3] == nal.body[n - 3] && s[s.len() - 2] == nal.body[n - 2]
                && s[s.len() - 1] == nal.body[n - 1]);
        } else if n == 2 {
            assert(s[s.len() - 3] == b[z + 2]);
        } else {
            assert(s[s.len() - 2] == b[z + 2]);
        }
    }
}

/// Streams of proper units end clean.
proof fn lemma_stream_clean(nals: Seq<Nal>)
    requires
        all_proper(nals),
    ensures
        ends_clean(stream(nals)),
    decreases nals.len(),
{
    if nals.len() > 0 {
        let before = nals.drop_last();
        assert forall|k: int| 0 <= k < before.len() implies (#[trigger] before[k]).proper() by {
            assert(before[k] == nals[k]);
        }
        lemma_stream_clean(before);
        lemma_codes_of_last(stream(before), nals.last());
    }
}

/// The first start code from `j` on is where it is.
proof fn lemma_next_code_is(s: Seq<u8>, j: int, at: int)
    requires
        0 <= j <= at <= s.len(),
        at < s.len() ==> start_code(s, at),
        forall|k: int| j <= k < at ==> !#[trigger] start_code(s, k),
    ensures
        next_code(s, j) == at,
{
    lemma_next_code(s, j);
    let n = next_code(s, j);
    if n < at {
        assert(start_code(s, n));
    } else if at < n {
        assert(!start_code(s, at));
    }
}

/// Where a unit of a stream ends does not change when a unit comes behind it.
proof fn lemma_end_stays(t: Seq<u8>, nal: Nal, i: int)
    requires
        nal.proper(),
        ends_clean(t),
        start_code(t, i),
    ensures
        nal_start(t + nal.bytes(), i) == nal_start(t, i),
        nal_end(t + nal.bytes(), i) == nal_end(t, i),
{
    let s = t + nal.bytes();
    lemma_codes_of_last(t, nal);
    lemma_next_code(t, i + 3);
    let j = next_code(t, i + 3);
    let own = t.len() + if nal.long {
        1int
    } else {
        0int
    };
    if j < t.len() {
        assert forall|k: int| i + 3 <= k < j implies !#[trigger] start_code(s, k) by {}
        lemma_next_code_is(s, i + 3, j);
    } else {
        assert forall|k: int| i + 3 <= k < own implies !#[trigger] start_code(s, k) by {
            if k < t.len() {
                assert(!start_code(t, k));
            }
        }
        lemma_next_code_is(s, i + 3, own);
        assert(t.last() == s[t.len() - 1]);
    }
}

/// The parameter sets below a bound do not change when a unit comes behind.
proof fn lemma_sets_stay(t: Seq<u8>, nal: Nal, n: int)
    requires
        nal.proper(),
        ends_clean(t),
        n <= t.len(),
    ensures
        sets_below(t + nal.bytes(), n) == sets_below(t, n),
    decreases n,
{
    if n > 0 {
        let s = t + nal.bytes();
        lemma_sets_stay(t, nal, n - 1);
        lemma_codes_of_last(t, nal);
        assert(start_code(s, n - 1) == start_code(t, n - 1));
        if start_code(t, n - 1) {
            assert(nal_type(s, n - 1) == nal_type(t, n - 1));
            if nal_type(t, n - 1) != 0 {
                lemma_end_stays(t, nal, n - 1);
                lemma_nal_extent(t, n - 1);
                assert(s.subrange(nal_start(t, n - 1), nal_end(t, n - 1)) =~= t.subrange(
                    nal_start(t, n - 1),
                    nal_end(t, n - 1),
                ));
            }
        }
    }
}

/// A parameter set is kept whole: the parameter sets of a stream are exactly its
/// units of the types 7 and 8, in order and byte by byte, with start codes of three
/// bytes as with four.
pub proof fn law_sets_kept_whole(nals: Seq<Nal>)
    requires
        all_proper(nals),
    ensures
        parameter_sets(stream(nals)) == kept_sets(nals),
    decreases nals.len(),
{
    if nals.len() == 0 {
        assert(sets_below(stream(nals), 0) =~= Seq::empty());
    } else {
        let before = nals.drop_last();
        let nal = nals.last();
        assert forall|k: int| 0 <= k < before.len() implies (#[trigger] before[k]).proper() by {
            assert(before[k] == nals[k]);
        }
        law_sets_kept_whole(before);
        lemma_stream_clean(before);
        let t = stream(before);
        let s = stream(nals);
        let n = t.len() as int;
        lemma_sets_stay(t, nal, n);
        lemma_codes_of_last(t, nal);
        let z: int = if nal.long {
            1
        } else {
            0
        };
        let own = n + z;
        assert forall|k: int| own + 3 <= k < s.len() implies !#[trigger] start_code(s, k) by {}
        lemma_next_code_is(s, own + 3, s.len() as int);
        assert(nal_start(s, own) == n) by {
            if !nal.long && n > 0 {
                assert(s[own - 1] == t.last());
            } else if nal.long {
                assert(s[n] == nal.bytes()[0]);
            }
        }
        assert(s.subrange(n, s.len() as int) =~= nal.bytes());
        if nal.long {
            assert(!start_code(s, n));
            assert(sets_below(s, n + 1) == sets_below(s, n));
        }
        let here = sets_below(s, own + 1);
        assert(nal_at(s, own, 7) == (nal.ty() == 7));
        assert(nal_at(s, own, 8) == (nal.ty() == 8));
        assert(here == kept_sets(nals));
        lemma_sets_behind(s, own + 1, s.len() as int);
    }
}

/// Where no start code stands, no parameter set is added.
proof fn lemma_sets_behind(s: Seq<u8>, m: int, n: int)
    requires
        0 <= m <= n,
        forall|k: int| m <= k < n ==> !#[trigger] start_code(s, k),
    ensures
        sets_below(s, n) == sets_below(s, m),
    decreases n - m,
{
    if m < n {
        lemma_sets_behind(s, m, n - 1);
        assert(!start_code(s, n - 1));
    }
}

/// A stream holds a unit of a type exactly where one of its units has that type.
pub proof fn law_types_found(nals: Seq<Nal>, ty: u8)
    requires
        all_proper(nals),
    ensures
        has_nal(stream(nals), ty) <==> exists|k: int|
            0 <= k < nals.len() && (#[trigger] nals[k]).ty() == ty,
    decreases nals.len(),
{
    let s = stream(nals);
    if nals.len() > 0 {
        let before = nals.drop_last();
        let nal = nals.last();
        assert forall|k: int| 0 <= k < before.len() implies (#[trigger] before[k]).proper() by {
            assert(before[k] == nals[k]);
        }
        law_types_found(before, ty);
        lemma_stream_clean(before);
        let t = stream(before);
        lemma_codes_of_last(t, nal);
        let own = t.len() + if nal.long {
            1int
        } else {
            0int
        };
        if has_nal(s, ty) {
            let i = choose|i: int| #[trigger] nal_at(s, i, ty);
            assert(start_code(s, i));
            if i < t.len() {
                assert(start_code(t, i));
                assert(nal_at(t, i, ty));
                let k = choose|k: int| 0 <= k < before.len() && (#[trigger] before[k]).ty() == ty;
                assert(nals[k].ty() == ty);
            } else {
                assert(i == own);
                assert(nals[nals.len() - 1].ty() == ty);
            }
        }
        if exists|k: int| 0 <= k < nals.len() && (#[trigger] nals[k]).ty() == ty {
            let k = choose|k: int| 0 <= k < nals.len() && (#[trigger] nals[k]).ty() == ty;
            if k < before.len() {
                assert(before[k].ty() == ty);
                let i = choose|i: int| #[trigger] nal_at(t, i, ty);
                assert(start_code(s, i));
                assert(nal_at(s, i, ty));
            } else {
                assert(nal_at(s, own, ty));
            }
        }
    }
}

/// The delimiters below a bound do not change when a unit comes behind.
proof fn lemma_auds_stay(t: Seq<u8>, nal: Nal, n: int)
    requires
        nal.proper(),
        ends_clean(t),
        n <= t.len(),
    ensures
        auds_below(t + nal.bytes(), n) == auds_below(t, n),
    decreases n,
{
    if n > 0 {
        let s = t + nal.bytes();
        lemma_auds_stay(t, nal, n - 1);
        lemma_codes_of_last(t, nal);
        assert(start_code(s, n - 1) == start_code(t, n - 1));
        if start_code(t, n - 1) {
            assert(nal_type(s, n - 1) == nal_type(t, n - 1));
        }
    }
}

/// Where no start code stands, no delimiter is added.
proof fn lemma_auds_behind(s: Seq<u8>, m: int, n: int)
    requires
        0 <= m <= n,
        forall|k: int| m <= k < n ==> !#[trigger] start_code(s, k),
    ensures
        auds_below(s, n) == auds_below(s, m),
    decreases n - m,
{
    if m < n {
        lemma_auds_behind(s, m, n - 1);
        assert(!start_code(s, n - 1));
    }
}

/// A stream is cut in front of its units of type 9 and nowhere else; a start code of
/// four bytes goes with its unit as a whole.
pub proof fn law_cut_at_delimiters(nals: Seq<Nal>)
    requires
        all_proper(nals),
    ensures
        aud_positions(stream(nals)) == delimiter_offsets(nals),
    decreases nals.len(),
{
    if nals.len() == 0 {
        assert(auds_below(stream(nals), 0) =~= Seq::empty());
    } else {
        let before = nals.drop_last();
        let nal = nals.last();
        assert forall|k: int| 0 <= k < before.len() implies (#[trigger] before[k]).proper() by {
            assert(before[k] == nals[k]);
        }
        law_cut_at_delimiters(before);
        lemma_stream_clean(before);
        let t = stream(before);
        let s = stream(nals);
        let n = t.len() as int;
        lemma_auds_stay(t, nal, n);
        lemma_codes_of_last(t, nal);
        let own = n + if nal.long {
            1int
        } else {
            0int
        };
        assert(nal_start(s, own) == n) by {
            if !nal.long && n > 0 {
                assert(s[own - 1] == t.last());
            } else if nal.long {
                assert(s[n] == nal.bytes()[0]);
            }
        }
        if nal.long {
            assert(!start_code(s, n));
            assert(auds_below(s, n + 1) == auds_below(s, n));
        }
        assert(nal_at(s, own, 9) == (nal.ty() == 9));
        assert(auds_below(s, own + 1) == delimiter_offsets(nals));
        lemma_auds_behind(s, own + 1, s.len() as int);
    }
}

/// One picture: a delimiter, and units that are none.
pub open spec fn picture(nals: Seq<Nal>) -> bool {
    &&& nals.len() > 0
    &&& nals[0].ty() == 9
    &&& forall|k: int| 1 <= k < nals.len() ==> (#[trigger] nals[k]).ty() != 9
}

/// The stream of units behind others is the streams one after the other.
proof fn lemma_stream_of_both(a: Seq<Nal>, b: Seq<Nal>)
    ensures
        stream(a + b) == stream(a) + stream(b),
    decreases b.len(),
{
    if b.len() == 0 {
        assert(a + b =~= a);
        assert(stream(a) + stream(b) =~= stream(a));
    } else {
        assert((a + b).drop_last() =~= a + b.drop_last());
        lemma_stream_of_both(a, b.drop_last());
        assert(stream(a) + (stream(b.drop_last()) + b.last().bytes()) =~= (stream(a) + stream(
            b.drop_last(),
        )) + b.last().bytes());
    }
}

/// The delimiters of a picture that stands behind other units.
proof fn lemma_offsets_of_picture(a: Seq<Nal>, p: Seq<Nal>)
    requires
        picture(p),
    ensures
        delimiter_offsets(a + p) == delimiter_offsets(a).push(stream(a).len() as int),
    decreases p.len(),
{
    assert((a + p).drop_last() =~= a + p.drop_last());
    if p.len() == 1 {
        assert((a + p).drop_last() =~= a);
    } else {
        let q = p.drop_last();
        assert forall|k: int| 1 <= k < q.len() implies (#[trigger] q[k]).ty() != 9 by {
            assert(q[k] == p[k]);
        }
        lemma_offsets_of_picture(a, q);
        assert((a + p).last() == p[p.len() - 1]);
    }
}

/// The pictures, one after the other.
pub open spec fn all_units(pictures: Seq<Seq<Nal>>) -> Seq<Nal>
    decreases pictures.len(),
{
    if pictures.len() == 0 {
        Seq::empty()
    } else {
        all_units(pictures.drop_last()) + pictures.last()
    }
}

/// The delimiters of a run of pictures: one in front of each.
proof fn lemma_offsets_of_pictures(pictures: Seq<Seq<Nal>>)
    requires
        forall|k: int| 0 <= k < pictures.len() ==> picture(#[trigger] pictures[k]),
    ensures
        delimiter_offsets(all_units(pictures)) == Seq::new(
            pictures.len(),
            |k: int| stream(all_units(pictures.take(k))).len() as int,
        ),
    decreases pictures.len(),
{
    let want = Seq::new(
        pictures.len(),
        |k: int| stream(all_units(pictures.take(k))).len() as int,
    );
    if pictures.len() == 0 {
        assert(want =~= Seq::empty());
    } else {
        let before = pictures.drop_last();
        assert forall|k: int| 0 <= k < before.len() implies picture(#[trigger] before[k]) by {
            assert(before[k] == pictures[k]);
        }
        lemma_offsets_of_pictures(before);
        assert(picture(pictures[pictures.len() - 1]));
        lemma_offsets_of_picture(all_units(before), pictures.last());
        assert forall|k: int| 0 <= k < pictures.len() implies #[trigger] want[k]
            == delimiter_offsets(all_units(pictures))[k] by {
            if k < before.len() {
                assert(before.take(k) =~= pictures.take(k));
            } else {
                assert(pictures.take(k) =~= before);
            }
        }
        assert(want =~= delimiter_offsets(all_units(pictures)));
    }
}

/// The stream of a run of pictures up to one of them is its beginning.
proof fn lemma_pictures_prefix(pictures: Seq<Seq<Nal>>, k: int)
    requires
        0 <= k <= pictures.len(),
    ensures
        stream(all_units(pictures.take(k))).len() <= stream(all_units(pictures)).len(),
        stream(all_units(pictures)).take(stream(all_units(pictures.take(k))).len() as int)
            == stream(all_units(pictures.take(k))),
    decreases pictures.len() - k,
{
    let whole = stream(all_units(pictures));
    if k == pictures.len() {
        assert(pictures.take(k) =~= pictures);
        assert(whole.take(whole.len() as int) =~= whole);
    } else {
        lemma_pictures_prefix(pictures, k + 1);
        assert(pictures.take(k + 1).drop_last() =~= pictures.take(k));
        lemma_stream_of_both(all_units(pictures.take(k)), pictures[k]);
        let part = stream(all_units(pictures.take(k)));
        let next = stream(all_units(pictures.take(k + 1)));
        assert(next == part + stream(pictures[k]));
        assert(whole.take(part.len() as int) =~= next.take(part.len() as int));
        assert(next.take(part.len() as int) =~= part);
    }
}

/// The units of a run of pictures are the units of each.
proof fn lemma_all_units_proper(pictures: Seq<Seq<Nal>>)
    requires
        forall|k: int| 0 <= k < pictures.len() ==> all_proper(#[trigger] pictures[k]),
    ensures
        all_proper(all_units(pictures)),
    decreases pictures.len(),
{
    if pictures.len() > 0 {
        let before = pictures.drop_last();
        assert forall|k: int| 0 <= k < before.len() implies all_proper(#[trigger] before[k]) by {
            assert(before[k] == pictures[k]);
        }
        lemma_all_units_proper(before);
        let last = pictures[pictures.len() - 1];
        assert(all_proper(last));
        let a = all_units(before);
        assert forall|k: int| 0 <= k < (a + last).len() implies (#[trigger] (a
            + last)[k]).proper() by {
            if k < a.len() {
                assert(a[k].proper());
            } else {
                assert(last[k - a.len()].proper());
            }
        }
    }
}

/// What an encoder writes as pictures comes out as these pictures: of a run of them,
/// every one but the last is an access unit, as it is and in order, and the last one
/// is kept until it is known to be complete.
pub proof fn law_pictures_come_out(pictures: Seq<Seq<Nal>>)
    requires
        pictures.len() > 0,
        forall|k: int| 0 <= k < pictures.len() ==> picture(#[trigger] pictures[k]),
        forall|k: int| 0 <= k < pictures.len() ==> all_proper(#[trigger] pictures[k]),
    ensures
        units(stream(all_units(pictures))).len() == pictures.len() - 1,
        forall|k: int|
            0 <= k < pictures.len() - 1 ==> #[trigger] units(stream(all_units(pictures)))[k]
                == stream(pictures[k]),
        rest(stream(all_units(pictures))) == stream(pictures.last()),
{
    let s = stream(all_units(pictures));
    let p = aud_positions(s);
    lemma_all_units_proper(pictures);
    law_cut_at_delimiters(all_units(pictures));
    lemma_offsets_of_pictures(pictures);
    assert(p.len() == pictures.len());
    assert forall|k: int| 0 <= k < pictures.len() implies p[k] == #[trigger] stream(
        all_units(pictures.take(k)),
    ).len() by {}
    assert forall|k: int| 0 <= k < pictures.len() - 1 implies #[trigger] units(s)[k] == stream(
        pictures[k],
    ) by {
        let a = stream(all_units(pictures.take(k)));
        let b = stream(all_units(pictures.take(k + 1)));
        assert(pictures.take(k + 1).drop_last() =~= pictures.take(k));
        lemma_stream_of_both(all_units(pictures.take(k)), pictures[k]);
        assert(b == a + stream(pictures[k]));
        lemma_pictures_prefix(pictures, k + 1);
        assert(p[k] == a.len() && p[k + 1] == b.len());
        assert(s.subrange(p[k], p[k + 1]) =~= b.subrange(a.len() as int, b.len() as int)) by {
            assert(s.take(b.len() as int) == b);
            assert forall|i: int| 0 <= i < b.len() implies s[i] == b[i] by {
                assert(s.take(b.len() as int)[i] == s[i]);
            }
        }
        assert(b.subrange(a.len() as int, b.len() as int) =~= stream(pictures[k]));
    }
    let n = pictures.len() - 1;
    let before = pictures.drop_last();
    assert(pictures.take(n) =~= before);
    lemma_stream_of_both(all_units(before), pictures.last());
    assert(s == stream(all_units(before)) + stream(pictures.last()));
    assert(p[n] == stream(all_units(before)).len());
    assert(s.skip(p[n]) =~= stream(pictures.last()));
    if p.len() < 2 {
        assert(all_units(Seq::<Seq<Nal>>::empty()) =~= Seq::empty());
        assert(before =~= Seq::empty());
        assert(s =~= s.skip(0));
    }
}

/// A viewer may join at a key frame that brings no parameter sets: it gets those that
/// the unit before it brought, unchanged, and behind them the key frame, unchanged.
pub proof fn law_late_viewer(known: Seq<u8>, first: Seq<Nal>, key: Seq<Nal>)
    requires
        all_proper(first),
        all_proper(key),
        exists|k: int|
            0 <= k < first.len() && ((#[trigger] first[k]).ty() == 7 || first[k].ty() == 8),
        exists|k: int| 0 <= k < key.len() && (#[trigger] key[k]).ty() == 5,
        forall|k: int|
            0 <= k < key.len() ==> (#[trigger] key[k]).ty() != 7 && key[k].ty() != 8,
    ensures
        known_sets(known, stream(first)) == kept_sets(first),
        frame_data(known_sets(known, stream(first)), stream(key)) == kept_sets(first) + stream(
            key,
        ),
        known_sets(known_sets(known, stream(first)), stream(key)) == kept_sets(first),
{
    law_sets_kept_whole(first);
    law_sets_kept_whole(key);
    law_types_found(key, 5);
    law_types_found(key, 7);
    lemma_some_sets(first);
    lemma_no_sets(key);
}

/// A key frame that brings an SPS, and a frame that is no key frame, go out as they
/// are, whatever is known.
pub proof fn law_frame_unchanged(known: Seq<u8>, au: Seq<Nal>)
    requires
        all_proper(au),
        (exists|k: int| 0 <= k < au.len() && (#[trigger] au[k]).ty() == 7) || (forall|k: int|
            0 <= k < au.len() ==> (#[trigger] au[k]).ty() != 5),
    ensures
        frame_data(known, stream(au)) == stream(au),
{
    law_types_found(au, 5);
    law_types_found(au, 7);
}

/// A unit with a parameter set has some bytes of one.
proof fn lemma_some_sets(nals: Seq<Nal>)
    requires
        exists|k: int| 0 <= k < nals.len() && ((#[trigger] nals[k]).ty() == 7 || nals[k].ty() == 8),
    ensures
        kept_sets(nals).len() > 0,
    decreases nals.len(),
{
    let k = choose|k: int|
        0 <= k < nals.len() && ((#[trigger] nals[k]).ty() == 7 || nals[k].ty() == 8);
    if k < nals.len() - 1 {
        let before = nals.drop_last();
        assert(before[k] == nals[k]);
        lemma_some_sets(before);
    }
}

/// A unit without a parameter set has none.
proof fn lemma_no_sets(nals: Seq<Nal>)
    requires
        forall|k: int| 0 <= k < nals.len() ==> (#[trigger] nals[k]).ty() != 7 && nals[k].ty() != 8,
    ensures
        kept_sets(nals).len() == 0,
    decreases nals.len(),
{
    if nals.len() > 0 {
        let before = nals.drop_last();
        assert forall|k: int| 0 <= k < before.len() implies (#[trigger] before[k]).ty() != 7
            && before[k].ty() != 8 by {
            assert(before[k] == nals[k]);
        }
        lemma_no_sets(before);
        assert(nals[nals.len() - 1].ty() != 7);
    }
}

/// The parameter sets below a bound come first among those below a higher one.
proof fn lemma_sets_prefix(s: Seq<u8>, m: int, n: int)
    requires
        m <= n <= s.len(),
    ensures
        sets_below(s, m).len() <= sets_below(s, n).len(),
        sets_below(s, n).take(sets_below(s, m).len() as int) == sets_below(s, m),
    decreases n - m,
{
    let p = sets_below(s, m);
    if m == n {
        assert(p.take(p.len() as int) =~= p);
    } else {
        lemma_sets_prefix(s, m, n - 1);
        assert(sets_below(s, n).take(p.len() as int) =~= sets_below(s, n - 1).take(
            p.len() as int,
        )) by {
            if n > 0 && (nal_at(s, n - 1, NAL_SPS) || nal_at(s, n - 1, NAL_PPS)) {
                lemma_nal_extent(s, n - 1);
            }
        }
    }
}

/// Of any bytes, a parameter set is kept from its start code up to the next start
/// code, or to the end. One zero byte right before the next start code is not part of
/// it, and no other byte is left out.
pub proof fn law_set_bytes_kept(s: Seq<u8>, i: int, j: int) -> (o: int)
    requires
        0 <= i,
        i + 3 < j <= s.len(),
        s[i] == 0 && s[i + 1] == 0 && s[i + 2] == 1,
        s[i + 3] & 0x1f == 7 || s[i + 3] & 0x1f == 8,
        j == s.len() || (j + 3 < s.len() && s[j] == 0 && s[j + 1] == 0 && s[j + 2] == 1),
        forall|k: int|
            i + 3 <= k < j && k + 3 < s.len() ==> !(#[trigger] s[k] == 0 && s[k + 1] == 0 && s[k
                + 2] == 1),
    ensures
        0 <= o,
        ({
            let cut: int = if j < s.len() && s[j - 1] == 0 {
                1
            } else {
                0
            };
            let n = j - cut - i;
            &&& o + n <= parameter_sets(s).len()
            &&& parameter_sets(s).subrange(o, o + n) == s.subrange(i, j - cut)
        }),
{
    assert(start_code(s, i));
    assert forall|k: int| i + 3 <= k < j implies !#[trigger] start_code(s, k) by {}
    lemma_next_code_is(s, i + 3, j);
    lemma_nal_extent(s, i);
    let before = sets_below(s, i);
    let here = sets_below(s, i + 1);
    let piece = s.subrange(nal_start(s, i), nal_end(s, i));
    assert(here == before + piece);
    lemma_sets_prefix(s, i + 1, s.len() as int);
    let all = parameter_sets(s);
    let o = before.len() + (i - nal_start(s, i));
    let n = nal_end(s, i) - i;
    assert(all.subrange(o, o + n) =~= s.subrange(i, nal_end(s, i))) by {
        assert forall|k: int| 0 <= k < here.len() implies all[k] == here[k] by {
            assert(all.take(here.len() as int)[k] == all[k]);
        }
    }
    o
}

/// A key frame without an SPS gets parameter sets in front: its own PPS where it brings
/// one, else those that are known.
pub proof fn law_key_frame_completed(known: Seq<u8>, au: Seq<Nal>)
    requires
        all_proper(au),
        exists|k: int| 0 <= k < au.len() && (#[trigger] au[k]).ty() == 5,
        forall|k: int| 0 <= k < au.len() ==> (#[trigger] au[k]).ty() != 7,
    ensures
        (exists|k: int| 0 <= k < au.len() && (#[trigger] au[k]).ty() == 8) ==> frame_data(
            known,
            stream(au),
        ) == kept_sets(au) + stream(au),
        (forall|k: int| 0 <= k < au.len() ==> (#[trigger] au[k]).ty() != 8) ==> frame_data(
            known,
            stream(au),
        ) == known + stream(au),
{
    law_sets_kept_whole(au);
    law_types_found(au, 5);
    law_types_found(au, 7);
    if exists|k: int| 0 <= k < au.len() && (#[trigger] au[k]).ty() == 8 {
        let k = choose|k: int| 0 <= k < au.len() && (#[trigger] au[k]).ty() == 8;
        assert(au[k].ty() == 8);
        lemma_some_sets(au);
    } else {
        assert forall|k: int| 0 <= k < au.len() implies (#[trigger] au[k]).ty() != 7
            && au[k].ty() != 8 by {}
        lemma_no_sets(au);
    }
}

/// The parameter sets that are known are those of the last unit that brought any; a
/// unit without any changes nothing.
pub proof fn law_sets_replaced(known: Seq<u8>, au: Seq<Nal>)
    requires
        all_proper(au),
    ensures
        (exists|k: int| 0 <= k < au.len() && ((#[trigger] au[k]).ty() == 7 || au[k].ty() == 8))
            ==> known_sets(known, stream(au)) == kept_sets(au),
        (forall|k: int| 0 <= k < au.len() ==> (#[trigger] au[k]).ty() != 7 && au[k].ty() != 8)
            ==> known_sets(known, stream(au)) == known,
{
    law_sets_kept_whole(au);
    if exists|k: int| 0 <= k < au.len() && ((#[trigger] au[k]).ty() == 7 || au[k].ty() == 8) {
        lemma_some_sets(au);
    }
    if forall|k: int| 0 <= k < au.len() ==> (#[trigger] au[k]).ty() != 7 && au[k].ty() != 8 {
        lemma_no_sets(au);
    }
}

/// Of any bytes, a unit of a type is there exactly where its start code stands with the
/// type behind it, whatever the upper three bits of the header are.
pub proof fn law_any_bytes_typed(s: Seq<u8>, ty: u8)
    ensures
        has_nal(s, ty) <==> exists|i: int|
            0 <= i && i + 3 < s.len() && #[trigger] s[i] == 0 && s[i + 1] == 0 && s[i + 2] == 1 && s[i
                + 3] & 0x1f == ty,
{
    if has_nal(s, ty) {
        let i = choose|i: int| #[trigger] nal_at(s, i, ty);
        assert(s[i] == 0);
    }
    if exists|i: int|
        0 <= i && i + 3 < s.len() && #[trigger] s[i] == 0 && s[i + 1] == 0 && s[i + 2] == 1 && s[i
            + 3] & 0x1f == ty {
        let i = choose|i: int|
            0 <= i && i + 3 < s.len() && #[trigger] s[i] == 0 && s[i + 1] == 0 && s[i + 2] == 1
                && s[i + 3] & 0x1f == ty;
        assert(nal_at(s, i, ty));
    }
}

/// Of any bytes, a cut is made at every delimiter, in front of the zero byte before its
/// start code where there is one.
pub proof fn law_any_delimiter_cut(s: Seq<u8>, i: int)
    requires
        0 <= i,
        i + 3 < s.len(),
        s[i] == 0 && s[i + 1] == 0 && s[i + 2] == 1,
        s[i + 3] & 0x1f == 9,
    ensures
        i > 0 && s[i - 1] == 0 ==> aud_positions(s).contains(i - 1),
        i == 0 || s[i - 1] != 0 ==> aud_positions(s).contains(i),
{
    lemma_aud_listed(s, i, s.len() as int);
}

/// A delimiter is among those below a later offset.
proof fn lemma_aud_listed(s: Seq<u8>, i: int, n: int)
    requires
        0 <= i < n,
        nal_at(s, i, NAL_AUD),
    ensures
        auds_below(s, n).contains(nal_start(s, i)),
    decreases n,
{
    let all = auds_below(s, n);
    let before = auds_below(s, n - 1);
    if i < n - 1 {
        lemma_aud_listed(s, i, n - 1);
        let k = choose|k: int| 0 <= k < before.len() && before[k] == nal_start(s, i);
        assert(all[k] == before[k]);
    } else {
        assert(all[before.len() as int] == nal_start(s, i));
    }
}

/// Of any bytes, a cut is made nowhere but at a delimiter.
pub proof fn law_only_delimiters_cut(s: Seq<u8>, k: int) -> (i: int)
    requires
        0 <= k < aud_positions(s).len(),
    ensures
        0 <= i,
        i + 3 < s.len(),
        s[i] == 0 && s[i + 1] == 0 && s[i + 2] == 1,
        s[i + 3] & 0x1f == 9,
        aud_positions(s)[k] == (if i > 0 && s[i - 1] == 0 {
            i - 1
        } else {
            i
        }),
{
    lemma_aud_stems(s, s.len() as int, k)
}

/// A position stems from a delimiter.
proof fn lemma_aud_stems(s: Seq<u8>, n: int, k: int) -> (i: int)
    requires
        0 <= k < auds_below(s, n).len(),
    ensures
        nal_at(s, i, NAL_AUD),
        auds_below(s, n)[k] == nal_start(s, i),
    decreases n,
{
    let before = auds_below(s, n - 1);
    if k < before.len() {
        assert(auds_below(s, n)[k] == before[k]);
        lemma_aud_stems(s, n - 1, k)
    } else {
        n - 1
    }
}

/// The cuts ascend, so that no delimiter is cut at twice.
pub proof fn law_cuts_ascend(s: Seq<u8>, i: int, j: int)
    requires
        0 <= i < j < aud_positions(s).len(),
    ensures
        aud_positions(s)[i] < aud_positions(s)[j],
{
    lemma_auds_ascend(s, s.len() as int);
}

/// Of any bytes, what stands between two cuts is an access unit, and what stands behind
/// the last one is kept; with fewer than two cuts everything is kept.
pub proof fn law_between_cuts(s: Seq<u8>, k: int)
    ensures
        aud_positions(s).len() < 2 ==> units(s).len() == 0 && rest(s) == s,
        aud_positions(s).len() >= 2 ==> units(s).len() == aud_positions(s).len() - 1 && rest(s)
            == s.subrange(aud_positions(s).last(), s.len() as int),
        0 <= k < aud_positions(s).len() - 1 ==> units(s)[k] == s.subrange(
            aud_positions(s)[k],
            aud_positions(s)[k + 1],
        ),
{
    if aud_positions(s).len() >= 2 {
        assert(0 <= aud_positions(s).last() <= s.len()) by {
            let i = lemma_aud_stems(s, s.len() as int, aud_positions(s).len() - 1);
        }
        assert(rest(s) =~= s.subrange(aud_positions(s).last(), s.len() as int));
    }
}

} // verus!
