//! UTF-16, the form in which Windows gives and takes names.

use crate::text::chars_of;
use vstd::prelude::*;

verus! {

/// A number is the code of a character: at most 0x10FFFF, and no surrogate.
pub open spec fn scalar(u: int) -> bool {
    0 <= u < 0xd800 || 0xe000 <= u < 0x110000
}

/// `char::from_u32` gives the character with the code `u`, where there is one.
pub assume_specification[ char::from_u32 ](u: u32) -> (r: Option<char>)
    ensures
        r is Some <==> scalar(u as int),
        r matches Some(c) ==> c as u32 == u,
;

/// The units of a character: one, or a pair of surrogates.
pub open spec fn char_units(c: char) -> Seq<u16> {
    let u = c as u32 as int;
    if u < 0x10000 {
        seq![u as u16]
    } else {
        seq![
            (0xd800 + (u - 0x10000) / 0x400) as u16,
            (0xdc00 + (u - 0x10000) % 0x400) as u16,
        ]
    }
}

/// The units of a text.
pub open spec fn encoded(s: Seq<char>) -> Seq<u16>
    decreases s.len(),
{
    if s.len() == 0 {
        Seq::empty()
    } else {
        char_units(s[0]) + encoded(s.skip(1))
    }
}

/// The first unit of a pair.
pub open spec fn high(u: u16) -> bool {
    0xd800 <= u < 0xdc00
}

/// The second unit of a pair.
pub open spec fn low(u: u16) -> bool {
    0xdc00 <= u < 0xe000
}

/// The character that a pair stands for.
pub open spec fn pair(h: u16, l: u16) -> char {
    (0x10000 + (h - 0xd800) * 0x400 + (l - 0xdc00)) as u32 as char
}

/// The text of a run of units, with a replacement character for each surrogate
/// that is not part of a pair.
pub open spec fn decoded(u: Seq<u16>) -> Seq<char>
    decreases u.len(),
{
    if u.len() == 0 {
        Seq::empty()
    } else if !high(u[0]) && !low(u[0]) {
        seq![u[0] as u32 as char] + decoded(u.skip(1))
    } else if high(u[0]) && u.len() > 1 && low(u[1]) {
        seq![pair(u[0], u[1])] + decoded(u.skip(2))
    } else {
        seq!['\u{fffd}'] + decoded(u.skip(1))
    }
}

/// A character is told by its code.
proof fn lemma_code(c: char)
    ensures
        scalar(c as u32 as int),
        (c as u32) as char == c,
{
}

/// The units of a text.
pub fn encode(s: &str) -> (r: Vec<u16>)
    ensures
        r@ == encoded(s@),
{
    let x = chars_of(s);
    let mut r: Vec<u16> = Vec::new();
    let mut i: usize = 0;
    assert(x@.skip(0) =~= s@);
    assert(r@ + encoded(s@) =~= encoded(s@));
    while i < x.len()
        invariant
            i <= x@.len(),
            encoded(s@) == r@ + encoded(x@.skip(i as int)),
        decreases x@.len() - i,
    {
        let ghost before = r@;
        let ghost tail = x@.skip(i as int);
        let c = x[i];
        let u = c as u32;
        if u < 0x10000 {
            r.push(u as u16);
        } else {
            let v: u32 = u - 0x10000;
            r.push((0xd800 + v / 0x400) as u16);
            r.push((0xdc00 + v % 0x400) as u16);
        }
        assert(r@ =~= before + char_units(c));
        assert(tail.skip(1) =~= x@.skip(i + 1));
        i += 1;
        assert(before + (char_units(c) + encoded(x@.skip(i as int))) =~= r@ + encoded(
            x@.skip(i as int),
        ));
    }
    assert(r@ + encoded(x@.skip(i as int)) =~= r@);
    r
}

/// The text of a run of units, with a replacement character for each surrogate
/// that is not part of a pair.
pub fn decode(units: &[u16]) -> (r: String)
    ensures
        r@ == decoded(units@),
{
    let mut r = String::new();
    let mut i: usize = 0;
    assert(units@.skip(0) =~= units@);
    assert(r@ + decoded(units@) =~= decoded(units@));
    while i < units.len()
        invariant
            i <= units@.len(),
            decoded(units@) == r@ + decoded(units@.skip(i as int)),
        decreases units@.len() - i,
    {
        let ghost before = r@;
        let ghost tail = units@.skip(i as int);
        let u = units[i];
        let surrogate = 0xd800 <= u && u < 0xe000;
        let paired = u < 0xdc00 && i < units.len() - 1 && 0xdc00 <= units[i + 1] && units[i + 1]
            < 0xe000;
        let code: u32 = if !surrogate {
            u as u32
        } else if paired {
            0x10000 + (u as u32 - 0xd800) * 0x400 + (units[i + 1] as u32 - 0xdc00)
        } else {
            0xfffd
        };
        match char::from_u32(code) {
            Some(c) => {
                r.push(c);
                assert(r@ =~= before + seq![c]);
                proof {
                    lemma_code(c);
                }
            },
            None => {
                assert(false);
            },
        }
        assert(tail.skip(1) =~= units@.skip(i + 1));
        if surrogate && paired {
            assert(tail.skip(2) =~= units@.skip(i + 2));
            i += 2;
        } else {
            i += 1;
        }
        assert(before + (seq![r@.last()] + decoded(units@.skip(i as int))) =~= r@ + decoded(
            units@.skip(i as int),
        ));
    }
    assert(r@ + decoded(units@.skip(i as int)) =~= r@);
    r
}

/// What a text is encoded to is decoded to the same text.
pub proof fn law_decode_encode(s: Seq<char>)
    ensures
        decoded(encoded(s)) == s,
    decreases s.len(),
{
    if s.len() > 0 {
        let c = s[0];
        let u = c as u32 as int;
        let tail = encoded(s.skip(1));
        lemma_code(c);
        law_decode_encode(s.skip(1));
        assert(encoded(s) == char_units(c) + tail);
        if u < 0x10000 {
            assert(encoded(s).skip(1) =~= tail);
            assert(encoded(s)[0] == u);
        } else {
            let h = (0xd800 + (u - 0x10000) / 0x400) as u16;
            let l = (0xdc00 + (u - 0x10000) % 0x400) as u16;
            assert(encoded(s).skip(2) =~= tail);
            assert(encoded(s)[0] == h && encoded(s)[1] == l);
            assert(pair(h, l) == c);
        }
        assert(seq![c] + s.skip(1) =~= s);
    }
}

/// The units before the first zero, or all of them.
pub open spec fn until_zero(u: Seq<u16>) -> Seq<u16>
    decreases u.len(),
{
    if u.len() == 0 || u[0] == 0 {
        Seq::empty()
    } else {
        seq![u[0]] + until_zero(u.skip(1))
    }
}

/// The units before the first zero, or all of them.
pub fn before_zero(units: &[u16]) -> (r: Vec<u16>)
    ensures
        r@ == until_zero(units@),
{
    let mut r: Vec<u16> = Vec::new();
    let mut i: usize = 0;
    assert(units@.skip(0) =~= units@);
    assert(r@ + until_zero(units@) =~= until_zero(units@));
    while i < units.len() && units[i] != 0
        invariant
            i <= units@.len(),
            until_zero(units@) == r@ + until_zero(units@.skip(i as int)),
        decreases units@.len() - i,
    {
        let ghost before = r@;
        let ghost tail = units@.skip(i as int);
        r.push(units[i]);
        assert(tail.skip(1) =~= units@.skip(i + 1));
        i += 1;
        assert(before + (seq![tail[0]] + until_zero(units@.skip(i as int))) =~= r@ + until_zero(
            units@.skip(i as int),
        ));
    }
    assert(r@ + until_zero(units@.skip(i as int)) =~= r@);
    r
}

/// The units of a text, with a zero behind them.
pub fn encode_terminated(s: &str) -> (r: Vec<u16>)
    ensures
        r@ == encoded(s@).push(0),
{
    let mut r = encode(s);
    r.push(0);
    r
}

/// A surrogate that is not part of a pair becomes the replacement character, and what
/// stands behind it is read as if it were not there.
pub proof fn law_lone_surrogate(u: u16, tail: Seq<u16>)
    requires
        0xd800 <= u <= 0xdfff,
        u <= 0xdbff ==> tail.len() == 0 || !(0xdc00 <= tail[0] <= 0xdfff),
    ensures
        decoded(seq![u] + tail) == seq!['\u{fffd}'] + decoded(tail),
{
    let s = seq![u] + tail;
    assert(s.skip(1) =~= tail);
    if tail.len() > 0 {
        assert(s[1] == tail[0]);
    }
}

/// A character of the basic plane is one unit, its code; any other is a pair that
/// spells its code less 0x10000 in two halves of ten bits.
pub proof fn law_units(c: char)
    ensures
        c as u32 <= 0xffff ==> encoded(seq![c]) == seq![c as u16],
        c as u32 > 0xffff ==> encoded(seq![c]).len() == 2 && 0xd800 <= encoded(seq![c])[0] <= 0xdbff
            && 0xdc00 <= encoded(seq![c])[1] <= 0xdfff && 1024 * (encoded(seq![c])[0] - 0xd800) + (
        encoded(seq![c])[1] - 0xdc00) == c as u32 - 0x10000,
{
    assert(encoded(seq![c].skip(1)) =~= Seq::<u16>::empty());
    assert(encoded(seq![c]) =~= char_units(c));
    assert(c as u32 <= 0x10ffff);
}

/// A list of units is read up to its first zero, and as a whole where it has none.
pub proof fn law_until_zero(a: Seq<u16>, tail: Seq<u16>)
    requires
        forall|i: int| 0 <= i < a.len() ==> #[trigger] a[i] != 0,
    ensures
        until_zero(a + seq![0u16] + tail) == a,
        until_zero(a) == a,
    decreases a.len(),
{
    let s = a + seq![0u16] + tail;
    if a.len() > 0 {
        let b = a.skip(1);
        assert forall|i: int| 0 <= i < b.len() implies #[trigger] b[i] != 0 by {
            assert(b[i] == a[i + 1]);
        }
        law_until_zero(b, tail);
        assert(s.skip(1) =~= b + seq![0u16] + tail);
        assert(s[0] == a[0]);
        assert(a[0] != 0);
        assert(seq![a[0]] + b =~= a);
    } else {
        assert(s[0] == 0);
    }
}

} // verus!
