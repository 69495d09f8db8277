//! Text as sequences of characters: searching, trimming, splitting, numbers.

use vstd::prelude::*;
use vstd::string::StringExecFns;

verus! {

broadcast use vstd::string::axiom_spec_iter;

/// `String::push` appends one character and changes nothing else.
pub assume_specification[ String::push ](s: &mut String, c: char)
    ensures
        final(s)@ == old(s)@.push(c),
;

/// The characters of a list of strings.
pub open spec fn texts(v: Seq<String>) -> Seq<Seq<char>> {
    v.map_values(|s: String| s@)
}

/// The characters of an optional string.
pub open spec fn optional(s: Option<String>) -> Option<Seq<char>> {
    match s {
        Some(t) => Some(t@),
        None => None,
    }
}

/// `p` occurs in `s` at offset `i`.
pub open spec fn occurs_at(s: Seq<char>, p: Seq<char>, i: int) -> bool {
    0 <= i && i + p.len() <= s.len() && s.subrange(i, i + p.len()) == p
}

/// `p` occurs somewhere in `s`.
pub open spec fn occurs(s: Seq<char>, p: Seq<char>) -> bool {
    exists|i: int| #[trigger] occurs_at(s, p, i)
}

/// The offset of the first `c` in `s`, or the length of `s` where there is none.
pub open spec fn first_index(s: Seq<char>, c: char) -> int
    decreases s.len(),
{
    if s.len() == 0 || s[0] == c {
        0
    } else {
        1 + first_index(s.skip(1), c)
    }
}

/// Unicode `White_Space`.
pub open spec fn white(c: char) -> bool {
    let u = c as u32;
    ||| 0x9 <= u <= 0xd
    ||| u == 0x20
    ||| u == 0x85
    ||| u == 0xa0
    ||| u == 0x1680
    ||| 0x2000 <= u <= 0x200a
    ||| u == 0x2028
    ||| u == 0x2029
    ||| u == 0x202f
    ||| u == 0x205f
    ||| u == 0x3000
}

/// `s` without its leading white space.
pub open spec fn trimmed_start(s: Seq<char>) -> Seq<char>
    decreases s.len(),
{
    if s.len() > 0 && white(s[0]) {
        trimmed_start(s.skip(1))
    } else {
        s
    }
}

/// `s` without its trailing white space.
pub open spec fn trimmed_end(s: Seq<char>) -> Seq<char>
    decreases s.len(),
{
    if s.len() > 0 && white(s.last()) {
        trimmed_end(s.drop_last())
    } else {
        s
    }
}

/// `s` without white space at either end.
pub open spec fn trimmed(s: Seq<char>) -> Seq<char> {
    trimmed_end(trimmed_start(s))
}

/// What stands before the first white space of `s`.
pub open spec fn until_white(s: Seq<char>) -> Seq<char>
    decreases s.len(),
{
    if s.len() == 0 || white(s[0]) {
        Seq::empty()
    } else {
        seq![s[0]] + until_white(s.skip(1))
    }
}

/// The first white-space separated word of `s`, if there is one.
pub open spec fn first_word(s: Seq<char>) -> Option<Seq<char>> {
    let t = trimmed_start(s);
    if t.len() == 0 {
        None
    } else {
        Some(until_white(t))
    }
}

/// A line without the carriage return that stood before its line feed.
pub open spec fn chomped(s: Seq<char>) -> Seq<char> {
    if s.len() > 0 && s.last() == '\r' {
        s.drop_last()
    } else {
        s
    }
}

/// The lines of `s`: each ends in a line feed, or a carriage return and a line
/// feed, which are not part of it; the last one may end without.
pub open spec fn lines_of(s: Seq<char>) -> Seq<Seq<char>>
    decreases s.len(),
{
    let k = first_index(s, '\n');
    if s.len() == 0 {
        Seq::empty()
    } else if 0 <= k < s.len() {
        seq![chomped(s.take(k))] + lines_of(s.skip(k + 1))
    } else {
        seq![s]
    }
}

/// The decimal digit of a number below ten.
pub open spec fn digit(n: nat) -> char {
    (('0' as u32) + n) as char
}

/// `c` is an ASCII decimal digit.
pub open spec fn is_digit(c: char) -> bool {
    '0' <= c <= '9'
}

/// The number that a decimal digit stands for.
pub open spec fn digit_value(c: char) -> nat {
    (c as u32 - '0' as u32) as nat
}

/// A natural number in decimal, without leading zeros.
pub open spec fn dec(n: nat) -> Seq<char>
    decreases n,
{
    if n < 10 {
        seq![digit(n)]
    } else {
        dec(n / 10).push(digit(n % 10))
    }
}

/// An integer in decimal, with a minus sign where it is negative.
pub open spec fn dec_int(n: int) -> Seq<char> {
    if n < 0 {
        seq!['-'] + dec((-n) as nat)
    } else {
        dec(n as nat)
    }
}

/// Every character of `s` is a decimal digit.
pub open spec fn all_digits(s: Seq<char>) -> bool {
    forall|i: int| 0 <= i < s.len() ==> is_digit(#[trigger] s[i])
}

/// The number that a run of decimal digits stands for.
pub open spec fn digits_value(s: Seq<char>) -> nat
    decreases s.len(),
{
    if s.len() == 0 {
        0
    } else {
        digits_value(s.drop_last()) * 10 + digit_value(s.last())
    }
}

/// `s` without the plus sign that a number may begin with.
pub open spec fn unsigned_part(s: Seq<char>) -> Seq<char> {
    if s.len() > 0 && s[0] == '+' {
        s.skip(1)
    } else {
        s
    }
}

/// The 32-bit unsigned number that `s` spells: digits, at least one, perhaps
/// after a plus sign.
pub open spec fn number(s: Seq<char>) -> Option<u32> {
    let d = unsigned_part(s);
    if d.len() > 0 && all_digits(d) && digits_value(d) <= u32::MAX {
        Some(digits_value(d) as u32)
    } else {
        None
    }
}

/// `s` with every occurrence of `from` replaced by `to`, found from left to
/// right and without overlap.
pub open spec fn replaced(s: Seq<char>, from: Seq<char>, to: Seq<char>) -> Seq<char>
    decreases s.len(),
{
    if s.len() == 0 || from.len() == 0 {
        s
    } else if occurs_at(s, from, 0) {
        to + replaced(s.skip(from.len() as int), from, to)
    } else {
        seq![s[0]] + replaced(s.skip(1), from, to)
    }
}

/// The items of `list` with `sep` between each two.
pub open spec fn joined(list: Seq<Seq<char>>, sep: Seq<char>) -> Seq<char>
    decreases list.len(),
{
    if list.len() == 0 {
        Seq::empty()
    } else if list.len() == 1 {
        list[0]
    } else {
        joined(list.drop_last(), sep) + sep + list.last()
    }
}

/// The characters of `s`.
pub fn chars_of(s: &str) -> (r: Vec<char>)
    ensures
        r@ == s@,
{
    let mut r: Vec<char> = Vec::new();
    for c in it: s.chars()
        invariant
            it.seq() == s@,
            r@ == s@.take(it.index() as int),
    {
        r.push(c);
    }
    r
}

/// The string made of the characters `from..to` of `s`.
pub fn string_of(s: &Vec<char>, from: usize, to: usize) -> (r: String)
    requires
        from <= to <= s@.len(),
    ensures
        r@ == s@.subrange(from as int, to as int),
{
    let mut r = String::new();
    let mut i: usize = from;
    while i < to
        invariant
            from <= i <= to <= s@.len(),
            r@ == s@.subrange(from as int, i as int),
        decreases to - i,
    {
        r.push(s[i]);
        i += 1;
    }
    r
}

/// `p` stands in `s` at offset `i`.
fn matches_at(s: &Vec<char>, p: &Vec<char>, i: usize) -> (r: bool)
    requires
        i <= s@.len(),
    ensures
        r == occurs_at(s@, p@, i as int),
{
    if s.len() - i < p.len() {
        return false;
    }
    let mut j: usize = 0;
    while j < p.len()
        invariant
            j <= p@.len(),
            i + p@.len() <= s.len(),
            forall|k: int| 0 <= k < j ==> s@[i + k] == p@[k],
        decreases p@.len() - j,
    {
        if s[i + j] != p[j] {
            assert(s@.subrange(i as int, i + p@.len())[j as int] != p@[j as int]);
            return false;
        }
        j += 1;
    }
    assert(s@.subrange(i as int, i + p@.len()) =~= p@);
    true
}

/// The two strings hold the same characters.
pub fn same(a: &str, b: &str) -> (r: bool)
    ensures
        r == (a@ == b@),
{
    let x = chars_of(a);
    let y = chars_of(b);
    if x.len() != y.len() {
        return false;
    }
    let r = matches_at(&x, &y, 0);
    assert(x@.subrange(0, x@.len() as int) =~= x@);
    r
}

/// `p` occurs in `s`.
pub fn contains(s: &str, p: &str) -> (r: bool)
    ensures
        r == occurs(s@, p@),
{
    let x = chars_of(s);
    let y = chars_of(p);
    let mut i: usize = 0;
    while i <= x.len()
        invariant
            i <= x@.len() + 1,
            x@ == s@,
            y@ == p@,
            forall|k: int| 0 <= k < i ==> !#[trigger] occurs_at(x@, y@, k),
        decreases x@.len() + 1 - i,
    {
        if matches_at(&x, &y, i) {
            return true;
        }
        if i == x.len() {
            return false;
        }
        i += 1;
    }
    false
}

/// `s` begins with `p`.
pub fn starts_with(s: &str, p: &str) -> (r: bool)
    ensures
        r == occurs_at(s@, p@, 0),
{
    let x = chars_of(s);
    let y = chars_of(p);
    matches_at(&x, &y, 0)
}

/// Where `c` first stands in `s` is pinned down by what stands before it.
pub proof fn lemma_first_index(s: Seq<char>, c: char, k: int)
    requires
        0 <= k <= s.len(),
        forall|j: int| 0 <= j < k ==> s[j] != c,
        k < s.len() ==> s[k] == c,
    ensures
        first_index(s, c) == k,
    decreases k,
{
    if k > 0 {
        let t = s.skip(1);
        assert forall|j: int| 0 <= j < k - 1 implies t[j] != c by {
            assert(t[j] == s[j + 1]);
        }
        lemma_first_index(t, c, k - 1);
    }
}

/// The offset of the first `c` in `s` at or after `from`, or the length of `s`.
fn index_from(s: &Vec<char>, c: char, from: usize) -> (r: usize)
    requires
        from <= s@.len(),
    ensures
        from <= r <= s@.len(),
        r - from == first_index(s@.skip(from as int), c),
{
    let mut i: usize = from;
    while i < s.len() && s[i] != c
        invariant
            from <= i <= s@.len(),
            forall|j: int| from <= j < i ==> s@[j] != c,
        decreases s@.len() - i,
    {
        i += 1;
    }
    proof {
        let t = s@.skip(from as int);
        assert forall|j: int| 0 <= j < i - from implies t[j] != c by {
            assert(t[j] == s@[j + from]);
        }
        lemma_first_index(t, c, i - from);
    }
    i
}

/// `s` before and after its first `c`.
pub fn split_once(s: &str, c: char) -> (r: Option<(String, String)>)
    ensures
        first_index(s@, c) == s@.len() <==> r is None,
        r matches Some((a, b)) ==> {
            &&& a@ == s@.take(first_index(s@, c))
            &&& b@ == s@.skip(first_index(s@, c) + 1)
        },
{
    let x = chars_of(s);
    assert(x@.skip(0) =~= x@);
    let k = index_from(&x, c, 0);
    if k == x.len() {
        return None;
    }
    let a = string_of(&x, 0, k);
    let b = string_of(&x, k + 1, x.len());
    assert(a@ =~= s@.take(k as int));
    assert(b@ =~= s@.skip(k + 1));
    Some((a, b))
}

/// `c` is Unicode white space.
pub fn is_white(c: char) -> (r: bool)
    ensures
        r == white(c),
{
    let u: u32 = c as u32;
    (0x9 <= u && u <= 0xd) || u == 0x20 || u == 0x85 || u == 0xa0 || u == 0x1680 || (0x2000 <= u
        && u <= 0x200a) || u == 0x2028 || u == 0x2029 || u == 0x202f || u == 0x205f || u == 0x3000
}

/// The first offset at or after `from` of a character that is not white.
fn skip_white(s: &Vec<char>, from: usize) -> (r: usize)
    requires
        from <= s@.len(),
    ensures
        from <= r <= s@.len(),
        trimmed_start(s@.skip(from as int)) == s@.skip(r as int),
{
    let mut i: usize = from;
    while i < s.len() && is_white(s[i])
        invariant
            from <= i <= s@.len(),
            trimmed_start(s@.skip(from as int)) == trimmed_start(s@.skip(i as int)),
        decreases s@.len() - i,
    {
        assert(s@.skip(i as int).skip(1) =~= s@.skip(i + 1));
        i += 1;
    }
    i
}

/// `s` without white space at either end.
pub fn trim(s: &str) -> (r: String)
    ensures
        r@ == trimmed(s@),
{
    let x = chars_of(s);
    assert(x@.skip(0) =~= x@);
    let from = skip_white(&x, 0);
    let mut to: usize = x.len();
    assert(x@.subrange(from as int, to as int) =~= x@.skip(from as int));
    while from < to && is_white(x[to - 1])
        invariant
            from <= to <= x@.len(),
            trimmed_end(x@.skip(from as int)) == trimmed_end(
                x@.subrange(from as int, to as int),
            ),
        decreases to,
    {
        let ghost t = x@.subrange(from as int, to as int);
        assert(t.last() == x@[to - 1]);
        assert(t.drop_last() =~= x@.subrange(from as int, to - 1));
        to -= 1;
    }
    assert(from < to ==> x@.subrange(from as int, to as int).last() == x@[to - 1]);
    string_of(&x, from, to)
}

/// `s` without its leading white space.
pub fn trim_start(s: &str) -> (r: String)
    ensures
        r@ == trimmed_start(s@),
{
    let x = chars_of(s);
    assert(x@.skip(0) =~= x@);
    let from = skip_white(&x, 0);
    assert(x@.subrange(from as int, x@.len() as int) =~= x@.skip(from as int));
    string_of(&x, from, x.len())
}

/// What stands before the first white space is pinned down by its length.
proof fn lemma_until_white(s: Seq<char>, k: int)
    requires
        0 <= k <= s.len(),
        forall|j: int| 0 <= j < k ==> !white(s[j]),
        k < s.len() ==> white(s[k]),
    ensures
        until_white(s) == s.take(k),
    decreases k,
{
    if k > 0 {
        let t = s.skip(1);
        assert forall|j: int| 0 <= j < k - 1 implies !white(t[j]) by {
            assert(t[j] == s[j + 1]);
        }
        lemma_until_white(t, k - 1);
        assert(seq![s[0]] + t.take(k - 1) =~= s.take(k));
    } else {
        assert(s.take(0) =~= Seq::empty());
    }
}

/// The first white-space separated word of `s`.
pub fn word(s: &str) -> (r: Option<String>)
    ensures
        r is Some <==> first_word(s@) is Some,
        r matches Some(w) ==> first_word(s@) == Some(w@),
{
    let x = chars_of(s);
    assert(x@.skip(0) =~= x@);
    let from = skip_white(&x, 0);
    if from == x.len() {
        return None;
    }
    let mut to: usize = from;
    while to < x.len() && !is_white(x[to])
        invariant
            from <= to <= x@.len(),
            forall|j: int| from <= j < to ==> !white(x@[j]),
        decreases x@.len() - to,
    {
        to += 1;
    }
    proof {
        let t = x@.skip(from as int);
        assert forall|j: int| 0 <= j < to - from implies !white(t[j]) by {
            assert(t[j] == x@[j + from]);
        }
        lemma_until_white(t, to - from);
        assert(t.take(to - from) =~= x@.subrange(from as int, to as int));
    }
    Some(string_of(&x, from, to))
}

/// The lines of `s`.
pub fn lines(s: &str) -> (r: Vec<String>)
    ensures
        texts(r@) == lines_of(s@),
{
    let x = chars_of(s);
    let mut r: Vec<String> = Vec::new();
    let mut i: usize = 0;
    assert(x@.skip(0) =~= x@);
    while i < x.len()
        invariant
            i <= x@.len(),
            x@ == s@,
            lines_of(s@) == texts(r@) + lines_of(x@.skip(i as int)),
        decreases x@.len() - i,
    {
        let k = index_from(&x, '\n', i);
        let ghost t = x@.skip(i as int);
        let ghost before = texts(r@);
        if k == x.len() {
            let l = string_of(&x, i, k);
            assert(l@ =~= t);
            r.push(l);
            assert(texts(r@) =~= before.push(l@));
            assert(lines_of(s@) =~= texts(r@));
            return r;
        }
        let end: usize = if k > i && x[k - 1] == '\r' {
            k - 1
        } else {
            k
        };
        let l = string_of(&x, i, end);
        proof {
            let m = t.take(k - i);
            assert(m =~= x@.subrange(i as int, k as int));
            assert(chomped(m) =~= l@);
            assert(t.skip(k - i + 1) =~= x@.skip(k + 1));
        }
        r.push(l);
        assert(texts(r@) =~= before.push(l@));
        assert(before + (seq![l@] + lines_of(x@.skip(k + 1))) =~= texts(r@) + lines_of(
            x@.skip(k + 1),
        ));
        i = k + 1;
    }
    assert(x@.skip(i as int).len() == 0);
    assert(texts(r@) + Seq::<Seq<char>>::empty() =~= texts(r@));
    r
}

/// Appends `n` in decimal.
pub fn push_dec(s: &mut String, n: u64)
    ensures
        final(s)@ == old(s)@ + dec(n as nat),
    decreases n,
{
    if n < 10 {
        s.push(digit_char(n));
        assert(s@ =~= old(s)@ + dec(n as nat));
    } else {
        push_dec(s, n / 10);
        s.push(digit_char(n % 10));
        assert(s@ =~= old(s)@ + dec(n as nat));
    }
}

/// The decimal digit of `n`.
fn digit_char(n: u64) -> (c: char)
    requires
        n < 10,
    ensures
        c == digit(n as nat),
{
    ('0' as u8 + n as u8) as char
}

/// `n` in decimal.
pub fn decimal(n: u64) -> (r: String)
    ensures
        r@ == dec(n as nat),
{
    let mut r = String::new();
    push_dec(&mut r, n);
    assert(r@ =~= dec(n as nat));
    r
}

/// Appends `n` in decimal, with its sign where it is negative.
pub fn push_dec_int(s: &mut String, n: i64)
    requires
        n > i64::MIN,
    ensures
        final(s)@ == old(s)@ + dec_int(n as int),
{
    if n < 0 {
        s.push('-');
        push_dec(s, (-n) as u64);
        assert(s@ =~= old(s)@ + dec_int(n as int));
    } else {
        push_dec(s, n as u64);
    }
}

/// The value of digits never falls as more of them are read.
proof fn lemma_digits_grow(d: Seq<char>, k: int)
    requires
        all_digits(d),
        0 <= k <= d.len(),
    ensures
        digits_value(d.take(k)) <= digits_value(d),
    decreases d.len(),
{
    if k < d.len() {
        assert(d.drop_last().take(k) =~= d.take(k));
        lemma_digits_grow(d.drop_last(), k);
    } else {
        assert(d.take(k) =~= d);
    }
}

/// The 32-bit unsigned number that `s` spells.
pub fn parse_number(s: &str) -> (r: Option<u32>)
    ensures
        r == number(s@),
{
    let x = chars_of(s);
    let from: usize = if x.len() > 0 && x[0] == '+' {
        1
    } else {
        0
    };
    let ghost d = x@.skip(from as int);
    assert(x@.skip(0) =~= x@);
    assert(d == unsigned_part(s@));
    if from == x.len() {
        return None;
    }
    let mut v: u32 = 0;
    let mut i: usize = from;
    assert(d.take(0) =~= Seq::empty());
    while i < x.len()
        invariant
            from <= i <= x@.len(),
            d == x@.skip(from as int),
            d == unsigned_part(s@),
            v == digits_value(d.take(i - from)),
            forall|j: int| 0 <= j < i - from ==> is_digit(#[trigger] d[j]),
        decreases x@.len() - i,
    {
        let c = x[i];
        assert(d[i - from] == c);
        if !('0' <= c && c <= '9') {
            return None;
        }
        let n: u32 = c as u32 - '0' as u32;
        let ghost next = d.take(i - from + 1);
        assert(next.drop_last() =~= d.take(i - from));
        assert(next.last() == c);
        let wide: u64 = v as u64 * 10 + n as u64;
        assert(wide == digits_value(next));
        if wide > u32::MAX as u64 {
            proof {
                if all_digits(d) {
                    lemma_digits_grow(d, i - from + 1);
                }
            }
            return None;
        }
        v = wide as u32;
        i += 1;
    }
    assert(d.take(d.len() as int) =~= d);
    Some(v)
}

/// A number's decimal text is made of digits, at least one.
pub proof fn lemma_dec_digits(n: nat)
    ensures
        dec(n).len() > 0,
        all_digits(dec(n)),
        digits_value(dec(n)) == n,
    decreases n,
{
    if n < 10 {
        let d = dec(n);
        assert(d.drop_last() =~= Seq::empty());
        assert(d.last() == digit(n));
        assert(digits_value(d.drop_last()) == 0);
    } else {
        lemma_dec_digits(n / 10);
        let d = dec(n);
        assert(d.drop_last() =~= dec(n / 10));
        assert(d.last() == digit(n % 10));
        assert forall|i: int| 0 <= i < d.len() implies is_digit(#[trigger] d[i]) by {
            if i < d.len() - 1 {
                assert(d[i] == dec(n / 10)[i]);
            }
        }
    }
}

/// Reading the decimal text of a number gives the number back.
pub proof fn law_number_of_dec(n: u32)
    ensures
        number(dec(n as nat)) == Some(n),
{
    lemma_dec_digits(n as nat);
    assert(is_digit(dec(n as nat)[0]));
}

/// Appends the characters of `s`.
fn push_chars(r: &mut String, s: &Vec<char>)
    ensures
        final(r)@ == old(r)@ + s@,
{
    let mut i: usize = 0;
    while i < s.len()
        invariant
            i <= s@.len(),
            r@ == old(r)@ + s@.take(i as int),
        decreases s@.len() - i,
    {
        r.push(s[i]);
        i += 1;
        assert(s@.take(i as int) =~= s@.take(i - 1).push(s@[i - 1]));
        assert(r@ =~= old(r)@ + s@.take(i as int));
    }
    assert(s@.take(i as int) =~= s@);
}

/// `s` with every occurrence of `from` replaced by `to`.
pub fn replace(s: &str, from: &str, to: &str) -> (r: String)
    requires
        from@.len() > 0,
    ensures
        r@ == replaced(s@, from@, to@),
{
    let x = chars_of(s);
    let f = chars_of(from);
    let t = chars_of(to);
    let mut r = String::new();
    let mut i: usize = 0;
    assert(x@.skip(0) =~= x@);
    assert(r@ + replaced(x@, f@, t@) =~= replaced(x@, f@, t@));
    while i < x.len()
        invariant
            i <= x@.len(),
            f@.len() > 0,
            replaced(x@, f@, t@) == r@ + replaced(x@.skip(i as int), f@, t@),
        decreases x@.len() - i,
    {
        let ghost rest = x@.skip(i as int);
        let ghost before = r@;
        let hit = matches_at(&x, &f, i);
        assert(hit == occurs_at(rest, f@, 0)) by {
            if i + f@.len() <= x@.len() {
                assert(x@.subrange(i as int, i + f@.len()) =~= rest.subrange(0, f@.len() as int));
            }
        }
        if hit {
            push_chars(&mut r, &t);
            assert(rest.skip(f@.len() as int) =~= x@.skip(i + f@.len()));
            assert(before + (t@ + replaced(x@.skip(i + f@.len()), f@, t@)) =~= r@ + replaced(
                x@.skip(i + f@.len()),
                f@,
                t@,
            ));
            i += f.len();
        } else {
            r.push(x[i]);
            assert(rest.skip(1) =~= x@.skip(i + 1));
            assert(before + (seq![rest[0]] + replaced(x@.skip(i + 1), f@, t@)) =~= r@ + replaced(
                x@.skip(i + 1),
                f@,
                t@,
            ));
            i += 1;
        }
    }
    assert(x@.skip(i as int).len() == 0);
    assert(r@ + x@.skip(i as int) =~= r@);
    r
}

/// The items of `list` with `sep` between each two.
pub fn join(list: &Vec<String>, sep: &str) -> (r: String)
    ensures
        r@ == joined(texts(list@), sep@),
{
    let mut r = String::new();
    let mut i: usize = 0;
    let ghost all = texts(list@);
    while i < list.len()
        invariant
            i <= list@.len(),
            all == texts(list@),
            r@ == joined(all.take(i as int), sep@),
        decreases list@.len() - i,
    {
        let ghost next = all.take(i + 1);
        assert(next.drop_last() =~= all.take(i as int));
        assert(next.last() == list@[i as int]@);
        if i > 0 {
            r.append(sep);
        }
        r.append(list[i].as_str());
        assert(r@ =~= joined(next, sep@));
        i += 1;
    }
    assert(all.take(i as int) =~= all);
    r
}

/// Appends a copy of `s` to a list of strings.
pub fn push_text(list: &mut Vec<String>, s: &str)
    ensures
        texts(final(list)@) == texts(old(list)@).push(s@),
        final(list)@.len() == old(list)@.len() + 1,
{
    list.push(s.to_owned());
    assert(texts(list@) =~= texts(old(list)@).push(s@));
}

/// Appends `s` to a list of strings.
pub fn push_string(list: &mut Vec<String>, s: String)
    ensures
        texts(final(list)@) == texts(old(list)@).push(s@),
        final(list)@.len() == old(list)@.len() + 1,
{
    list.push(s);
    assert(texts(list@) =~= texts(old(list)@).push(s@));
}

/// A text and, behind it, a number.
pub fn labelled(label: &str, n: u64) -> (r: String)
    ensures
        r@ == label@ + dec(n as nat),
{
    let mut r = label.to_owned();
    push_dec(&mut r, n);
    r
}

/// A text and, behind it, a signed number.
pub fn labelled_int(label: &str, n: i64) -> (r: String)
    requires
        n > i64::MIN,
    ensures
        r@ == label@ + dec_int(n as int),
{
    let mut r = label.to_owned();
    push_dec_int(&mut r, n);
    r
}

/// A text and, behind it, another one.
pub fn tagged(label: &str, t: &str) -> (r: String)
    ensures
        r@ == label@ + t@,
{
    let mut r = label.to_owned();
    r.append(t);
    r
}

/// Appends the strings of `more`.
pub fn push_all(list: &mut Vec<String>, more: &Vec<String>)
    ensures
        texts(final(list)@) == texts(old(list)@) + texts(more@),
{
    let mut i: usize = 0;
    assert(texts(list@) =~= texts(old(list)@) + texts(more@).take(0));
    while i < more.len()
        invariant
            i <= more@.len(),
            texts(list@) == texts(old(list)@) + texts(more@).take(i as int),
        decreases more@.len() - i,
    {
        push_text(list, more[i].as_str());
        assert(texts(more@).take(i + 1) =~= texts(more@).take(i as int).push(more@[i as int]@));
        i += 1;
        assert(texts(list@) =~= texts(old(list)@) + texts(more@).take(i as int));
    }
    assert(texts(more@).take(i as int) =~= texts(more@));
}

/// Whether an optional string is there and is `t`.
pub fn is_text(s: &Option<String>, t: &str) -> (r: bool)
    ensures
        r == (optional(*s) == Some(t@)),
{
    match s {
        Some(u) => same(u.as_str(), t),
        None => false,
    }
}

/// Among arguments, `value` stands right behind `name`.
pub open spec fn followed(args: Seq<Seq<char>>, name: Seq<char>, value: Seq<char>) -> bool {
    exists|k: int| #[trigger] stands_at(args, name, value, k)
}

/// `name` stands at place `k`, and `value` right behind it.
pub open spec fn stands_at(
    args: Seq<Seq<char>>,
    name: Seq<char>,
    value: Seq<char>,
    k: int,
) -> bool {
    0 <= k && k + 1 < args.len() && args[k] == name && args[k + 1] == value
}

/// `c` does not occur in `s`.
pub open spec fn lacks(s: Seq<char>, c: char) -> bool {
    forall|i: int| 0 <= i < s.len() ==> #[trigger] s[i] != c
}

/// A text that lacks a character of another does not hold the other.
pub proof fn lemma_lacks(s: Seq<char>, p: Seq<char>, k: int)
    requires
        0 <= k < p.len(),
        lacks(s, p[k]),
    ensures
        !occurs(s, p),
{
    if occurs(s, p) {
        let i = choose|i: int| #[trigger] occurs_at(s, p, i);
        assert(s.subrange(i, i + p.len())[k] == s[i + k]);
    }
}

/// A number's decimal text lacks everything that is no digit.
pub proof fn lemma_dec_lacks(n: nat, c: char)
    requires
        !is_digit(c),
    ensures
        lacks(dec(n), c),
{
    lemma_dec_digits(n);
    assert forall|i: int| 0 <= i < dec(n).len() implies #[trigger] dec(n)[i] != c by {
        assert(is_digit(dec(n)[i]));
    }
}

/// Blanks, tabs and line ends are white space; digits, letters and the other visible
/// characters of ASCII are not.
pub proof fn law_white_ascii(c: char)
    requires
        c as u32 <= 0x7f,
    ensures
        white(c) <==> (c == ' ' || c == '\t' || c == '\n' || c == '\r' || c == '\u{b}' || c
            == '\u{c}'),
{
}

/// Trimming takes white space away at both ends, and nothing else.
pub proof fn law_trimmed(s: Seq<char>) -> (r: (int, int))
    ensures
        0 <= r.0 <= r.1 <= s.len(),
        trimmed(s) == s.subrange(r.0, r.1),
        forall|i: int| 0 <= i < r.0 ==> white(#[trigger] s[i]),
        forall|i: int| r.1 <= i < s.len() ==> white(#[trigger] s[i]),
        r.0 < r.1 ==> !white(s[r.0]) && !white(s[r.1 - 1]),
{
    let a = lemma_trimmed_start(s);
    let t = s.skip(a);
    let b = lemma_trimmed_end(t);
    assert(t.take(b) =~= s.subrange(a, a + b));
    if b == 0 {
        assert forall|i: int| a <= i < s.len() implies white(#[trigger] s[i]) by {
            assert(t[i - a] == s[i]);
        }
    } else {
        assert(t[0] == s[a]);
        assert(t[b - 1] == s[a + b - 1]);
        assert forall|i: int| a + b <= i < s.len() implies white(#[trigger] s[i]) by {
            assert(t[i - a] == s[i]);
        }
    }
    (a, a + b)
}

/// Where the text begins behind its leading white space.
proof fn lemma_trimmed_start(s: Seq<char>) -> (a: int)
    ensures
        0 <= a <= s.len(),
        trimmed_start(s) == s.skip(a),
        forall|i: int| 0 <= i < a ==> white(#[trigger] s[i]),
        a < s.len() ==> !white(s[a]),
    decreases s.len(),
{
    if s.len() > 0 && white(s[0]) {
        let t = s.skip(1);
        let a = lemma_trimmed_start(t);
        assert(t.skip(a) =~= s.skip(a + 1));
        assert forall|i: int| 0 <= i < a + 1 implies white(#[trigger] s[i]) by {
            if i > 0 {
                assert(t[i - 1] == s[i]);
            }
        }
        if a < t.len() {
            assert(t[a] == s[a + 1]);
        }
        a + 1
    } else {
        assert(s.skip(0) =~= s);
        0
    }
}

/// Where the text ends before its trailing white space.
proof fn lemma_trimmed_end(s: Seq<char>) -> (b: int)
    ensures
        0 <= b <= s.len(),
        trimmed_end(s) == s.take(b),
        forall|i: int| b <= i < s.len() ==> white(#[trigger] s[i]),
        b > 0 ==> !white(s[b - 1]),
    decreases s.len(),
{
    if s.len() > 0 && white(s.last()) {
        let t = s.drop_last();
        let b = lemma_trimmed_end(t);
        assert(t.take(b) =~= s.take(b));
        assert forall|i: int| b <= i < s.len() implies white(#[trigger] s[i]) by {
            if i < t.len() {
                assert(t[i] == s[i]);
            }
        }
        if b > 0 {
            assert(t[b - 1] == s[b - 1]);
        }
        b
    } else {
        assert(s.take(s.len() as int) =~= s);
        s.len() as int
    }
}

/// The first word of a text is what stands between its leading white space and the
/// next one; a text of white space alone has none.
pub proof fn law_first_word(gap: Seq<char>, w: Seq<char>, tail: Seq<char>)
    requires
        forall|i: int| 0 <= i < gap.len() ==> white(#[trigger] gap[i]),
        forall|i: int| 0 <= i < w.len() ==> !white(#[trigger] w[i]),
        tail.len() > 0 ==> white(tail[0]),
    ensures
        w.len() > 0 ==> first_word(gap + w + tail) == Some(w),
        first_word(gap) is None,
    decreases gap.len(),
{
    if gap.len() > 0 {
        let g = gap.skip(1);
        assert forall|i: int| 0 <= i < g.len() implies white(#[trigger] g[i]) by {
            assert(g[i] == gap[i + 1]);
        }
        law_first_word(g, w, tail);
        assert((gap + w + tail).skip(1) =~= g + w + tail);
        assert((gap + w + tail)[0] == gap[0]);
        assert(white(gap[0]));
    } else if w.len() > 0 {
        let s = gap + w + tail;
        assert(s =~= w + tail);
        assert(s[0] == w[0]);
        assert(!white(w[0]));
        assert forall|j: int| 0 <= j < w.len() implies !white(s[j]) by {
            assert(s[j] == w[j]);
        }
        if tail.len() > 0 {
            assert(s[w.len() as int] == tail[0]);
        }
        lemma_until_white(s, w.len() as int);
        assert(s.take(w.len() as int) =~= w);
    }
}

/// A line ends at the first line feed. The line feed is no part of it, nor is a
/// carriage return right before that; what stands behind is split in the same way, and
/// a text without a line feed is one line as it is.
pub proof fn law_lines(line: Seq<char>, tail: Seq<char>)
    requires
        forall|i: int| 0 <= i < line.len() ==> #[trigger] line[i] != '\n',
    ensures
        line.len() > 0 ==> lines_of(line) == seq![line],
        lines_of(Seq::<char>::empty()) == Seq::<Seq<char>>::empty(),
        lines_of(line + seq!['\r', '\n'] + tail) == seq![line] + lines_of(tail),
        line.len() == 0 || line.last() != '\r' ==> lines_of(line + seq!['\n'] + tail) == seq![line]
            + lines_of(tail),
{
    lemma_first_index(line, '\n', line.len() as int);
    let n = line.len() as int;
    let s = line + seq!['\r', '\n'] + tail;
    assert(s[n] == '\r' && s[n + 1] == '\n');
    assert forall|j: int| 0 <= j < n + 1 implies s[j] != '\n' by {
        if j < n {
            assert(s[j] == line[j]);
        }
    }
    lemma_first_index(s, '\n', n + 1);
    assert(s.take(n + 1).drop_last() =~= line);
    assert(s.take(n + 1).last() == '\r');
    assert(s.skip(n + 2) =~= tail);
    let t = line + seq!['\n'] + tail;
    assert(t[n] == '\n');
    assert forall|j: int| 0 <= j < n implies t[j] != '\n' by {
        assert(t[j] == line[j]);
    }
    lemma_first_index(t, '\n', n);
    assert(t.take(n) =~= line);
    assert(t.skip(n + 1) =~= tail);
}

/// The first occurrence of a text is replaced, what stands before it stays, and what
/// stands behind it is treated in the same way; a text in which nothing occurs stays
/// as it is.
pub proof fn law_replaced(a: Seq<char>, from: Seq<char>, b: Seq<char>, to: Seq<char>)
    requires
        from.len() > 0,
        forall|i: int| 0 <= i < a.len() ==> !#[trigger] occurs_at(a + from + b, from, i),
    ensures
        replaced(a + from + b, from, to) == a + to + replaced(b, from, to),
    decreases a.len(),
{
    let s = a + from + b;
    if a.len() == 0 {
        assert(s.subrange(0, from.len() as int) =~= from);
        assert(occurs_at(s, from, 0));
        assert(s.skip(from.len() as int) =~= b);
        assert(a + to =~= to);
    } else {
        assert(!occurs_at(s, from, 0));
        let c = a.skip(1);
        assert(s.skip(1) =~= c + from + b);
        assert forall|i: int| 0 <= i < c.len() implies !#[trigger] occurs_at(
            c + from + b,
            from,
            i,
        ) by {
            if occurs_at(c + from + b, from, i) {
                assert(s.subrange(i + 1, i + 1 + from.len()) =~= (c + from + b).subrange(
                    i,
                    i + from.len(),
                ));
                assert(occurs_at(s, from, i + 1));
            }
        }
        law_replaced(c, from, b, to);
        assert(seq![s[0]] + (c + to + replaced(b, from, to)) =~= a + to + replaced(b, from, to));
    }
}

/// A text in which nothing occurs stays as it is.
pub proof fn law_nothing_replaced(s: Seq<char>, from: Seq<char>, to: Seq<char>)
    requires
        !occurs(s, from),
    ensures
        replaced(s, from, to) == s,
    decreases s.len(),
{
    if s.len() > 0 && from.len() > 0 {
        assert(!occurs_at(s, from, 0));
        let t = s.skip(1);
        if occurs(t, from) {
            let i = choose|i: int| #[trigger] occurs_at(t, from, i);
            assert(s.subrange(i + 1, i + 1 + from.len()) =~= t.subrange(i, i + from.len()));
            assert(occurs_at(s, from, i + 1));
        }
        law_nothing_replaced(t, from, to);
        assert(seq![s[0]] + t =~= s);
    }
}

/// Items are joined with the separator between each two, and none at the ends.
pub proof fn law_joined(first: Seq<char>, more: Seq<Seq<char>>, sep: Seq<char>)
    ensures
        joined(Seq::<Seq<char>>::empty(), sep) == Seq::<char>::empty(),
        joined(seq![first], sep) == first,
        more.len() > 0 ==> joined(seq![first] + more, sep) == first + sep + joined(more, sep),
    decreases more.len(),
{
    if more.len() == 1 {
        let all = seq![first] + more;
        assert(all.drop_last() =~= seq![first]);
        assert(all.last() == more[0]);
        assert(joined(seq![first], sep) == first);
        assert(joined(all, sep) == joined(all.drop_last(), sep) + sep + all.last());
        assert(joined(more, sep) == more[0]);
    } else if more.len() > 1 {
        let all = seq![first] + more;
        law_joined(first, more.drop_last(), sep);
        assert(all.drop_last() =~= seq![first] + more.drop_last());
        assert(all.last() == more.last());
        assert(joined(all, sep) =~= first + sep + joined(more, sep));
    }
}

/// Only digits, at least one and perhaps behind a plus sign, spell a number.
pub proof fn law_number_form(s: Seq<char>)
    ensures
        number(s) is Some ==> s.len() > 0 && (s[0] == '+' ==> s.len() > 1) && forall|i: int|
            0 <= i < s.len() ==> '0' <= #[trigger] s[i] <= '9' || (i == 0 && s[i] == '+'),
        number(seq!['+'] + s) is Some && s.len() > 0 && s[0] != '+' ==> number(seq!['+'] + s)
            == number(s),
{
    if number(s) is Some {
        let d = unsigned_part(s);
        assert forall|i: int| 0 <= i < s.len() implies '0' <= #[trigger] s[i] <= '9' || (i == 0
            && s[i] == '+') by {
            if s[0] == '+' {
                if i > 0 {
                    assert(is_digit(d[i - 1]));
                }
            } else {
                assert(is_digit(d[i]));
            }
        }
    }
    assert((seq!['+'] + s).skip(1) =~= s);
}

/// A decimal text has no leading zero, except that of zero itself, and one more digit
/// at its end multiplies by ten.
pub proof fn law_dec(n: nat, d: nat)
    requires
        d < 10,
    ensures
        n > 0 ==> dec(n)[0] != '0' && dec(10 * n + d) == dec(n) + dec(d),
        dec(0) == seq!['0'],
        dec(9) == seq!['9'],
        dec(d).len() == 1,
        dec(d)[0] as u32 == 48 + d,
    decreases n,
{
    if n > 0 {
        assert((10 * n + d) / 10 == n);
        assert(dec(10 * n + d) =~= dec(n) + dec(d));
        if n >= 10 {
            law_dec(n / 10, 0);
            lemma_dec_digits(n / 10);
            assert(dec(n)[0] == dec(n / 10)[0]);
        }
    }
}

/// A number below zero stands behind a minus sign.
pub proof fn law_dec_int(n: nat)
    ensures
        dec_int(n as int) == dec(n),
        n > 0 ==> dec_int(-(n as int)) == seq!['-'] + dec(n),
{
}

/// One more digit makes ten times as much and the digit, as long as that fits into 32
/// bits; a text that spells more is no number.
pub proof fn law_number_value(s: Seq<char>, v: u32, d: u32)
    requires
        number(s) == Some(v),
        d < 10,
    ensures
        10 * v + d <= 0xffff_ffff ==> number(s + dec(d as nat)) == Some((10 * v + d) as u32),
        10 * v + d > 0xffff_ffff ==> number(s + dec(d as nat)) is None,
        number(dec(d as nat)) == Some(d),
        number(Seq::<char>::empty()) is None,
        number(seq!['+']) is None,
{
    let t = s + dec(d as nat);
    let a = unsigned_part(s);
    let b = unsigned_part(t);
    assert(dec(d as nat) =~= seq![digit(d as nat)]);
    assert(is_digit(digit(d as nat)));
    assert(b =~= a.push(digit(d as nat)));
    assert(b.drop_last() =~= a);
    assert forall|i: int| 0 <= i < b.len() implies is_digit(#[trigger] b[i]) by {
        if i < a.len() {
            assert(b[i] == a[i]);
        }
    }
    law_number_of_dec(d);
    assert(seq!['+'].skip(1).len() == 0);
}

/// Beyond ASCII, white space is the next line, the blanks of several widths, and the
/// separators of lines and paragraphs.
pub proof fn law_white_beyond_ascii(c: char)
    requires
        c as u32 > 0x7f,
    ensures
        white(c) <==> (c == '\u{85}' || c == '\u{a0}' || c == '\u{1680}' || '\u{2000}' <= c
            <= '\u{200a}' || c == '\u{2028}' || c == '\u{2029}' || c == '\u{202f}' || c
            == '\u{205f}' || c == '\u{3000}'),
{
}

} // verus!
