//! What the host says of itself on the network.

use crate::text::{optional, trim, trimmed};
use vstd::prelude::*;
use vstd::string::StringExecFns;

verus! {

/// A hexadecimal digit, in lower case.
pub open spec fn hex(n: int) -> char {
    if n < 10 {
        ('0' as u32 + n) as char
    } else {
        ('a' as u32 + (n - 10)) as char
    }
}

/// What stands for a character in a JSON string.
pub open spec fn escaped(c: char) -> Seq<char> {
    let u = c as u32;
    if c == '"' {
        seq!['\\', '"']
    } else if c == '\\' {
        seq!['\\', '\\']
    } else if u == 8 {
        seq!['\\', 'b']
    } else if u == 9 {
        seq!['\\', 't']
    } else if u == 10 {
        seq!['\\', 'n']
    } else if u == 12 {
        seq!['\\', 'f']
    } else if u == 13 {
        seq!['\\', 'r']
    } else if u < 32 {
        seq!['\\', 'u', '0', '0', hex(u as int / 16), hex(u as int % 16)]
    } else {
        seq![c]
    }
}

/// What stands for a text inside a JSON string.
pub open spec fn escaped_all(s: Seq<char>) -> Seq<char>
    decreases s.len(),
{
    if s.len() == 0 {
        Seq::empty()
    } else {
        escaped_all(s.drop_last()) + escaped(s.last())
    }
}

/// A text as a JSON string.
pub open spec fn json_text(s: Seq<char>) -> Seq<char> {
    seq!['"'] + escaped_all(s) + seq!['"']
}

/// `serde_json::to_string` on a `str` gives it as a JSON string: in quotation
/// marks, with these, backslashes and control characters escaped, and every other
/// character as it is.
#[verifier::external_body]
pub(crate) fn json_string(s: &str) -> (r: String)
    ensures
        r@ == json_text(s@),
{
    serde_json::to_string(s).unwrap_or_default()
}

/// The name of the computer: `COMPUTERNAME`, else `HOSTNAME`, else what the host
/// name file says, without white space around it.
pub open spec fn name_of(
    computer: Option<Seq<char>>,
    host: Option<Seq<char>>,
    file: Option<Seq<char>>,
) -> Seq<char> {
    match computer {
        Some(name) => name,
        None => match host {
            Some(name) => name,
            None => match file {
                Some(text) => trimmed(text),
                None => Seq::empty(),
            },
        },
    }
}

/// The name of the computer, out of two environment variables and the contents of
/// the host name file, where they are there.
pub fn host_name(computer: Option<String>, host: Option<String>, file: Option<String>) -> (r:
    String)
    ensures
        r@ == name_of(optional(computer), optional(host), optional(file)),
{
    if let Some(name) = computer {
        return name;
    }
    if let Some(name) = host {
        return name;
    }
    match file {
        Some(text) => trim(text.as_str()),
        None => {
            let r = String::new();
            assert(r@ =~= Seq::<char>::empty());
            r
        },
    }
}

/// The reply by which a viewer that scans the network finds the host.
pub open spec fn ping_text(name: Seq<char>) -> Seq<char> {
    "{\"app\":\"mirror-host\",\"name\":"@ + json_text(name) + "}"@
}

/// The reply by which a viewer that scans the network finds the host.
pub fn ping_body(name: &str) -> (r: String)
    ensures
        r@ == ping_text(name@),
{
    let mut r = "{\"app\":\"mirror-host\",\"name\":".to_owned();
    let quoted = json_string(name);
    r.append(quoted.as_str());
    r.append("}");
    r
}

/// A character that is escaped gives no bare quotation mark and no control
/// character.
proof fn lemma_escaped_clean(c: char)
    ensures
        forall|i: int|
            0 <= i < escaped(c).len() ==> (#[trigger] escaped(c)[i]) as u32 >= 32 && (escaped(c)[i]
                == '"' ==> i == 1 && escaped(c)[0] == '\\'),
        escaped(c).len() >= 1,
{
}

/// Whatever the computer is called, the reply is one line: a JSON string holds no
/// control character.
pub proof fn law_json_one_line(s: Seq<char>, i: int)
    requires
        0 <= i < json_text(s).len(),
    ensures
        json_text(s)[i] as u32 >= 32,
{
    lemma_no_control(s);
    if 0 < i < json_text(s).len() - 1 {
        assert(json_text(s)[i] == escaped_all(s)[i - 1]);
    }
}

/// An escaped text holds no control character.
proof fn lemma_no_control(s: Seq<char>)
    ensures
        forall|i: int| 0 <= i < escaped_all(s).len() ==> (#[trigger] escaped_all(s)[i]) as u32 >= 32,
    decreases s.len(),
{
    if s.len() > 0 {
        lemma_no_control(s.drop_last());
        lemma_escaped_clean(s.last());
        let head = escaped_all(s.drop_last());
        let tail = escaped(s.last());
        assert forall|i: int| 0 <= i < escaped_all(s).len() implies (
        #[trigger] escaped_all(s)[i]) as u32 >= 32 by {
            if i < head.len() {
                assert(escaped_all(s)[i] == head[i]);
            } else {
                assert(escaped_all(s)[i] == tail[i - head.len()]);
            }
        }
    }
}

/// The computer's name is that of the first source that has one, and the one out of
/// the file stands without its line end.
pub proof fn law_name_order(a: Seq<char>, b: Option<Seq<char>>, c: Option<Seq<char>>)
    ensures
        name_of(Some(a), b, c) == a,
        name_of(None, Some(a), c) == a,
        name_of(None, None, Some(a)) == trimmed(a),
        name_of(None, None, None) == Seq::<char>::empty(),
{
}

/// A name without special characters stands in the reply between quotation marks, as
/// it is.
pub proof fn law_plain_name(name: Seq<char>)
    requires
        forall|i: int|
            0 <= i < name.len() ==> #[trigger] name[i] as u32 >= 32 && name[i] != '"' && name[i]
                != '\\',
    ensures
        ping_text(name) == "{\"app\":\"mirror-host\",\"name\":"@ + (seq!['"'] + name + seq!['"'])
            + "}"@,
{
    lemma_plain(name);
}

/// A text without special characters is not changed.
proof fn lemma_plain(s: Seq<char>)
    requires
        forall|i: int|
            0 <= i < s.len() ==> #[trigger] s[i] as u32 >= 32 && s[i] != '"' && s[i] != '\\',
    ensures
        escaped_all(s) == s,
    decreases s.len(),
{
    if s.len() > 0 {
        let t = s.drop_last();
        assert forall|i: int| 0 <= i < t.len() implies #[trigger] t[i] as u32 >= 32 && t[i] != '"'
            && t[i] != '\\' by {
            assert(t[i] == s[i]);
        }
        lemma_plain(t);
        assert(s[s.len() - 1] as u32 >= 32);
        assert(t + seq![s.last()] =~= s);
    }
}

} // verus!
