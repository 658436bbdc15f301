//! JSON values and their texts, as `serde_json` makes them.

use crate::numbers::signed_decimal;
use crate::text::{lacks, text_less};
use vstd::prelude::*;

verus! {

/// Declares the JSON value of `serde_json`.
#[verifier::external_type_specification]
#[verifier::external_body]
pub struct ExValue(serde_json::Value);

/// The compact text of a JSON value.
pub uninterp spec fn value_json(value: serde_json::Value) -> Seq<char>;

/// The text of a JSON value over several lines, two spaces for each level.
pub uninterp spec fn value_pretty(value: serde_json::Value) -> Seq<char>;

/// A hexadecimal digit, in lower case.
pub open spec fn hex_digit(d: int) -> char {
    if d < 10 {
        (48 + d) as char
    } else {
        (87 + d) as char
    }
}

/// How a character is written in a JSON string: a quote, a backslash and the control characters
/// behind a backslash, every other one as itself.
pub open spec fn escaped(c: char) -> Seq<char> {
    let n = c as int;
    if n == 0x22 {
        seq!['\\', '"']
    } else if n == 0x5c {
        seq!['\\', '\\']
    } else if n == 0x8 {
        seq!['\\', 'b']
    } else if n == 0x9 {
        seq!['\\', 't']
    } else if n == 0xa {
        seq!['\\', 'n']
    } else if n == 0xc {
        seq!['\\', 'f']
    } else if n == 0xd {
        seq!['\\', 'r']
    } else if n < 0x20 {
        seq!['\\', 'u', '0', '0', hex_digit(n / 16), hex_digit(n % 16)]
    } else {
        seq![c]
    }
}

/// How a text is written between the quotes of a JSON string.
pub open spec fn all_escaped(s: Seq<char>) -> Seq<char>
    decreases s.len(),
{
    if s.len() == 0 {
        Seq::empty()
    } else {
        escaped(s[0]) + all_escaped(s.drop_first())
    }
}

/// The JSON string that stands for a text.
pub open spec fn json_string(s: Seq<char>) -> Seq<char> {
    seq!['"'] + all_escaped(s) + seq!['"']
}

/// The JSON text of an exit code.
pub open spec fn code_json(code: Option<i32>) -> Seq<char> {
    match code {
        Some(n) => signed_decimal(n as int),
        None => "null"@,
    }
}

/// One member of a JSON object: its name, and the JSON text of its value.
pub open spec fn member_json(m: (Seq<char>, Seq<char>)) -> Seq<char> {
    json_string(m.0) + ":"@ + m.1
}

/// The members of a JSON object, with commas between them.
pub open spec fn members_json(ms: Seq<(Seq<char>, Seq<char>)>) -> Seq<char>
    decreases ms.len(),
{
    if ms.len() == 0 {
        Seq::empty()
    } else if ms.len() == 1 {
        member_json(ms[0])
    } else {
        member_json(ms[0]) + ","@ + members_json(ms.drop_first())
    }
}

/// The JSON object with these members.
pub open spec fn object_json(ms: Seq<(Seq<char>, Seq<char>)>) -> Seq<char> {
    "{"@ + members_json(ms) + "}"@
}

/// The names of members, and the JSON texts of their values.
pub open spec fn member_texts(ms: Seq<(String, serde_json::Value)>) -> Seq<(Seq<char>, Seq<char>)> {
    ms.map_values(|m: (String, serde_json::Value)| (m.0@, value_json(m.1)))
}

/// The members of a JSON object, each on a line of its own. Their values are on one line each.
pub open spec fn members_pretty(ms: Seq<(Seq<char>, Seq<char>)>) -> Seq<char>
    decreases ms.len(),
{
    if ms.len() == 0 {
        Seq::empty()
    } else {
        let first = "  "@ + json_string(ms[0].0) + ": "@ + ms[0].1;
        if ms.len() == 1 {
            first
        } else {
            first + ",\n"@ + members_pretty(ms.drop_first())
        }
    }
}

/// The JSON object with these members, over several lines.
pub open spec fn object_pretty(ms: Seq<(Seq<char>, Seq<char>)>) -> Seq<char> {
    if ms.len() == 0 {
        "{}"@
    } else {
        "{\n"@ + members_pretty(ms) + "\n}"@
    }
}

/// The names of members, and the texts of their values over several lines.
pub open spec fn member_pretties(ms: Seq<(String, serde_json::Value)>) -> Seq<
    (Seq<char>, Seq<char>),
> {
    ms.map_values(|m: (String, serde_json::Value)| (m.0@, value_pretty(m.1)))
}

/// Whether the value of every member is on one line.
pub open spec fn members_on_one_line(ms: Seq<(String, serde_json::Value)>) -> bool {
    forall|i: int| 0 <= i < ms.len() ==> lacks(value_pretty((#[trigger] ms[i]).1), '\n')
}

/// Whether members stand in the order of their names, no name twice.
pub open spec fn names_ascend(ms: Seq<(String, serde_json::Value)>) -> bool {
    forall|i: int, j: int|
        0 <= i < j < ms.len() ==> text_less(#[trigger] ms[i].0@, #[trigger] ms[j].0@)
}

/// `serde_json::Value::from` on a text: the JSON string that stands for it, which is later written
/// with the escapes that JSON asks for and no others, in either form.
#[verifier::external_body]
pub(crate) fn text_value(s: &str) -> (r: serde_json::Value)
    ensures
        value_json(r) == json_string(s@),
        value_pretty(r) == json_string(s@),
{
    serde_json::Value::from(s)
}

/// `serde_json::Value::from` on an optional number: `null`, or the number in decimal.
#[verifier::external_body]
pub(crate) fn code_value(code: Option<i32>) -> (r: serde_json::Value)
    ensures
        value_json(r) == code_json(code),
{
    serde_json::Value::from(code)
}

/// `serde_json::Value::from_iter` on members: the object that has them. Members that stand in the
/// order of their names, no name twice, keep their order. How the form over several lines moves
/// members in that are themselves over several lines is left unsaid.
#[verifier::external_body]
pub(crate) fn object_value(members: Vec<(String, serde_json::Value)>) -> (r: serde_json::Value)
    requires
        names_ascend(members@),
    ensures
        value_json(r) == object_json(member_texts(members@)),
        members_on_one_line(members@) ==> value_pretty(r) == object_pretty(
            member_pretties(members@),
        ),
{
    serde_json::Value::from_iter(members)
}

/// `serde_json::Value::to_string`: the compact text of a value.
#[verifier::external_body]
pub(crate) fn value_text(value: &serde_json::Value) -> (r: String)
    ensures
        r@ == value_json(*value),
{
    value.to_string()
}

/// `serde_json::to_string_pretty` on a value: its text over several lines. It fails only where a
/// type decides to fail or has a map whose keys are not strings, and a JSON value does neither.
#[verifier::external_body]
pub(crate) fn value_pretty_text(value: &serde_json::Value) -> (r: String)
    ensures
        r@ == value_pretty(*value),
{
    serde_json::to_string_pretty(value).unwrap()
}

/// Different characters are written differently, and no way to write one begins another.
proof fn lemma_escaped_apart(a: char, x: Seq<char>, b: char, y: Seq<char>)
    requires
        escaped(a) + x == escaped(b) + y,
    ensures
        a == b,
        x == y,
{
    let (p, q) = (escaped(a) + x, escaped(b) + y);
    assert(p[0] == escaped(a)[0] && q[0] == escaped(b)[0]);
    assert(escaped(a).len() > 1 ==> p[1] == escaped(a)[1]);
    assert(escaped(b).len() > 1 ==> q[1] == escaped(b)[1]);
    assert(escaped(a).len() > 5 ==> p[4] == escaped(a)[4] && p[5] == escaped(a)[5]);
    assert(escaped(b).len() > 5 ==> q[4] == escaped(b)[4] && q[5] == escaped(b)[5]);
    assert(a as int == b as int);
    assert(p.skip(escaped(a).len() as int) =~= x);
    assert(q.skip(escaped(b).len() as int) =~= y);
}

proof fn lemma_quote_ends(a: Seq<char>, x: Seq<char>, b: Seq<char>, y: Seq<char>)
    requires
        all_escaped(a) + (seq!['"'] + x) == all_escaped(b) + (seq!['"'] + y),
    ensures
        a == b,
        x == y,
    decreases a.len(),
{
    let (u, v) = (seq!['"'] + x, seq!['"'] + y);
    let (p, q) = (all_escaped(a) + u, all_escaped(b) + v);
    if a.len() == 0 || b.len() == 0 {
        assert(a.len() > 0 ==> p[0] == escaped(a[0])[0] && p[0] != '"');
        assert(b.len() > 0 ==> q[0] == escaped(b[0])[0] && q[0] != '"');
        assert(a.len() == 0 ==> p[0] == '"');
        assert(b.len() == 0 ==> q[0] == '"');
        assert(a =~= b);
        assert(p.skip(1) =~= x);
        assert(q.skip(1) =~= y);
    } else {
        let (c, d) = (a.drop_first(), b.drop_first());
        assert(p =~= escaped(a[0]) + (all_escaped(c) + u));
        assert(q =~= escaped(b[0]) + (all_escaped(d) + v));
        lemma_escaped_apart(a[0], all_escaped(c) + u, b[0], all_escaped(d) + v);
        lemma_quote_ends(c, x, d, y);
        assert(a =~= seq![a[0]] + c);
        assert(b =~= seq![b[0]] + d);
    }
}

/// A JSON string shows where it ends, and determines the text it stands for.
pub proof fn json_string_shows_its_end(a: Seq<char>, x: Seq<char>, b: Seq<char>, y: Seq<char>)
    requires
        json_string(a) + x == json_string(b) + y,
    ensures
        a == b,
        x == y,
{
    let (p, q) = (json_string(a) + x, json_string(b) + y);
    assert(p.skip(1) =~= all_escaped(a) + (seq!['"'] + x));
    assert(q.skip(1) =~= all_escaped(b) + (seq!['"'] + y));
    lemma_quote_ends(a, x, b, y);
}

/// A JSON string determines the text it stands for.
pub proof fn json_string_is_faithful(a: Seq<char>, b: Seq<char>)
    requires
        json_string(a) == json_string(b),
    ensures
        a == b,
{
    json_string_shows_its_end(a, Seq::empty(), b, Seq::empty());
}

proof fn lemma_escaped_char_line(c: char)
    ensures
        lacks(escaped(c), '\n'),
{
    let n = c as int;
    if n < 0x20 {
        assert(hex_digit(n / 16) as int >= 48);
        assert(hex_digit(n % 16) as int >= 48);
    }
}

proof fn lemma_escaped_line(s: Seq<char>)
    ensures
        lacks(all_escaped(s), '\n'),
    decreases s.len(),
{
    if s.len() > 0 {
        let (first, rest) = (escaped(s[0]), all_escaped(s.drop_first()));
        lemma_escaped_line(s.drop_first());
        lemma_escaped_char_line(s[0]);
        assert forall|i: int| 0 <= i < (first + rest).len() implies #[trigger] (first + rest)[i]
            != '\n' by {
            if i >= first.len() {
                assert((first + rest)[i] == rest[i - first.len()]);
            }
        }
    }
}

/// A JSON string is on one line, whatever its text holds.
pub proof fn json_string_is_one_line(s: Seq<char>)
    ensures
        lacks(json_string(s), '\n'),
{
    lemma_escaped_line(s);
    let inner = all_escaped(s);
    assert forall|i: int| 0 <= i < json_string(s).len() implies #[trigger] json_string(s)[i]
        != '\n' by {
        if 1 <= i <= inner.len() {
            assert(json_string(s)[i] == inner[i - 1]);
        }
    }
}

} // verus!
