//! What JSON text says, for objects whose members are all strings; and that what [`crate::json`]
//! writes says what it was written for.

use crate::json::{all_escaped, escaped, hex_digit, json_string, members_json, members_pretty, object_json, object_pretty};
use vstd::prelude::*;

verus! {

/// Whether a character may stand between the parts of JSON text.
pub open spec fn is_json_space(c: char) -> bool {
    c == ' ' || c == '\t' || c == '\n' || c == '\r'
}

/// The text behind its leading space.
pub open spec fn after_space(s: Seq<char>) -> Seq<char>
    decreases s.len(),
{
    if s.len() > 0 && is_json_space(s[0]) {
        after_space(s.drop_first())
    } else {
        s
    }
}

/// The value of a hexadecimal digit, in either case.
pub open spec fn hex_value(c: char) -> Option<int> {
    let n = c as int;
    if 48 <= n <= 57 {
        Some(n - 48)
    } else if 97 <= n <= 102 {
        Some(n - 87)
    } else if 65 <= n <= 70 {
        Some(n - 55)
    } else {
        None
    }
}

/// The number that the four hexadecimal digits at the start of a text stand for.
pub open spec fn hex_unit(s: Seq<char>) -> Option<int> {
    if s.len() < 4 {
        None
    } else {
        match (hex_value(s[0]), hex_value(s[1]), hex_value(s[2]), hex_value(s[3])) {
            (Some(a), Some(b), Some(c), Some(d)) => Some(0x1000 * a + 0x100 * b + 0x10 * c + d),
            _ => None,
        }
    }
}

/// The character that a numeric escape stands for, and what follows it. The text begins behind the
/// `u`. A character beyond the sixteen bits of one escape takes two, the halves of a pair.
pub open spec fn read_unicode(s: Seq<char>) -> Option<(char, Seq<char>)> {
    match hex_unit(s) {
        None => None,
        Some(n) => if n < 0xd800 || n >= 0xe000 {
            Some((n as char, s.skip(4)))
        } else if n < 0xdc00 && s.len() >= 6 && s[4] == '\\' && s[5] == 'u' {
            match hex_unit(s.skip(6)) {
                Some(m) => if 0xdc00 <= m < 0xe000 {
                    Some(((0x10000 + 0x400 * (n - 0xd800) + (m - 0xdc00)) as char, s.skip(10)))
                } else {
                    None
                },
                None => None,
            }
        } else {
            None
        },
    }
}

/// The character that stands, as itself or escaped, at the start of the inside of a JSON string,
/// and what follows it.
pub open spec fn read_char(s: Seq<char>) -> Option<(char, Seq<char>)> {
    if s.len() == 0 || s[0] == '"' || (s[0] as int) < 0x20 {
        None
    } else if s[0] != '\\' {
        Some((s[0], s.skip(1)))
    } else if s.len() == 1 {
        None
    } else if s[1] == '"' || s[1] == '\\' || s[1] == '/' {
        Some((s[1], s.skip(2)))
    } else if s[1] == 'b' {
        Some((0x8 as char, s.skip(2)))
    } else if s[1] == 't' {
        Some(('\t', s.skip(2)))
    } else if s[1] == 'n' {
        Some(('\n', s.skip(2)))
    } else if s[1] == 'f' {
        Some((0xc as char, s.skip(2)))
    } else if s[1] == 'r' {
        Some(('\r', s.skip(2)))
    } else if s[1] == 'u' {
        read_unicode(s.skip(2))
    } else {
        None
    }
}

/// The text that the inside of a JSON string stands for, and what follows its closing quote.
pub open spec fn read_text(s: Seq<char>) -> Option<(Seq<char>, Seq<char>)>
    decreases s.len(),
{
    if s.len() > 0 && s[0] == '"' {
        Some((Seq::empty(), s.skip(1)))
    } else {
        match read_char(s) {
            Some((c, rest)) => match read_text(rest) {
                Some((text, end)) => Some((seq![c] + text, end)),
                None => None,
            },
            None => None,
        }
    }
}

/// The text that the JSON string at the start of a text stands for, and what follows it.
pub open spec fn read_string(s: Seq<char>) -> Option<(Seq<char>, Seq<char>)> {
    if s.len() > 0 && s[0] == '"' {
        read_text(s.skip(1))
    } else {
        None
    }
}

proof fn lemma_after_space_shrinks(s: Seq<char>)
    ensures
        after_space(s).len() <= s.len(),
    decreases s.len(),
{
    if s.len() > 0 && is_json_space(s[0]) {
        lemma_after_space_shrinks(s.drop_first());
    }
}

proof fn lemma_read_text_shrinks(s: Seq<char>)
    ensures
        read_text(s) matches Some((_, end)) ==> end.len() < s.len(),
    decreases s.len(),
{
    if !(s.len() > 0 && s[0] == '"') {
        match read_char(s) {
            Some((_, rest)) => {
                lemma_read_text_shrinks(rest);
            },
            None => {},
        }
    }
}

/// A member whose value is a string, and what follows it.
pub open spec fn read_member(s: Seq<char>) -> Option<((Seq<char>, Seq<char>), Seq<char>)> {
    match read_string(after_space(s)) {
        None => None,
        Some((name, rest)) => {
            let colon = after_space(rest);
            if colon.len() == 0 || colon[0] != ':' {
                None
            } else {
                match read_string(after_space(colon.skip(1))) {
                    None => None,
                    Some((value, end)) => Some(((name, value), after_space(end))),
                }
            }
        },
    }
}

/// What follows a member is shorter than the text that it was read from.
pub proof fn reading_a_member_uses_up_text(s: Seq<char>)
    ensures
        read_member(s) matches Some((_, end)) ==> end.len() < s.len(),
{
    let start = after_space(s);
    lemma_after_space_shrinks(s);
    if start.len() > 0 {
        lemma_read_text_shrinks(start.skip(1));
    }
    match read_string(start) {
        Some((_, rest)) => {
            let colon = after_space(rest);
            lemma_after_space_shrinks(rest);
            if colon.len() > 0 {
                let value = after_space(colon.skip(1));
                lemma_after_space_shrinks(colon.skip(1));
                if value.len() > 0 {
                    lemma_read_text_shrinks(value.skip(1));
                }
                match read_string(value) {
                    Some((_, end)) => {
                        lemma_after_space_shrinks(end);
                    },
                    None => {},
                }
            }
        },
        None => {},
    }
}

/// The members of an object from the first one on, where the text ends with the object.
pub open spec fn read_members(s: Seq<char>) -> Option<Seq<(Seq<char>, Seq<char>)>>
    decreases s.len(),
{
    proof {
        reading_a_member_uses_up_text(s);
    }
    match read_member(s) {
        None => None,
        Some((member, rest)) => if rest.len() == 0 {
            None
        } else if rest[0] == '}' && after_space(rest.skip(1)).len() == 0 {
            Some(seq![member])
        } else if rest[0] == ',' {
            match read_members(rest.skip(1)) {
                Some(more) => Some(seq![member] + more),
                None => None,
            }
        } else {
            None
        },
    }
}

/// The members that a text says, where it is a JSON object whose members are all strings.
pub open spec fn string_members(s: Seq<char>) -> Option<Seq<(Seq<char>, Seq<char>)>> {
    let start = after_space(s);
    if start.len() == 0 || start[0] != '{' {
        None
    } else {
        let first = after_space(start.skip(1));
        if first.len() > 0 && first[0] == '}' {
            if after_space(first.skip(1)).len() == 0 {
                Some(Seq::empty())
            } else {
                None
            }
        } else {
            read_members(start.skip(1))
        }
    }
}

/// The value of the member `name`, where there is exactly one.
pub open spec fn only_member(ms: Seq<(Seq<char>, Seq<char>)>, name: Seq<char>) -> Option<Seq<char>> {
    let found = ms.filter(|m: (Seq<char>, Seq<char>)| m.0 == name);
    if found.len() == 1 {
        Some(found[0].1)
    } else {
        None
    }
}

proof fn lemma_read_escaped(c: char, rest: Seq<char>)
    ensures
        read_char(escaped(c) + rest) == Some((c, rest)),
{
    let n = c as int;
    let e = escaped(c);
    let s = e + rest;
    assert(s.skip(e.len() as int) =~= rest);
    assert(s[0] == e[0]);
    if e.len() > 1 {
        assert(s[1] == e[1]);
    }
    if e.len() == 6 {
        let (a, b) = (n / 16, n % 16);
        assert(hex_value(hex_digit(a)) == Some(a));
        assert(hex_value(hex_digit(b)) == Some(b));
        let u = s.skip(2);
        assert(u[0] == '0' && u[1] == '0' && u[2] == hex_digit(a) && u[3] == hex_digit(b));
        assert(hex_unit(u) == Some(n));
        assert(u.skip(4) =~= rest);
    }
}

proof fn lemma_read_text(s: Seq<char>, rest: Seq<char>)
    ensures
        read_text(all_escaped(s) + (seq!['"'] + rest)) == Some((s, rest)),
    decreases s.len(),
{
    let end = seq!['"'] + rest;
    let t = all_escaped(s) + end;
    if s.len() == 0 {
        assert(t =~= end);
        assert(end.skip(1) =~= rest);
        assert(s =~= Seq::<char>::empty());
    } else {
        let more = all_escaped(s.drop_first()) + end;
        assert(t =~= escaped(s[0]) + more);
        lemma_read_escaped(s[0], more);
        lemma_read_text(s.drop_first(), rest);
        assert(s =~= seq![s[0]] + s.drop_first());
    }
}

/// Reading the JSON string that stands for a text gives the text back, whatever the text holds and
/// whatever follows the string.
pub proof fn json_string_reads_back(s: Seq<char>, rest: Seq<char>)
    ensures
        read_string(json_string(s) + rest) == Some((s, rest)),
{
    let t = json_string(s) + rest;
    assert(t.skip(1) =~= all_escaped(s) + (seq!['"'] + rest));
    lemma_read_text(s, rest);
}

proof fn lemma_after_space(w: Seq<char>, s: Seq<char>)
    requires
        forall|i: int| 0 <= i < w.len() ==> is_json_space(#[trigger] w[i]),
        s.len() > 0 ==> !is_json_space(s[0]),
    ensures
        after_space(w + s) == s,
    decreases w.len(),
{
    if w.len() == 0 {
        assert(w + s =~= s);
    } else {
        assert((w + s)[0] == w[0]);
        assert((w + s).drop_first() =~= w.drop_first() + s);
        lemma_after_space(w.drop_first(), s);
    }
}

/// The members of a row of names and texts, each text as a JSON string.
pub open spec fn quoted(es: Seq<(Seq<char>, Seq<char>)>) -> Seq<(Seq<char>, Seq<char>)> {
    es.map_values(|e: (Seq<char>, Seq<char>)| (e.0, json_string(e.1)))
}

proof fn lemma_read_member(
    w: Seq<char>,
    e: (Seq<char>, Seq<char>),
    gap: Seq<char>,
    z: Seq<char>,
)
    requires
        forall|i: int| 0 <= i < w.len() ==> is_json_space(#[trigger] w[i]),
        forall|i: int| 0 <= i < gap.len() ==> is_json_space(#[trigger] gap[i]),
    ensures
        read_member(
            w + (json_string(e.0) + (seq![':'] + (gap + (json_string(e.1) + z)))),
        ) == Some((e, after_space(z))),
{
    let value = json_string(e.1) + z;
    let colon = seq![':'] + (gap + value);
    let name = json_string(e.0) + colon;
    lemma_after_space(w, name);
    json_string_reads_back(e.0, colon);
    lemma_after_space(Seq::empty(), colon);
    assert(Seq::<char>::empty() + colon =~= colon);
    assert(colon.skip(1) =~= gap + value);
    lemma_after_space(gap, value);
    json_string_reads_back(e.1, z);
}

proof fn lemma_read_members(es: Seq<(Seq<char>, Seq<char>)>)
    requires
        es.len() > 0,
    ensures
        read_members(seq!['\n'] + members_pretty(quoted(es)) + seq!['\n', '}']) == Some(es),
    decreases es.len(),
{
    reveal_strlit("  ");
    reveal_strlit(": ");
    reveal_strlit(",\n");
    let ps = quoted(es);
    let (w, end) = (seq!['\n', ' ', ' '], seq!['\n', '}']);
    let s = seq!['\n'] + members_pretty(ps) + end;
    let e = es[0];
    assert("  "@ =~= seq![' ', ' ']);
    assert(": "@ =~= seq![':', ' ']);
    assert(",\n"@ =~= seq![',', '\n']);
    assert(ps[0] == (e.0, json_string(e.1)));
    if es.len() == 1 {
        assert(s =~= w + (json_string(e.0) + (seq![':'] + (seq![' '] + (json_string(e.1) + end)))));
        lemma_read_member(w, e, seq![' '], end);
        lemma_after_space(seq!['\n'], seq!['}']);
        assert(seq!['\n'] + seq!['}'] =~= end);
        assert(seq!['}'].skip(1) =~= Seq::<char>::empty());
        assert(es =~= seq![e]);
    } else {
        let rest = es.drop_first();
        assert(ps.drop_first() =~= quoted(rest));
        let more = seq!['\n'] + members_pretty(quoted(rest)) + end;
        let z = seq![','] + more;
        assert(s =~= w + (json_string(e.0) + (seq![':'] + (seq![' '] + (json_string(e.1) + z)))));
        lemma_read_member(w, e, seq![' '], z);
        lemma_after_space(Seq::empty(), z);
        assert(Seq::<char>::empty() + z =~= z);
        assert(z.skip(1) =~= more);
        lemma_read_members(rest);
        assert(es =~= seq![e] + rest);
    }
}

/// Reading an object of strings that was written over several lines gives its members back, in
/// order.
pub proof fn object_of_strings_reads_back(es: Seq<(Seq<char>, Seq<char>)>)
    ensures
        string_members(object_pretty(quoted(es))) == Some(es),
{
    reveal_strlit("{}");
    reveal_strlit("{\n");
    reveal_strlit("\n}");
    reveal_strlit("  ");
    let s = object_pretty(quoted(es));
    lemma_after_space(Seq::empty(), s);
    assert(Seq::<char>::empty() + s =~= s);
    if es.len() == 0 {
        assert(s.skip(1) =~= seq!['}']);
        lemma_after_space(Seq::empty(), s.skip(1));
        assert(Seq::<char>::empty() + s.skip(1) =~= s.skip(1));
        assert(s.skip(1).skip(1) =~= Seq::<char>::empty());
        assert(es =~= Seq::<(Seq<char>, Seq<char>)>::empty());
    } else {
        let inside = seq!['\n'] + members_pretty(quoted(es)) + seq!['\n', '}'];
        assert("{\n"@ =~= seq!['{', '\n']);
        assert("\n}"@ =~= seq!['\n', '}']);
        assert(s.skip(1) =~= inside);
        let w = seq!['\n', ' ', ' '];
        assert(quoted(es)[0].0 == es[0].0);
        assert(inside[3] == '"');
        assert(inside =~= w + inside.skip(3));
        lemma_after_space(w, inside.skip(3));
        lemma_read_members(es);
    }
}

proof fn lemma_read_members_compact(es: Seq<(Seq<char>, Seq<char>)>)
    requires
        es.len() > 0,
    ensures
        read_members(members_json(quoted(es)) + seq!['}']) == Some(es),
    decreases es.len(),
{
    reveal_strlit(":");
    reveal_strlit(",");
    let ps = quoted(es);
    let none = Seq::<char>::empty();
    let s = members_json(ps) + seq!['}'];
    let e = es[0];
    assert(":"@ =~= seq![':']);
    assert(","@ =~= seq![',']);
    assert(ps[0] == (e.0, json_string(e.1)));
    if es.len() == 1 {
        let z = seq!['}'];
        assert(s =~= none + (json_string(e.0) + (seq![':'] + (none + (json_string(e.1) + z)))));
        lemma_read_member(none, e, none, z);
        lemma_after_space(none, z);
        assert(none + z =~= z);
        assert(z.skip(1) =~= none);
        assert(es =~= seq![e]);
    } else {
        let rest = es.drop_first();
        assert(ps.drop_first() =~= quoted(rest));
        let more = members_json(quoted(rest)) + seq!['}'];
        let z = seq![','] + more;
        assert(s =~= none + (json_string(e.0) + (seq![':'] + (none + (json_string(e.1) + z)))));
        lemma_read_member(none, e, none, z);
        lemma_after_space(none, z);
        assert(none + z =~= z);
        assert(z.skip(1) =~= more);
        lemma_read_members_compact(rest);
        assert(es =~= seq![e] + rest);
    }
}

/// Reading an object of strings that was written on one line gives its members back, in order.
pub proof fn compact_object_of_strings_reads_back(es: Seq<(Seq<char>, Seq<char>)>)
    ensures
        string_members(object_json(quoted(es))) == Some(es),
{
    reveal_strlit("{");
    reveal_strlit("}");
    let none = Seq::<char>::empty();
    let s = object_json(quoted(es));
    lemma_after_space(none, s);
    assert(none + s =~= s);
    let inside = members_json(quoted(es)) + seq!['}'];
    assert("}"@ =~= seq!['}']);
    assert(s.skip(1) =~= inside);
    if es.len() == 0 {
        assert(inside =~= seq!['}']);
        lemma_after_space(none, inside);
        assert(none + inside =~= inside);
        assert(inside.skip(1) =~= none);
        assert(es =~= Seq::<(Seq<char>, Seq<char>)>::empty());
    } else {
        assert(quoted(es)[0].0 == es[0].0);
        assert(inside[0] == '"');
        lemma_after_space(none, inside);
        assert(none + inside =~= inside);
        lemma_read_members_compact(es);
    }
}

} // verus!
