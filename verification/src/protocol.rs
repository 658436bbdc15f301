//! The messages between the agent and its backend.

use crate::json::{all_escaped, code_json, code_value, json_string, json_string_is_faithful, member_texts, members_json, object_json, object_value, text_value, value_json, value_text};
use crate::json_reading::{compact_object_of_strings_reads_back, json_string_reads_back, quoted, read_string, string_members};
use crate::numbers::{i32_of, signed_numeral_round_trip};
use crate::properties::{pair_texts, ServerProperties};
use crate::text::text_less;
use vstd::prelude::*;

verus! {

/// What the backend asks of the agent.
pub enum BackendMessage {
    StartServer { jar_path: String },
    StopServer,
    Command { command: String },
    InstallServer { url: String, filename: String, server_type: String, version: String },
    InstallMod { url: String, filename: String },
    UpdateConfig { ram_mb: String },
    ReadProperties,
    WriteProperties { properties: ServerProperties },
}

/// A message of the kind `kind` with a payload.
pub open spec fn message_json(kind: Seq<char>, payload: Seq<char>) -> Seq<char> {
    object_json(seq![("payload"@, payload), ("type"@, json_string(kind))])
}

/// The message for a line of the log.
pub open spec fn log_json(line: Seq<char>) -> Seq<char> {
    message_json("LOG"@, object_json(seq![("line"@, json_string(line))]))
}

/// The message for the end of a server.
pub open spec fn exit_json(code: Option<i32>) -> Seq<char> {
    message_json("SERVER_EXIT"@, object_json(seq![("code"@, code_json(code))]))
}

/// The message for the settings of a server.
pub open spec fn properties_json(pairs: Seq<(Seq<char>, Seq<char>)>) -> Seq<char> {
    message_json(
        "PROPERTIES"@,
        object_json(
            pairs.map_values(|e: (Seq<char>, Seq<char>)| (e.0, json_string(e.1))),
        ),
    )
}

/// Composes a message.
fn message(kind: &str, payload: serde_json::Value) -> (r: String)
    ensures
        r@ == message_json(kind@, value_json(payload)),
{
    let mut members: Vec<(String, serde_json::Value)> = Vec::new();
    let tag: serde_json::Value = text_value(kind);
    let ghost payload_json = value_json(payload);
    members.push(("payload".to_owned(), payload));
    members.push(("type".to_owned(), tag));
    proof {
        reveal_strlit("payload");
        reveal_strlit("type");
        assert(text_less("payload"@, "type"@));
        assert(member_texts(members@) =~= seq![
            ("payload"@, payload_json),
            ("type"@, json_string(kind@)),
        ]);
    }
    let whole: serde_json::Value = object_value(members);
    value_text(&whole)
}

/// The message for a line of the log.
pub fn log_message(line: &str) -> (r: String)
    ensures
        r@ == log_json(line@),
{
    let mut members: Vec<(String, serde_json::Value)> = Vec::new();
    members.push(("line".to_owned(), text_value(line)));
    assert(member_texts(members@) =~= seq![("line"@, json_string(line@))]);
    let payload: serde_json::Value = object_value(members);
    message("LOG", payload)
}

/// The message for the end of a server.
pub fn exit_message(code: Option<i32>) -> (r: String)
    ensures
        r@ == exit_json(code),
{
    let mut members: Vec<(String, serde_json::Value)> = Vec::new();
    members.push(("code".to_owned(), code_value(code)));
    assert(member_texts(members@) =~= seq![("code"@, code_json(code))]);
    let payload: serde_json::Value = object_value(members);
    message("SERVER_EXIT", payload)
}

/// The message for the settings of a server.
pub fn properties_message(props: &ServerProperties) -> (r: String)
    requires
        props.wf(),
    ensures
        r@ == properties_json(props.pairs()),
{
    let entries: &Vec<(String, String)> = props.entries();
    let ghost pairs = props.pairs();
    let mut members: Vec<(String, serde_json::Value)> = Vec::new();
    let mut i: usize = 0;
    while i < entries.len()
        invariant
            pairs == props.pairs(),
            pairs == pair_texts(entries@),
            i <= entries@.len(),
            members@.len() == i,
            forall|j: int| #![trigger members@[j]]
                0 <= j < i ==> members@[j].0@ == pairs[j].0 && value_json(members@[j].1)
                    == json_string(pairs[j].1),
        decreases entries@.len() - i,
    {
        members.push((entries[i].0.clone(), text_value(entries[i].1.as_str())));
        i = i + 1;
    }
    proof {
        assert forall|a: int, b: int| 0 <= a < b < members@.len() implies text_less(
            #[trigger] members@[a].0@,
            #[trigger] members@[b].0@,
        ) by {
            assert(text_less(pairs[a].0, pairs[b].0));
        }
        assert(member_texts(members@) =~= pairs.map_values(
            |e: (Seq<char>, Seq<char>)| (e.0, json_string(e.1)),
        ));
    }
    let payload: serde_json::Value = object_value(members);
    message("PROPERTIES", payload)
}

/// The message for a line of the log determines the line.
pub proof fn log_message_is_faithful(a: Seq<char>, b: Seq<char>)
    requires
        log_json(a) == log_json(b),
    ensures
        a == b,
{
    let (p, q) = (log_json(a), log_json(b));
    let head = "{"@ + (json_string("payload"@) + ":"@ + ("{"@ + (json_string("line"@) + ":"@)));
    let tail = "}"@ + ","@ + (json_string("type"@) + ":"@ + json_string("LOG"@)) + "}"@;
    lemma_log_shape(a);
    lemma_log_shape(b);
    assert(p =~= head + json_string(a) + tail);
    assert(q =~= head + json_string(b) + tail);
    let (m, n) = (head.len() as int, tail.len() as int);
    assert(p.subrange(m, p.len() - n) =~= json_string(a));
    assert(q.subrange(m, q.len() - n) =~= json_string(b));
    json_string_is_faithful(a, b);
}

proof fn lemma_log_shape(line: Seq<char>)
    ensures
        log_json(line) == "{"@ + (json_string("payload"@) + ":"@ + ("{"@ + (json_string("line"@)
            + ":"@ + json_string(line)) + "}"@) + ","@ + (json_string("type"@) + ":"@ + json_string(
            "LOG"@,
        ))) + "}"@,
{
    reveal_with_fuel(members_json, 3);
    let inner = seq![("line"@, json_string(line))];
    let outer = seq![("payload"@, object_json(inner)), ("type"@, json_string("LOG"@))];
    assert(outer.drop_first() =~= seq![("type"@, json_string("LOG"@))]);
}

/// Whether a text needs no escapes in JSON.
spec fn plain(s: Seq<char>) -> bool {
    forall|i: int|
        0 <= i < s.len() ==> (#[trigger] s[i]) as int >= 0x20 && s[i] != '"' && s[i] != '\\'
}

proof fn lemma_plain(s: Seq<char>)
    requires
        plain(s),
    ensures
        json_string(s) == seq!['"'] + s + seq!['"'],
        all_escaped(s) == s,
    decreases s.len(),
{
    if s.len() > 0 {
        let rest = s.drop_first();
        assert(plain(rest)) by {
            assert forall|i: int| 0 <= i < rest.len() implies (#[trigger] rest[i]) as int >= 0x20
                && rest[i] != '"' && rest[i] != '\\' by {
                assert(rest[i] == s[i + 1]);
            }
        }
        lemma_plain(rest);
        assert(s[0] as int >= 0x20);
        assert(s =~= seq![s[0]] + rest);
    } else {
        assert(s =~= Seq::<char>::empty());
    }
}

/// The text of a message: its payload and its kind, both whole.
proof fn lemma_message_shape(kind: Seq<char>, payload: Seq<char>)
    requires
        plain(kind),
    ensures
        message_json(kind, payload) == "{\"payload\":"@ + payload + (",\"type\":\""@ + kind + "\"}"@),
{
    reveal_strlit("{");
    reveal_strlit("}");
    reveal_strlit(":");
    reveal_strlit(",");
    reveal_strlit("payload");
    reveal_strlit("type");
    reveal_strlit("{\"payload\":");
    reveal_strlit(",\"type\":\"");
    reveal_strlit("\"}");
    lemma_plain("payload"@);
    lemma_plain("type"@);
    lemma_plain(kind);
    reveal_with_fuel(members_json, 3);
    let outer = seq![("payload"@, payload), ("type"@, json_string(kind))];
    assert(outer.drop_first() =~= seq![("type"@, json_string(kind))]);
    assert(message_json(kind, payload) =~= "{\"payload\":"@ + payload + (",\"type\":\""@ + kind
        + "\"}"@));
}

proof fn lemma_single_member(name: Seq<char>, value: Seq<char>)
    requires
        plain(name),
    ensures
        object_json(seq![(name, value)]) == "{\""@ + name + ("\":"@ + value + "}"@),
{
    reveal_strlit("{");
    reveal_strlit("}");
    reveal_strlit(":");
    reveal_strlit("{\"");
    reveal_strlit("\":");
    lemma_plain(name);
    assert(object_json(seq![(name, value)]) =~= "{\""@ + name + ("\":"@ + value + "}"@));
}

proof fn lemma_log_text(line: Seq<char>, inner: Seq<char>)
    requires
        inner == json_string(line),
    ensures
        log_json(line) == "{\"payload\":{\"line\":"@ + inner + "},\"type\":\"LOG\"}"@,
{
    reveal_strlit("{\"payload\":{\"line\":");
    reveal_strlit("},\"type\":\"LOG\"}");
    reveal_strlit("LOG");
    reveal_strlit("line");
    reveal_strlit("{\"payload\":");
    reveal_strlit(",\"type\":\"");
    reveal_strlit("\"}");
    reveal_strlit("{\"");
    reveal_strlit("\":");
    reveal_strlit("}");
    lemma_message_shape("LOG"@, object_json(seq![("line"@, inner)]));
    lemma_single_member("line"@, inner);
    assert(log_json(line) =~= "{\"payload\":{\"line\":"@ + inner + "},\"type\":\"LOG\"}"@);
}

/// A message for a line of the log is of the kind `LOG`, and the line in its payload reads back as
/// the very line, whatever characters it holds.
pub proof fn log_message_says_its_line(line: Seq<char>)
    ensures
        ({
            let head = "{\"payload\":{\"line\":"@;
            let tail = "},\"type\":\"LOG\"}"@;
            &&& log_json(line).len() >= head.len()
            &&& log_json(line).take(head.len() as int) == head
            &&& read_string(log_json(line).skip(head.len() as int)) == Some((line, tail))
        }),
{
    let head = "{\"payload\":{\"line\":"@;
    let tail = "},\"type\":\"LOG\"}"@;
    let inner = json_string(line);
    lemma_log_text(line, inner);
    assert(log_json(line).take(head.len() as int) =~= head);
    assert(log_json(line).skip(head.len() as int) =~= inner + tail);
    json_string_reads_back(line, tail);
}

/// A message for the end of a server is of the kind `SERVER_EXIT`, and the code in its payload is
/// the numeral of the very exit code, or `null` where there is none.
pub proof fn exit_message_says_its_code(code: Option<i32>)
    ensures
        ({
            let head = "{\"payload\":{\"code\":"@;
            let tail = "},\"type\":\"SERVER_EXIT\"}"@;
            let n = exit_json(code).len() - tail.len();
            &&& head.len() <= n
            &&& exit_json(code).take(head.len() as int) == head
            &&& exit_json(code).skip(n) == tail
            &&& match code {
                Some(c) => {
                    let numeral = exit_json(code).subrange(head.len() as int, n);
                    &&& i32_of(numeral) == Some(c)
                    &&& numeral.len() > 0
                    &&& numeral[0] == '-' <==> c < 0
                    &&& numeral[0] != '+'
                    &&& c > 0 ==> numeral[0] != '0'
                    &&& c == 0 ==> numeral == seq!['0']
                    &&& c < 0 ==> numeral.len() > 1 && numeral[1] != '0'
                },
                None => exit_json(code).subrange(head.len() as int, n) == "null"@,
            }
        }),
{
    let head = "{\"payload\":{\"code\":"@;
    let tail = "},\"type\":\"SERVER_EXIT\"}"@;
    reveal_strlit("{\"payload\":{\"code\":");
    reveal_strlit("},\"type\":\"SERVER_EXIT\"}");
    reveal_strlit("SERVER_EXIT");
    reveal_strlit("code");
    reveal_strlit("{\"payload\":");
    reveal_strlit(",\"type\":\"");
    reveal_strlit("\"}");
    reveal_strlit("{\"");
    reveal_strlit("\":");
    reveal_strlit("}");
    let middle = code_json(code);
    lemma_message_shape("SERVER_EXIT"@, object_json(seq![("code"@, middle)]));
    lemma_single_member("code"@, middle);
    let s = exit_json(code);
    assert(s =~= head + middle + tail);
    let n = s.len() - tail.len();
    assert(s.take(head.len() as int) =~= head);
    assert(s.skip(n) =~= tail);
    assert(s.subrange(head.len() as int, n) =~= middle);
    match code {
        Some(c) => {
            signed_numeral_round_trip(c);
        },
        None => {},
    }
}

/// The message for the end of a server determines its exit code.
pub proof fn exit_message_is_faithful(a: Option<i32>, b: Option<i32>)
    requires
        exit_json(a) == exit_json(b),
    ensures
        a == b,
{
    exit_message_says_its_code(a);
    exit_message_says_its_code(b);
    reveal_strlit("null");
    assert(i32_of("null"@) is None) by {
        assert("null"@[0] == 'n');
        crate::numbers::signed_numbers_of_thirty_two_bits("null"@);
    }
}

/// A message for the settings of a server is of the kind `PROPERTIES`, and its payload reads back as
/// the very settings, in order.
pub proof fn properties_message_says_its_settings(pairs: Seq<(Seq<char>, Seq<char>)>)
    ensures
        ({
            let head = "{\"payload\":"@;
            let tail = ",\"type\":\"PROPERTIES\"}"@;
            let n = properties_json(pairs).len() - tail.len();
            &&& head.len() <= n
            &&& properties_json(pairs).take(head.len() as int) == head
            &&& properties_json(pairs).skip(n) == tail
            &&& string_members(properties_json(pairs).subrange(head.len() as int, n)) == Some(pairs)
        }),
{
    let head = "{\"payload\":"@;
    let tail = ",\"type\":\"PROPERTIES\"}"@;
    reveal_strlit("PROPERTIES");
    reveal_strlit("{\"payload\":");
    reveal_strlit(",\"type\":\"");
    reveal_strlit("\"}");
    reveal_strlit(",\"type\":\"PROPERTIES\"}");
    let payload = object_json(quoted(pairs));
    lemma_message_shape("PROPERTIES"@, payload);
    assert(pairs.map_values(|e: (Seq<char>, Seq<char>)| (e.0, json_string(e.1))) =~= quoted(pairs));
    let s = properties_json(pairs);
    assert(s =~= head + payload + tail);
    let n = s.len() - tail.len();
    assert(s.take(head.len() as int) =~= head);
    assert(s.skip(n) =~= tail);
    assert(s.subrange(head.len() as int, n) =~= payload);
    compact_object_of_strings_reads_back(pairs);
}

} // verus!
