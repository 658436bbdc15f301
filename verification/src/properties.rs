//! The `server.properties` file: a mapping from names to values, one `name=value` line for each.

use crate::paths::FileWrite;
use crate::text::{blank, chars_of, find_from, is_white, padding_is_trimmed, solid_ends, lacks, piece, position_after_prefix, position_is_first, position_of, trim, trimmed, trimmed_is_stable, trimmed_lacks, comes_before, opt_text, same_text, text_less, text_less_irreflexive, text_less_total, text_less_transitive};
use vstd::prelude::*;

verus! {

/// Whether some entry has the name `k`.
pub open spec fn has_name(es: Seq<(Seq<char>, Seq<char>)>, k: Seq<char>) -> bool {
    exists|i: int| 0 <= i < es.len() && (#[trigger] es[i]).0 == k
}

/// The value of an entry with the name `k`.
pub open spec fn value_for(es: Seq<(Seq<char>, Seq<char>)>, k: Seq<char>) -> Seq<char> {
    es[choose|i: int| 0 <= i < es.len() && (#[trigger] es[i]).0 == k].1
}

/// The mapping that a row of entries stands for.
pub open spec fn mapping_of(es: Seq<(Seq<char>, Seq<char>)>) -> Map<Seq<char>, Seq<char>> {
    Map::new(|k: Seq<char>| has_name(es, k), |k: Seq<char>| value_for(es, k))
}

/// Whether the entries stand in the order of their names, no name twice.
pub open spec fn ascending(es: Seq<(Seq<char>, Seq<char>)>) -> bool {
    forall|i: int, j: int| 0 <= i < j < es.len() ==> text_less(#[trigger] es[i].0, #[trigger] es[j].0)
}

/// The views of a row of string pairs.
pub open spec fn pair_texts(v: Seq<(String, String)>) -> Seq<(Seq<char>, Seq<char>)> {
    v.map_values(|e: (String, String)| (e.0@, e.1@))
}

/// The settings of a Minecraft server, by name.
pub struct ServerProperties {
    entries: Vec<(String, String)>,
}

impl View for ServerProperties {
    type V = Map<Seq<char>, Seq<char>>;

    open spec fn view(&self) -> Map<Seq<char>, Seq<char>> {
        mapping_of(self.pairs())
    }
}

proof fn lemma_ascending_value(es: Seq<(Seq<char>, Seq<char>)>, i: int)
    requires
        ascending(es),
        0 <= i < es.len(),
    ensures
        mapping_of(es).contains_key(es[i].0),
        mapping_of(es)[es[i].0] == es[i].1,
{
    let k = es[i].0;
    assert(has_name(es, k));
    let j = choose|j: int| 0 <= j < es.len() && (#[trigger] es[j]).0 == k;
    text_less_irreflexive(k);
    if i < j {
        assert(text_less(es[i].0, es[j].0));
    } else if j < i {
        assert(text_less(es[j].0, es[i].0));
    }
}

proof fn lemma_insert_entry(
    es: Seq<(Seq<char>, Seq<char>)>,
    at: int,
    k: Seq<char>,
    v: Seq<char>,
)
    requires
        ascending(es),
        0 <= at <= es.len(),
        at > 0 ==> text_less(es[at - 1].0, k),
        at < es.len() ==> text_less(k, es[at].0),
    ensures
        ascending(es.insert(at, (k, v))),
        mapping_of(es.insert(at, (k, v))) == mapping_of(es).insert(k, v),
{
    let after = es.insert(at, (k, v));
    assert forall|i: int, j: int| 0 <= i < j < after.len() implies text_less(
        #[trigger] after[i].0,
        #[trigger] after[j].0,
    ) by {
        if j < at {
            assert(text_less(es[i].0, es[j].0));
        } else if j == at {
            if i < at - 1 {
                assert(text_less(es[i].0, es[at - 1].0));
                text_less_transitive(es[i].0, es[at - 1].0, k);
            }
        } else if i == at {
            if j - 1 > at {
                assert(text_less(es[at].0, es[j - 1].0));
                text_less_transitive(k, es[at].0, es[j - 1].0);
            }
        } else if i < at {
            assert(text_less(es[i].0, es[j - 1].0));
        } else {
            assert(text_less(es[i - 1].0, es[j - 1].0));
        }
    }
    let a = mapping_of(after);
    let b = mapping_of(es).insert(k, v);
    assert forall|n: Seq<char>| a.contains_key(n) == b.contains_key(n) by {
        if a.contains_key(n) {
            let i = choose|i: int| 0 <= i < after.len() && (#[trigger] after[i]).0 == n;
            if i < at {
                assert(es[i].0 == n);
            } else if i > at {
                assert(es[i - 1].0 == n);
            }
        }
        if b.contains_key(n) {
            if n == k {
                assert(after[at].0 == n);
            } else {
                let i = choose|i: int| 0 <= i < es.len() && (#[trigger] es[i]).0 == n;
                if i < at {
                    assert(after[i].0 == n);
                } else {
                    assert(after[i + 1].0 == n);
                }
            }
        }
    }
    assert forall|n: Seq<char>| a.contains_key(n) implies a[n] == b[n] by {
        let i = choose|i: int| 0 <= i < after.len() && (#[trigger] after[i]).0 == n;
        lemma_ascending_value(after, i);
        if i == at {
        } else {
            text_less_irreflexive(k);
            if i < at {
                assert(text_less(after[i].0, after[at].0));
                assert(es[i] == after[i]);
                lemma_ascending_value(es, i);
            } else {
                assert(text_less(after[at].0, after[i].0));
                assert(es[i - 1] == after[i]);
                lemma_ascending_value(es, i - 1);
            }
        }
    }
    assert(a =~= b);
}

proof fn lemma_replace_entry(
    es: Seq<(Seq<char>, Seq<char>)>,
    at: int,
    v: Seq<char>,
)
    requires
        ascending(es),
        0 <= at < es.len(),
    ensures
        ascending(es.update(at, (es[at].0, v))),
        mapping_of(es.update(at, (es[at].0, v))) == mapping_of(es).insert(es[at].0, v),
{
    let k = es[at].0;
    let after = es.update(at, (k, v));
    assert forall|i: int, j: int| 0 <= i < j < after.len() implies text_less(
        #[trigger] after[i].0,
        #[trigger] after[j].0,
    ) by {
        assert(text_less(es[i].0, es[j].0));
    }
    let a = mapping_of(after);
    let b = mapping_of(es).insert(k, v);
    assert forall|n: Seq<char>| a.contains_key(n) == b.contains_key(n) by {
        if a.contains_key(n) {
            let i = choose|i: int| 0 <= i < after.len() && (#[trigger] after[i]).0 == n;
            assert(es[i].0 == n);
        }
        if b.contains_key(n) {
            if n == k {
                assert(after[at].0 == n);
            } else {
                let i = choose|i: int| 0 <= i < es.len() && (#[trigger] es[i]).0 == n;
                assert(after[i].0 == n);
            }
        }
    }
    assert forall|n: Seq<char>| a.contains_key(n) implies a[n] == b[n] by {
        let i = choose|i: int| 0 <= i < after.len() && (#[trigger] after[i]).0 == n;
        lemma_ascending_value(after, i);
        lemma_ascending_value(es, i);
        if i != at {
            text_less_irreflexive(k);
            if i < at {
                assert(text_less(es[i].0, es[at].0));
            } else {
                assert(text_less(es[at].0, es[i].0));
            }
        }
    }
    assert(a =~= b);
}

impl ServerProperties {
    /// The entries, in the order of their names.
    pub closed spec fn pairs(&self) -> Seq<(Seq<char>, Seq<char>)> {
        pair_texts(self.entries@)
    }

    /// The invariant: the entries are sorted by name and no name occurs twice.
    pub open spec fn wf(&self) -> bool {
        ascending(self.pairs())
    }

    /// No settings at all.
    pub fn new() -> (r: Self)
        ensures
            r.wf(),
            r@ == Map::<Seq<char>, Seq<char>>::empty(),
    {
        let r = ServerProperties { entries: Vec::new() };
        assert(r@ =~= Map::<Seq<char>, Seq<char>>::empty());
        r
    }

    /// The position of the first entry whose name does not come before `key`.
    fn position(&self, key: &str) -> (at: usize)
        requires
            self.wf(),
        ensures
            at <= self.pairs().len(),
            at > 0 ==> text_less(self.pairs()[at - 1].0, key@),
            at < self.pairs().len() ==> !text_less(self.pairs()[at as int].0, key@),
    {
        let mut at: usize = 0;
        while at < self.entries.len() && comes_before(self.entries[at].0.as_str(), key)
            invariant
                at <= self.entries@.len(),
                at > 0 ==> text_less(self.pairs()[at - 1].0, key@),
            decreases self.entries@.len() - at,
        {
            at = at + 1;
        }
        at
    }

    /// Gives the setting `key` the value `value`, whether or not it had one.
    pub fn insert(&mut self, key: String, value: String)
        requires
            old(self).wf(),
        ensures
            final(self).wf(),
            final(self)@ == old(self)@.insert(key@, value@),
    {
        let ghost before = self.pairs();
        let ghost (k, v) = (key@, value@);
        let at: usize = self.position(key.as_str());
        if at < self.entries.len() && same_text(self.entries[at].0.as_str(), key.as_str()) {
            self.entries[at] = (key, value);
            proof {
                assert(self.pairs() =~= before.update(at as int, (before[at as int].0, v)));
                lemma_replace_entry(before, at as int, v);
            }
        } else {
            self.entries.insert(at, (key, value));
            proof {
                if at < before.len() {
                    text_less_total(before[at as int].0, k);
                }
                assert(self.pairs() =~= before.insert(at as int, (k, v)));
                lemma_insert_entry(before, at as int, k, v);
            }
        }
    }

    /// The value of the setting `key`.
    pub fn get(&self, key: &str) -> (r: Option<String>)
        requires
            self.wf(),
        ensures
            opt_text(r) == (if self@.contains_key(key@) {
                Some(self@[key@])
            } else {
                None
            }),
    {
        let mut i: usize = 0;
        while i < self.entries.len()
            invariant
                self.wf(),
                i <= self.entries@.len(),
                forall|j: int| 0 <= j < i ==> (#[trigger] self.pairs()[j]).0 != key@,
            decreases self.entries@.len() - i,
        {
            assert(self.pairs()[i as int] == (self.entries@[i as int].0@, self.entries@[i as int].1@));
            if same_text(self.entries[i].0.as_str(), key) {
                proof {
                    lemma_ascending_value(self.pairs(), i as int);
                }
                return Some(self.entries[i].1.clone());
            }
            i = i + 1;
        }
        None
    }

    /// The entries, in the order of their names.
    pub fn entries(&self) -> (r: &Vec<(String, String)>)
        ensures
            pair_texts(r@) == self.pairs(),
    {
        &self.entries
    }
}

/// The settings of a server that nobody has configured yet.
pub const DEFAULT_PROPERTIES: &'static str = "#Minecraft server properties
#Thu Jan 01 00:00:00 UTC 2026
spawn-protection=16
max-tick-time=60000
query.port=25565
generator-settings=
force-gamemode=false
allow-nether=true
enforce-whitelist=false
gamemode=survival
broadcast-console-to-ops=true
enable-query=false
player-idle-timeout=0
difficulty=easy
spawn-monsters=true
op-permission-level=4
pvp=true
snooper-enabled=true
level-type=default
hardcore=false
enable-command-block=false
max-players=20
network-compression-threshold=256
resource-pack-sha1=
max-world-size=29999984
server-port=25565
server-ip=
spawn-npcs=true
allow-flight=false
level-name=world
view-distance=10
resource-pack=
spawn-animals=true
white-list=false
generate-structures=true
online-mode=true
max-build-height=256
level-seed=
prevent-proxy-connections=false
use-native-transport=true
motd=A Minecraft Server
enable-rcon=false
";

/// The setting that a line states: what stands before and after its first `=`, both trimmed.
pub open spec fn setting_in(line: Seq<char>) -> Option<(Seq<char>, Seq<char>)> {
    let n = position_of(line, '=') as int;
    if n < line.len() {
        Some((trimmed(line.take(n)), trimmed(line.skip(n + 1))))
    } else {
        None
    }
}

/// The mapping after a line was read: a line that states no setting changes nothing.
pub open spec fn with_line(m: Map<Seq<char>, Seq<char>>, line: Seq<char>) -> Map<
    Seq<char>,
    Seq<char>,
> {
    match setting_in(line) {
        Some((k, v)) => m.insert(k, v),
        None => m,
    }
}

/// The mapping after the lines of a text were read, each over what the lines before it said. A
/// carriage return at the end of a line is white space and goes with it.
pub open spec fn settings_after(m: Map<Seq<char>, Seq<char>>, s: Seq<char>) -> Map<
    Seq<char>,
    Seq<char>,
>
    decreases s.len(),
{
    let n = position_of(s, '\n') as int;
    if n < s.len() {
        settings_after(with_line(m, s.take(n)), s.skip(n + 1))
    } else {
        with_line(m, s)
    }
}

/// The mapping that a properties file stands for.
pub open spec fn settings_in(s: Seq<char>) -> Map<Seq<char>, Seq<char>> {
    settings_after(Map::empty(), s)
}

/// The line of one setting.
pub open spec fn setting_line(e: (Seq<char>, Seq<char>)) -> Seq<char> {
    e.0 + seq!['='] + e.1 + seq!['\n']
}

/// The lines of a row of settings.
pub open spec fn setting_lines(es: Seq<(Seq<char>, Seq<char>)>) -> Seq<char>
    decreases es.len(),
{
    if es.len() == 0 {
        Seq::empty()
    } else {
        setting_line(es[0]) + setting_lines(es.drop_first())
    }
}

/// The two comment lines at the top of every file the agent writes.
pub open spec fn header() -> Seq<char> {
    "# Minecraft server properties"@ + seq!['\n'] + "# (File overwritten by Conductor)"@ + seq![
        '\n',
    ]
}

/// The properties file for a row of settings.
pub open spec fn properties_text(es: Seq<(Seq<char>, Seq<char>)>) -> Seq<char> {
    header() + setting_lines(es)
}

/// Where the properties file of the server in `base_dir` is.
pub open spec fn properties_file(base_dir: Seq<char>) -> Seq<char> {
    base_dir + "/server.properties"@
}

/// Where the properties file of the server in `base_dir` is.
pub fn properties_path(base_dir: &str) -> (r: String)
    ensures
        r@ == properties_file(base_dir@),
{
    let mut r: String = base_dir.to_owned();
    r.append("/server.properties");
    r
}

/// What to write before the properties file of the server in `base_dir` is read: the defaults
/// where there is no such file, and nothing otherwise.
pub fn seed_server_properties(exists: bool, base_dir: &str) -> (r: Option<FileWrite>)
    ensures
        r is Some <==> !exists,
        r is Some ==> r->0.path@ == properties_file(base_dir@) && r->0.content@
            == DEFAULT_PROPERTIES@,
{
    if exists {
        None
    } else {
        Some(
            FileWrite { path: properties_path(base_dir), content: DEFAULT_PROPERTIES.to_owned() },
        )
    }
}

/// Splits a line at its first `=`.
fn split_setting(line: &str) -> (r: Option<(String, String)>)
    ensures
        (match r {
            Some((k, v)) => Some((k@, v@)),
            None => None,
        }) == setting_in(line@),
{
    let v: Vec<char> = chars_of(line);
    assert(line@.skip(0) =~= line@);
    let n: usize = find_from(&v, 0, '=');
    if n < v.len() {
        let key: String = piece(line, 0, n);
        let value: String = piece(line, n + 1, v.len());
        proof {
            assert(key@ =~= line@.take(n as int));
            assert(value@ =~= line@.skip(n + 1));
        }
        Some((trim(key.as_str()), trim(value.as_str())))
    } else {
        None
    }
}

/// Reads a properties file. Of two lines for one name, the later one counts.
pub fn read_server_properties(content: &str) -> (r: ServerProperties)
    ensures
        r.wf(),
        r@ == settings_in(content@),
{
    let v: Vec<char> = chars_of(content);
    let mut props: ServerProperties = ServerProperties::new();
    let mut i: usize = 0;
    let mut done: bool = false;
    assert(content@.skip(0) =~= content@);
    while !done
        invariant
            v@ == content@,
            i <= v@.len(),
            props.wf(),
            !done ==> settings_after(props@, content@.skip(i as int)) == settings_in(content@),
            done ==> props@ == settings_in(content@),
        decreases (if done { 0int } else { 1 + v@.len() - i }),
    {
        let ghost rest = content@.skip(i as int);
        let j: usize = find_from(&v, i, '\n');
        let line: String = piece(content, i, j);
        proof {
            assert(line@ =~= rest.take(j - i));
            if j == v.len() {
                assert(rest.take(j - i) =~= rest);
            } else {
                assert(rest.skip(j - i + 1) =~= content@.skip(j + 1));
            }
        }
        match split_setting(line.as_str()) {
            Some((key, value)) => {
                props.insert(key, value);
            },
            None => {},
        }
        if j < v.len() {
            i = j + 1;
        } else {
            done = true;
        }
    }
    props
}

/// The properties file for `props`, in `base_dir`.
pub fn write_server_properties(props: &ServerProperties, base_dir: &str) -> (r: FileWrite)
    ensures
        r.path@ == properties_file(base_dir@),
        r.content@ == properties_text(props.pairs()),
{
    let mut content: String = "# Minecraft server properties".to_owned();
    content.append("\n");
    content.append("# (File overwritten by Conductor)");
    content.append("\n");
    let ghost es = props.pairs();
    let mut i: usize = 0;
    proof {
        reveal_strlit("\n");
        reveal_strlit("=");
        assert("\n"@ =~= seq!['\n']);
        assert("="@ =~= seq!['=']);
        assert(es.skip(0) =~= es);
    }
    while i < props.entries.len()
        invariant
            es == props.pairs(),
            i <= props.entries@.len(),
            "\n"@ == seq!['\n'],
            "="@ == seq!['='],
            content@ + setting_lines(es.skip(i as int)) == properties_text(es),
        decreases props.entries@.len() - i,
    {
        let ghost before = content@;
        content.append(props.entries[i].0.as_str());
        content.append("=");
        content.append(props.entries[i].1.as_str());
        content.append("\n");
        proof {
            let rest = es.skip(i as int);
            assert(rest[0] == es[i as int]);
            assert(rest.drop_first() =~= es.skip(i + 1));
            assert(content@ =~= before + setting_line(es[i as int]));
            assert(content@ + setting_lines(es.skip(i + 1)) =~= before + setting_lines(rest));
        }
        i = i + 1;
    }
    proof {
        assert(es.skip(i as int) =~= Seq::<(Seq<char>, Seq<char>)>::empty());
        assert(content@ + Seq::<char>::empty() =~= content@);
    }
    FileWrite { path: properties_path(base_dir), content }
}

/// Whether a name survives being written and read: it is trimmed, and holds neither the sign that
/// ends a name nor the one that ends a line.
pub open spec fn clean_name(k: Seq<char>) -> bool {
    trimmed(k) == k && lacks(k, '=') && lacks(k, '\n')
}

/// Whether a value survives being written and read: it is trimmed and stays on one line.
pub open spec fn clean_value(v: Seq<char>) -> bool {
    trimmed(v) == v && lacks(v, '\n')
}

/// Whether every name and every value of a row of settings survives.
pub open spec fn all_clean(es: Seq<(Seq<char>, Seq<char>)>) -> bool {
    forall|i: int| 0 <= i < es.len() ==> clean_name((#[trigger] es[i]).0) && clean_value(es[i].1)
}

/// Whether every name and every value of a mapping survives.
pub open spec fn clean_mapping(m: Map<Seq<char>, Seq<char>>) -> bool {
    forall|k: Seq<char>| #[trigger] m.contains_key(k) ==> clean_name(k) && clean_value(m[k])
}

/// A line in front of a text is read before it.
pub proof fn lemma_settings_line(m: Map<Seq<char>, Seq<char>>, line: Seq<char>, rest: Seq<char>)
    requires
        lacks(line, '\n'),
    ensures
        settings_after(m, line + seq!['\n'] + rest) == settings_after(with_line(m, line), rest),
{
    let s = line + seq!['\n'] + rest;
    position_after_prefix(line, '\n', rest);
    assert(s.take(line.len() as int) =~= line);
    assert(s.skip((line.len() + 1) as int) =~= rest);
}

proof fn lemma_clean_line(m: Map<Seq<char>, Seq<char>>, e: (Seq<char>, Seq<char>), rest: Seq<char>)
    requires
        clean_name(e.0),
        clean_value(e.1),
    ensures
        settings_after(m, setting_line(e) + rest) == settings_after(m.insert(e.0, e.1), rest),
{
    let line = e.0 + seq!['='] + e.1;
    assert forall|i: int| 0 <= i < line.len() implies #[trigger] line[i] != '\n' by {
        if i < e.0.len() {
            assert(line[i] == e.0[i]);
        } else if i > e.0.len() {
            assert(line[i] == e.1[i - e.0.len() - 1]);
        }
    }
    position_after_prefix(e.0, '=', e.1);
    assert(line.take(e.0.len() as int) =~= e.0);
    assert(line.skip((e.0.len() + 1) as int) =~= e.1);
    assert(setting_line(e) + rest =~= line + seq!['\n'] + rest);
    lemma_settings_line(m, line, rest);
}

/// What the entries of a row add to a mapping, one after the other.
pub open spec fn added(m: Map<Seq<char>, Seq<char>>, es: Seq<(Seq<char>, Seq<char>)>) -> Map<
    Seq<char>,
    Seq<char>,
>
    decreases es.len(),
{
    if es.len() == 0 {
        m
    } else {
        added(m.insert(es[0].0, es[0].1), es.drop_first())
    }
}

/// The lines of clean settings are read as those settings, one after the other.
pub proof fn lemma_clean_lines(m: Map<Seq<char>, Seq<char>>, es: Seq<(Seq<char>, Seq<char>)>)
    requires
        all_clean(es),
    ensures
        settings_after(m, setting_lines(es)) == added(m, es),
    decreases es.len(),
{
    if es.len() > 0 {
        let rest = es.drop_first();
        assert(clean_name(es[0].0) && clean_value(es[0].1));
        assert(all_clean(rest)) by {
            assert forall|i: int| 0 <= i < rest.len() implies clean_name((#[trigger] rest[i]).0)
                && clean_value(rest[i].1) by {
                assert(rest[i] == es[i + 1]);
            }
        }
        lemma_clean_line(m, es[0], setting_lines(rest));
        lemma_clean_lines(m.insert(es[0].0, es[0].1), rest);
    }
}

proof fn lemma_tail_mapping(es: Seq<(Seq<char>, Seq<char>)>)
    requires
        ascending(es),
        es.len() > 0,
    ensures
        ascending(es.drop_first()),
        mapping_of(es.drop_first()) == mapping_of(es).remove(es[0].0),
        !mapping_of(es.drop_first()).contains_key(es[0].0),
{
    let rest = es.drop_first();
    let k = es[0].0;
    assert forall|i: int, j: int| 0 <= i < j < rest.len() implies text_less(
        #[trigger] rest[i].0,
        #[trigger] rest[j].0,
    ) by {
        assert(text_less(es[i + 1].0, es[j + 1].0));
    }
    let a = mapping_of(rest);
    let b = mapping_of(es).remove(k);
    assert forall|n: Seq<char>| a.contains_key(n) == b.contains_key(n) by {
        if a.contains_key(n) {
            let i = choose|i: int| 0 <= i < rest.len() && (#[trigger] rest[i]).0 == n;
            assert(es[i + 1].0 == n);
            assert(text_less(es[0].0, es[i + 1].0));
            text_less_irreflexive(k);
        }
        if b.contains_key(n) {
            let i = choose|i: int| 0 <= i < es.len() && (#[trigger] es[i]).0 == n;
            assert(rest[i - 1].0 == n);
        }
    }
    assert forall|n: Seq<char>| a.contains_key(n) implies a[n] == b[n] by {
        let i = choose|i: int| 0 <= i < rest.len() && (#[trigger] rest[i]).0 == n;
        lemma_ascending_value(rest, i);
        lemma_ascending_value(es, i + 1);
        assert(es[i + 1] == rest[i]);
        assert(b.contains_key(n));
    }
    assert(a =~= b);
}

proof fn lemma_added(m: Map<Seq<char>, Seq<char>>, es: Seq<(Seq<char>, Seq<char>)>)
    requires
        ascending(es),
    ensures
        added(m, es) == m.union_prefer_right(mapping_of(es)),
    decreases es.len(),
{
    if es.len() == 0 {
        assert(m.union_prefer_right(mapping_of(es)) =~= m);
    } else {
        let (k, v) = es[0];
        lemma_tail_mapping(es);
        lemma_added(m.insert(k, v), es.drop_first());
        lemma_ascending_value(es, 0);
        assert(m.insert(k, v).union_prefer_right(mapping_of(es.drop_first()))
            =~= m.union_prefer_right(mapping_of(es)));
    }
}

proof fn lemma_header(m: Map<Seq<char>, Seq<char>>, rest: Seq<char>)
    ensures
        settings_after(m, header() + rest) == settings_after(m, rest),
{
    let a = "# Minecraft server properties"@;
    let b = "# (File overwritten by Conductor)"@;
    reveal_strlit("# Minecraft server properties");
    reveal_strlit("# (File overwritten by Conductor)");
    assert(lacks(a, '\n') && lacks(a, '='));
    assert(lacks(b, '\n') && lacks(b, '='));
    position_is_first(a, '=');
    position_is_first(b, '=');
    assert(header() + rest =~= a + seq!['\n'] + (b + seq!['\n'] + rest));
    lemma_settings_line(m, a, b + seq!['\n'] + rest);
    lemma_settings_line(m, b, rest);
}

/// Two texts on lines of their own are read one after the other, the second over the first.
pub proof fn later_lines_count(m: Map<Seq<char>, Seq<char>>, a: Seq<char>, b: Seq<char>)
    ensures
        settings_after(m, a + seq!['\n'] + b) == settings_after(settings_after(m, a), b),
    decreases a.len(),
{
    position_is_first(a, '\n');
    let n = position_of(a, '\n') as int;
    let line = a.take(n);
    if n < a.len() {
        let rest = a.skip(n + 1);
        assert(a + seq!['\n'] + b =~= line + seq!['\n'] + (rest + seq!['\n'] + b));
        lemma_settings_line(m, line, rest + seq!['\n'] + b);
        later_lines_count(with_line(m, line), rest, b);
    } else {
        assert(line =~= a);
        lemma_settings_line(m, a, b);
    }
}

/// Every name and every value that is read from a file is clean.
pub proof fn settings_are_clean(m: Map<Seq<char>, Seq<char>>, s: Seq<char>)
    requires
        clean_mapping(m),
    ensures
        clean_mapping(settings_after(m, s)),
    decreases s.len(),
{
    position_is_first(s, '\n');
    let n = position_of(s, '\n') as int;
    let line = s.take(n);
    if n == s.len() {
        assert(line =~= s);
    }
    position_is_first(line, '=');
    let e = position_of(line, '=') as int;
    if e < line.len() {
        let k = line.take(e);
        let v = line.skip(e + 1);
        assert(lacks(k, '\n')) by {
            assert forall|i: int| 0 <= i < k.len() implies #[trigger] k[i] != '\n' by {
                assert(k[i] == line[i]);
            }
        }
        assert(lacks(v, '\n')) by {
            assert forall|i: int| 0 <= i < v.len() implies #[trigger] v[i] != '\n' by {
                assert(v[i] == line[i + e + 1]);
            }
        }
        trimmed_is_stable(k);
        trimmed_is_stable(v);
        trimmed_lacks(k, '\n');
        trimmed_lacks(k, '=');
        trimmed_lacks(v, '\n');
    }
    assert(clean_mapping(with_line(m, line)));
    if n < s.len() {
        settings_are_clean(with_line(m, line), s.skip(n + 1));
    }
}

/// A file that was written for a row of settings reads back as those settings if, and only if,
/// every name and value is clean.
pub proof fn written_settings_read_back(es: Seq<(Seq<char>, Seq<char>)>)
    requires
        ascending(es),
    ensures
        settings_in(properties_text(es)) == mapping_of(es) <==> all_clean(es),
{
    let none = Map::<Seq<char>, Seq<char>>::empty();
    lemma_header(none, setting_lines(es));
    if all_clean(es) {
        lemma_clean_lines(none, es);
        lemma_added(none, es);
        assert(none.union_prefer_right(mapping_of(es)) =~= mapping_of(es));
    }
    if settings_in(properties_text(es)) == mapping_of(es) {
        settings_are_clean(none, properties_text(es));
        assert forall|i: int| 0 <= i < es.len() implies clean_name((#[trigger] es[i]).0)
            && clean_value(es[i].1) by {
            lemma_ascending_value(es, i);
        }
    }
}

/// Sorted entries are determined by the mapping they stand for.
proof fn lemma_same_entries(es: Seq<(Seq<char>, Seq<char>)>, fs: Seq<(Seq<char>, Seq<char>)>)
    requires
        ascending(es),
        ascending(fs),
        mapping_of(es) == mapping_of(fs),
    ensures
        es == fs,
    decreases es.len(),
{
    if es.len() == 0 {
        if fs.len() > 0 {
            lemma_ascending_value(fs, 0);
            assert(has_name(es, fs[0].0));
        }
        assert(es =~= fs);
    } else {
        lemma_ascending_value(es, 0);
        assert(has_name(fs, es[0].0));
        let j = choose|j: int| 0 <= j < fs.len() && (#[trigger] fs[j]).0 == es[0].0;
        lemma_ascending_value(fs, 0);
        assert(has_name(es, fs[0].0));
        let i = choose|i: int| 0 <= i < es.len() && (#[trigger] es[i]).0 == fs[0].0;
        if i > 0 && j > 0 {
            assert(text_less(es[0].0, es[i].0));
            assert(text_less(fs[0].0, fs[j].0));
            text_less_transitive(es[0].0, fs[0].0, es[0].0);
            text_less_irreflexive(es[0].0);
        }
        assert(es[0].0 == fs[0].0);
        assert(es[0] == fs[0]);
        lemma_tail_mapping(es);
        lemma_tail_mapping(fs);
        lemma_same_entries(es.drop_first(), fs.drop_first());
        assert(es =~= seq![es[0]] + es.drop_first());
        assert(fs =~= seq![fs[0]] + fs.drop_first());
    }
}

/// The entries, and with them the file that is written, depend on the settings alone, not on the
/// order in which they were made.
pub proof fn written_text_is_stable(a: ServerProperties, b: ServerProperties)
    requires
        a.wf(),
        b.wf(),
        a@ == b@,
    ensures
        a.pairs() == b.pairs(),
        properties_text(a.pairs()) == properties_text(b.pairs()),
{
    lemma_same_entries(a.pairs(), b.pairs());
}

/// A line states the name before its first `=` and the value behind it, both whole, whatever white
/// space stands around the two; a carriage return at its end is such white space.
pub proof fn padded_line_states_its_setting(
    w1: Seq<char>,
    k: Seq<char>,
    w2: Seq<char>,
    w3: Seq<char>,
    v: Seq<char>,
    w4: Seq<char>,
)
    requires
        blank(w1),
        blank(w2),
        blank(w3),
        blank(w4),
        solid_ends(k),
        solid_ends(v),
        lacks(k, '='),
    ensures
        setting_in(w1 + k + w2 + seq!['='] + (w3 + v + w4)) == Some((k, v)),
{
    let (a, b) = (w1 + k + w2, w3 + v + w4);
    let line = a + seq!['='] + b;
    assert(lacks(a, '=')) by {
        assert forall|i: int| 0 <= i < a.len() implies #[trigger] a[i] != '=' by {
            if i < w1.len() {
                assert(a[i] == w1[i]);
                assert(is_white(w1[i]));
            } else if i < w1.len() + k.len() {
                assert(a[i] == k[i - w1.len()]);
            } else {
                assert(a[i] == w2[i - w1.len() - k.len()]);
                assert(is_white(w2[i - w1.len() - k.len()]));
            }
        }
    }
    position_after_prefix(a, '=', b);
    assert(line.take(a.len() as int) =~= a);
    assert(line.skip(a.len() as int + 1) =~= b);
    padding_is_trimmed(w1, k, w2);
    padding_is_trimmed(w3, v, w4);
}

/// A line states a setting exactly where it holds a `=`.
pub proof fn sign_makes_a_setting(line: Seq<char>)
    ensures
        setting_in(line) is Some <==> exists|i: int| 0 <= i < line.len() && #[trigger] line[i] == '=',
{
    position_is_first(line, '=');
    let n = position_of(line, '=') as int;
    if n < line.len() {
        assert(line[n] == '=');
    } else {
        assert(line.take(n) =~= line);
    }
}

/// A text of one line gives its setting to the mapping it is read into, and changes nothing else of
/// it; one without a setting changes nothing at all.
pub proof fn single_line_is_read(m: Map<Seq<char>, Seq<char>>, line: Seq<char>)
    requires
        lacks(line, '\n'),
    ensures
        settings_after(m, line) == (match setting_in(line) {
            Some((k, v)) => m.insert(k, v),
            None => m,
        }),
        settings_in(line) == settings_after(Map::empty(), line),
{
    position_is_first(line, '\n');
}

/// A file with padded lines, as other programs write it, is read setting by setting: what a further
/// line adds is exactly its own setting.
pub proof fn padded_line_adds_its_setting(
    text: Seq<char>,
    w1: Seq<char>,
    k: Seq<char>,
    w2: Seq<char>,
    w3: Seq<char>,
    v: Seq<char>,
    w4: Seq<char>,
)
    requires
        blank(w1) && lacks(w1, '\n'),
        blank(w2) && lacks(w2, '\n'),
        blank(w3) && lacks(w3, '\n'),
        blank(w4) && lacks(w4, '\n'),
        solid_ends(k) && lacks(k, '\n') && lacks(k, '='),
        solid_ends(v) && lacks(v, '\n'),
    ensures
        settings_in(text + seq!['\n'] + (w1 + k + w2 + seq!['='] + (w3 + v + w4)))
            == settings_in(text).insert(k, v),
        settings_in(w1 + k + w2 + seq!['='] + (w3 + v + w4) + seq!['\n'] + text) == settings_after(
            Map::<Seq<char>, Seq<char>>::empty().insert(k, v),
            text,
        ),
{
    let (a, b) = (w1 + k + w2, w3 + v + w4);
    let line = a + seq!['='] + b;
    assert(lacks(line, '\n')) by {
        assert forall|i: int| 0 <= i < line.len() implies #[trigger] line[i] != '\n' by {
            let j = i - a.len() - 1;
            if i < w1.len() {
                assert(line[i] == w1[i]);
            } else if i < w1.len() + k.len() {
                assert(line[i] == k[i - w1.len()]);
            } else if i < a.len() {
                assert(line[i] == w2[i - w1.len() - k.len()]);
            } else if i == a.len() {
                assert(line[i] == '=');
            } else if j < w3.len() {
                assert(line[i] == w3[j]);
            } else if j < w3.len() + v.len() {
                assert(line[i] == v[j - w3.len()]);
            } else {
                assert(line[i] == w4[j - w3.len() - v.len()]);
            }
        }
    }
    let none = Map::<Seq<char>, Seq<char>>::empty();
    padded_line_states_its_setting(w1, k, w2, w3, v, w4);
    later_lines_count(none, text, line);
    single_line_is_read(settings_in(text), line);
    later_lines_count(none, line, text);
    single_line_is_read(none, line);
}

proof fn lemma_lines_push(es: Seq<(Seq<char>, Seq<char>)>, e: (Seq<char>, Seq<char>))
    ensures
        setting_lines(es.push(e)) == setting_lines(es) + setting_line(e),
    decreases es.len(),
{
    let fs = es.push(e);
    if es.len() == 0 {
        assert(fs.drop_first() =~= es);
        assert(setting_lines(fs) =~= setting_lines(es) + setting_line(e));
    } else {
        assert(fs.drop_first() =~= es.drop_first().push(e));
        lemma_lines_push(es.drop_first(), e);
        assert(setting_lines(fs) =~= setting_lines(es) + setting_line(e));
    }
}

/// The file for no settings is the two comment lines, and one more setting is one more line: the
/// whole name, the sign and the whole value.
pub proof fn file_grows_line_by_line(es: Seq<(Seq<char>, Seq<char>)>, k: Seq<char>, v: Seq<char>)
    ensures
        properties_text(Seq::empty())
            == "# Minecraft server properties\n# (File overwritten by Conductor)\n"@,
        properties_text(es.push((k, v))) == properties_text(es) + k + seq!['='] + v + seq!['\n'],
{
    reveal_strlit("# Minecraft server properties");
    reveal_strlit("# (File overwritten by Conductor)");
    reveal_strlit("# Minecraft server properties\n# (File overwritten by Conductor)\n");
    assert(properties_text(Seq::empty())
        =~= "# Minecraft server properties\n# (File overwritten by Conductor)\n"@);
    lemma_lines_push(es, (k, v));
    assert(properties_text(es.push((k, v))) =~= properties_text(es) + k + seq!['='] + v + seq!['\n']);
}

/// The properties file of a directory is the file of that name in it: the whole directory stands
/// before the name, so different directories have different files.
pub proof fn file_is_in_its_directory(a: Seq<char>, b: Seq<char>)
    ensures
        properties_file(a).take(a.len() as int) == a,
        properties_file(a).skip(a.len() as int) == "/server.properties"@,
        properties_file(a) == properties_file(b) ==> a == b,
{
    let (p, q) = (properties_file(a), properties_file(b));
    assert(p.take(a.len() as int) =~= a);
    assert(p.skip(a.len() as int) =~= "/server.properties"@);
    assert(q.take(b.len() as int) =~= b);
}

/// The entries of settings and the settings say the same: each entry is the setting of its name, and
/// there is an entry for every setting.
pub proof fn entries_are_the_settings(p: ServerProperties)
    requires
        p.wf(),
    ensures
        forall|i: int|
            0 <= i < p.pairs().len() ==> p@.contains_key((#[trigger] p.pairs()[i]).0)
                && p@[p.pairs()[i].0] == p.pairs()[i].1,
        forall|k: Seq<char>| #[trigger]
            p@.contains_key(k) ==> exists|i: int|
                0 <= i < p.pairs().len() && (#[trigger] p.pairs()[i]).0 == k,
{
    assert forall|i: int| 0 <= i < p.pairs().len() implies p@.contains_key(
        (#[trigger] p.pairs()[i]).0,
    ) && p@[p.pairs()[i].0] == p.pairs()[i].1 by {
        lemma_ascending_value(p.pairs(), i);
    }
}

/// Pairs of strings are seen whole, each in its place.
pub proof fn pairs_are_seen_whole(v: Seq<(String, String)>)
    ensures
        pair_texts(v).len() == v.len(),
        forall|i: int| 0 <= i < v.len() ==> (#[trigger] pair_texts(v)[i]) == (v[i].0@, v[i].1@),
{
}

} // verus!
