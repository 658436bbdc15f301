//! What precedes the launch of a server: a look at the licence file, and at whether its port is
//! free.

use crate::numbers::{decimal, decimal_text, digits_value, is_digit, is_numeral, numbers_of_sixteen_bits, numeral_has_no_leading_zero, numeral_round_trip, parse_u16, u16_of};
use crate::properties::{all_clean, ascending, mapping_of, properties_text, settings_in, written_settings_read_back, ServerProperties};
use crate::text::{blank, padding_is_trimmed, solid_ends, texts, trim, trimmed};
use vstd::prelude::*;

verus! {

/// The port of a server that names none.
pub const DEFAULT_PORT: u16 = 25565;

/// Where the licence file is.
pub fn eula_path() -> (r: String)
    ensures
        r@ == "minecraft/eula.txt"@,
{
    "minecraft/eula.txt".to_owned()
}

/// The lines that are told of the licence file: that it is there, and what it says; or why it
/// could not be read.
pub open spec fn eula_words(read: Result<Seq<char>, Seq<char>>) -> Seq<Seq<char>> {
    match read {
        Ok(content) => seq![
            "EULA file found: "@ + "minecraft/eula.txt"@,
            "EULA content: "@ + trimmed(content),
        ],
        Err(e) => seq![
            "EULA missing or unreadable ("@ + "minecraft/eula.txt"@ + ") : "@ + e,
        ],
    }
}

/// The lines that are told of the licence file.
pub fn eula_lines(read: Result<String, String>) -> (r: Vec<String>)
    ensures
        texts(r@) == eula_words(
            (match read {
                Ok(content) => Ok(content@),
                Err(e) => Err(e@),
            }),
        ),
{
    let mut r: Vec<String> = Vec::new();
    match read {
        Ok(content) => {
            let mut found: String = "EULA file found: ".to_owned();
            found.append("minecraft/eula.txt");
            let short: String = trim(content.as_str());
            let mut told: String = "EULA content: ".to_owned();
            told.append(short.as_str());
            r.push(found);
            r.push(told);
            assert(texts(r@) =~= eula_words(Ok(content@)));
        },
        Err(e) => {
            let mut told: String = "EULA missing or unreadable (".to_owned();
            told.append("minecraft/eula.txt");
            told.append(") : ");
            told.append(e.as_str());
            r.push(told);
            assert(texts(r@) =~= eula_words(Err(e@)));
        },
    }
    r
}

/// The port that settings name, or the default where they name none that can be one.
pub open spec fn port_in(settings: Map<Seq<char>, Seq<char>>) -> u16 {
    if settings.contains_key("server-port"@) {
        match u16_of(settings["server-port"@]) {
            Some(port) => port,
            None => DEFAULT_PORT,
        }
    } else {
        DEFAULT_PORT
    }
}

/// The port of a server with these settings.
pub fn server_port(props: &ServerProperties) -> (r: u16)
    requires
        props.wf(),
    ensures
        r == port_in(props@),
{
    match props.get("server-port") {
        Some(value) => match parse_u16(value.as_str()) {
            Some(port) => port,
            None => DEFAULT_PORT,
        },
        None => DEFAULT_PORT,
    }
}

/// How an attempt to listen on a port turned out.
#[derive(Debug)]
pub enum Probe {
    Free,
    InUse,
    /// It failed for another reason, in these words.
    Failed(String),
}

/// How far the launch of a server has come.
#[derive(Debug, Clone, Copy, PartialEq, Eq, Structural)]
pub enum StartStage {
    /// Try this port on all IPv4 addresses.
    ProbingV4(u16),
    /// Try this port on all IPv6 addresses.
    ProbingV6(u16),
    /// Launch the server.
    Launching,
    /// Do not launch it: its port is taken.
    Refused,
}

/// What follows once the settings were read, or could not be.
pub fn after_properties(props: Option<&ServerProperties>) -> (r: (StartStage, Vec<String>))
    requires
        props is Some ==> props->0.wf(),
    ensures
        r.0 == (match props {
            Some(p) => StartStage::ProbingV4(port_in(p@)),
            None => StartStage::Launching,
        }),
        texts(r.1@) == (match props {
            Some(_) => Seq::empty(),
            None => seq!["No server.properties found; assuming default port 25565"@],
        }),
{
    let mut lines: Vec<String> = Vec::new();
    match props {
        Some(p) => {
            assert(texts(lines@) =~= Seq::<Seq<char>>::empty());
            (StartStage::ProbingV4(server_port(p)), lines)
        },
        None => {
            lines.push("No server.properties found; assuming default port 25565".to_owned());
            assert(texts(lines@) =~= seq![
                "No server.properties found; assuming default port 25565"@,
            ]);
            (StartStage::Launching, lines)
        },
    }
}

/// The stage after a probe. A port in use ends the launch; any other failure does not.
pub open spec fn probe_next(stage: StartStage, in_use: bool) -> StartStage {
    match stage {
        StartStage::ProbingV4(port) => if in_use {
            StartStage::Refused
        } else {
            StartStage::ProbingV6(port)
        },
        StartStage::ProbingV6(port) => if in_use {
            StartStage::Refused
        } else {
            StartStage::Launching
        },
        _ => stage,
    }
}

/// The lines that are told after a probe.
pub open spec fn probe_lines(stage: StartStage, probe: Probe) -> Seq<Seq<char>> {
    match (stage, probe) {
        (StartStage::ProbingV4(port), Probe::Failed(e)) => seq![
            "Port check (IPv4) error for "@ + decimal(port as nat) + ": "@ + e@,
        ],
        (StartStage::ProbingV6(port), Probe::Failed(e)) => seq![
            "Port check (IPv6) error for "@ + decimal(port as nat) + ": "@ + e@,
        ],
        (StartStage::ProbingV4(port), Probe::InUse) | (StartStage::ProbingV6(port), Probe::InUse) =>
            seq!["Failed to start: port "@ + decimal(port as nat) + " is in use"@],
        _ => Seq::empty(),
    }
}

/// A port between two texts.
fn port_line(before: &str, port: u16, after: &str) -> (r: String)
    ensures
        r@ == before@ + decimal(port as nat) + after@,
{
    let digits: String = decimal_text(port as u64);
    let mut r: String = before.to_owned();
    r.append(digits.as_str());
    r.append(after);
    r
}

/// What follows once the port of a stage was probed.
pub fn after_probe(stage: StartStage, probe: Probe) -> (r: (StartStage, Vec<String>))
    ensures
        r.0 == probe_next(stage, probe is InUse),
        texts(r.1@) == probe_lines(stage, probe),
{
    let mut lines: Vec<String> = Vec::new();
    let next: StartStage = match stage {
        StartStage::ProbingV4(port) => match &probe {
            Probe::Free => StartStage::ProbingV6(port),
            Probe::InUse => {
                lines.push(port_line("Failed to start: port ", port, " is in use"));
                StartStage::Refused
            },
            Probe::Failed(e) => {
                let mut told: String = port_line("Port check (IPv4) error for ", port, ": ");
                told.append(e.as_str());
                lines.push(told);
                StartStage::ProbingV6(port)
            },
        },
        StartStage::ProbingV6(port) => match &probe {
            Probe::Free => StartStage::Launching,
            Probe::InUse => {
                lines.push(port_line("Failed to start: port ", port, " is in use"));
                StartStage::Refused
            },
            Probe::Failed(e) => {
                let mut told: String = port_line("Port check (IPv6) error for ", port, ": ");
                told.append(e.as_str());
                lines.push(told);
                StartStage::Launching
            },
        },
        StartStage::Launching => StartStage::Launching,
        StartStage::Refused => StartStage::Refused,
    };
    assert(texts(lines@) =~= probe_lines(stage, probe));
    (next, lines)
}

/// The outcome of the port check: the stage it ends at, where `v4_in_use` and `v6_in_use` say
/// whether the port is taken.
pub open spec fn port_check(port: u16, v4_in_use: bool, v6_in_use: bool) -> StartStage {
    probe_next(probe_next(StartStage::ProbingV4(port), v4_in_use), v6_in_use)
}

/// A server is launched exactly where its port is not in use, neither for IPv4 nor for IPv6; and
/// otherwise it is refused.
pub proof fn busy_port_is_refused(port: u16, v4_in_use: bool, v6_in_use: bool)
    ensures
        port_check(port, v4_in_use, v6_in_use) == (if v4_in_use || v6_in_use {
            StartStage::Refused
        } else {
            StartStage::Launching
        }),
{
}

/// A port that the settings name in decimal is the port of the server.
pub proof fn named_port_is_used(settings: Map<Seq<char>, Seq<char>>, port: u16)
    requires
        settings.contains_key("server-port"@),
        settings["server-port"@] == decimal(port as nat),
    ensures
        port_in(settings) == port,
{
    let s = decimal(port as nat);
    numeral_round_trip(port as nat);
    assert(is_digit(s[0]));
}

/// A port that is written into the settings of a server is the port that its next launch probes.
pub proof fn written_port_is_used(es: Seq<(Seq<char>, Seq<char>)>, port: u16)
    requires
        ascending(es),
        all_clean(es),
        mapping_of(es).contains_key("server-port"@),
        mapping_of(es)["server-port"@] == decimal(port as nat),
    ensures
        port_in(settings_in(properties_text(es))) == port,
{
    written_settings_read_back(es);
    named_port_is_used(mapping_of(es), port);
}

/// Where settings name no port, or name something else than a numeral of sixteen bits, the server
/// has the port 25565; a numeral counts whatever zeros or plus sign it begins with.
pub proof fn port_is_named_or_default(settings: Map<Seq<char>, Seq<char>>)
    ensures
        !settings.contains_key("server-port"@) ==> port_in(settings) == 25565,
        settings.contains_key("server-port"@) ==> ({
            let s = settings["server-port"@];
            let digits = if s.len() > 0 && s[0] == '+' {
                s.skip(1)
            } else {
                s
            };
            port_in(settings) == (if is_numeral(digits) && digits_value(digits) <= 65535 {
                digits_value(digits)
            } else {
                25565
            })
        }),
{
    if settings.contains_key("server-port"@) {
        let s = settings["server-port"@];
        numbers_of_sixteen_bits(s);
        if s.len() > 0 && s[0] == '+' {
            numbers_of_sixteen_bits(s.skip(1));
            assert(seq!['+'] + s.skip(1) =~= s);
            assert(is_numeral(s) ==> is_digit(s[0]));
        }
    }
}

/// One port is probed for IPv4 and for IPv6: the second probe is of the port of the first, and it is
/// made exactly where the first did not find the port in use.
pub proof fn one_port_is_probed(port: u16)
    ensures
        probe_next(StartStage::ProbingV4(port), false) == StartStage::ProbingV6(port),
        probe_next(StartStage::ProbingV4(port), true) == StartStage::Refused,
        probe_next(StartStage::ProbingV6(port), false) == StartStage::Launching,
        probe_next(StartStage::ProbingV6(port), true) == StartStage::Refused,
        forall|in_use: bool| probe_next(StartStage::Launching, in_use) == StartStage::Launching,
        forall|in_use: bool| probe_next(StartStage::Refused, in_use) == StartStage::Refused,
{
}

/// A line that a probe is told with: its beginning, then the numeral of the very port, then its end.
pub open spec fn names_port(line: Seq<char>, before: Seq<char>, port: u16, after: Seq<char>) -> bool {
    let n = line.len() - after.len();
    &&& before.len() < n
    &&& line.take(before.len() as int) == before
    &&& line.skip(n) == after
    &&& u16_of(line.subrange(before.len() as int, n)) == Some(port)
    &&& line[before.len() as int] != '+'
    &&& port > 0 ==> line[before.len() as int] != '0'
}

proof fn lemma_names_port(before: Seq<char>, port: u16, after: Seq<char>)
    ensures
        names_port(before + decimal(port as nat) + after, before, port, after),
{
    let digits = decimal(port as nat);
    let line = before + digits + after;
    numeral_round_trip(port as nat);
    numeral_has_no_leading_zero(port as nat);
    numbers_of_sixteen_bits(digits);
    assert(is_digit(digits[0]));
    assert(line[before.len() as int] == digits[0]);
    assert(line.take(before.len() as int) =~= before);
    assert(line.skip(line.len() - after.len()) =~= after);
    assert(line.subrange(before.len() as int, line.len() - after.len()) =~= digits);
}

/// What is told of a probe names the very port, and holds the whole error where there is one; of a
/// port that is free nothing is told.
pub proof fn probes_are_told_truly(port: u16, e: String)
    ensures
        ({
            let lines = probe_lines(StartStage::ProbingV4(port), Probe::Failed(e));
            lines.len() == 1 && names_port(
                lines[0],
                "Port check (IPv4) error for "@,
                port,
                ": "@ + e@,
            )
        }),
        ({
            let lines = probe_lines(StartStage::ProbingV6(port), Probe::Failed(e));
            lines.len() == 1 && names_port(
                lines[0],
                "Port check (IPv6) error for "@,
                port,
                ": "@ + e@,
            )
        }),
        ({
            let v4 = probe_lines(StartStage::ProbingV4(port), Probe::InUse);
            let v6 = probe_lines(StartStage::ProbingV6(port), Probe::InUse);
            &&& v4 == v6
            &&& v4.len() == 1
            &&& names_port(v4[0], "Failed to start: port "@, port, " is in use"@)
        }),
        probe_lines(StartStage::ProbingV4(port), Probe::Free).len() == 0,
        probe_lines(StartStage::ProbingV6(port), Probe::Free).len() == 0,
{
    let digits = decimal(port as nat);
    let (v4, v6) = ("Port check (IPv4) error for "@, "Port check (IPv6) error for "@);
    assert(v4 + digits + ": "@ + e@ =~= v4 + digits + (": "@ + e@));
    assert(v6 + digits + ": "@ + e@ =~= v6 + digits + (": "@ + e@));
    lemma_names_port(v4, port, ": "@ + e@);
    lemma_names_port(v6, port, ": "@ + e@);
    lemma_names_port("Failed to start: port "@, port, " is in use"@);
}

/// What is told of the licence file is its whole content, but for white space around it; or the
/// whole error.
pub proof fn licence_is_told_whole(w: Seq<char>, t: Seq<char>, x: Seq<char>, e: Seq<char>)
    requires
        blank(w),
        blank(x),
        solid_ends(t),
    ensures
        eula_words(Ok(w + t + x)).len() == 2,
        eula_words(Ok(w + t + x))[0] == "EULA file found: minecraft/eula.txt"@,
        eula_words(Ok(w + t + x))[1] == "EULA content: "@ + t,
        eula_words(Err(e)).len() == 1,
        eula_words(Err(e))[0] == "EULA missing or unreadable (minecraft/eula.txt) : "@ + e,
{
    reveal_strlit("EULA file found: ");
    reveal_strlit("minecraft/eula.txt");
    reveal_strlit("EULA file found: minecraft/eula.txt");
    reveal_strlit("EULA missing or unreadable (");
    reveal_strlit(") : ");
    reveal_strlit("EULA missing or unreadable (minecraft/eula.txt) : ");
    padding_is_trimmed(w, t, x);
    assert(eula_words(Ok(w + t + x))[0] =~= "EULA file found: minecraft/eula.txt"@);
    assert(eula_words(Err(e))[0] =~= "EULA missing or unreadable (minecraft/eula.txt) : "@ + e);
}

} // verus!
