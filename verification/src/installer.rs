//! Installing a server or a mod: what is fetched, what is written, and what is told meanwhile.

use crate::json::{json_string, json_string_is_one_line, member_pretties, object_pretty, object_value, text_value, value_pretty_text};
use crate::json_reading::{object_of_strings_reads_back, only_member, quoted, string_members};
use crate::paths::{join, joined, FileWrite};
use crate::text::{text_less, texts};
use vstd::prelude::*;

verus! {

/// Which server is installed.
#[derive(Debug)]
pub struct ServerMetadata {
    pub server_type: String,
    pub version: String,
}

/// The texts of a [`ServerMetadata`].
pub struct MetadataTexts {
    pub server_type: Seq<char>,
    pub version: Seq<char>,
}

impl View for ServerMetadata {
    type V = MetadataTexts;

    open spec fn view(&self) -> MetadataTexts {
        MetadataTexts { server_type: self.server_type@, version: self.version@ }
    }
}

impl Clone for ServerMetadata {
    fn clone(&self) -> (r: Self)
        ensures
            r@ == self@,
    {
        ServerMetadata { server_type: self.server_type.clone(), version: self.version.clone() }
    }
}

/// What is known of a server whose installation left no record.
pub open spec fn fallback_metadata() -> MetadataTexts {
    MetadataTexts { server_type: "Unknown"@, version: "?"@ }
}

impl ServerMetadata {
    /// What is known at startup: the record that was read, or the fallback where none could be.
    pub fn at_startup(read: Option<ServerMetadata>) -> (r: ServerMetadata)
        ensures
            r@ == (match read {
                Some(metadata) => metadata@,
                None => fallback_metadata(),
            }),
    {
        match read {
            Some(metadata) => metadata,
            None => ServerMetadata { server_type: "Unknown".to_owned(), version: "?".to_owned() },
        }
    }
}

/// A name for the text of an HTTP status, such as `404 Not Found`.
pub uninterp spec fn status_line(code: u16) -> Seq<char>;

/// Whether a status means success: `http::StatusCode::is_success`, which `reqwest` re-exports. It
/// holds of the codes from 200 up to 299. Only codes of three digits are statuses.
#[verifier::external_body]
fn is_success(code: u16) -> (r: bool)
    requires
        100 <= code <= 999,
    ensures
        r == (200 <= code <= 299),
{
    reqwest::StatusCode::from_u16(code).unwrap().is_success()
}

/// The text of a status: what `http::StatusCode` displays, its number and its usual reason. The
/// text depends on the code alone.
#[verifier::external_body]
fn status_words(code: u16) -> (r: String)
    requires
        100 <= code <= 999,
    ensures
        r@ == status_line(code),
{
    reqwest::StatusCode::from_u16(code).unwrap().to_string()
}

/// What is said of a download that was answered with `code`, where that is a failure.
pub open spec fn download_failure(code: u16) -> Seq<char> {
    "Download failed: "@ + status_line(code)
}

/// What is said of a download that was answered with a status of this text, where that is a
/// failure.
pub fn download_error(status: &str) -> (r: String)
    ensures
        r@ == "Download failed: "@ + status@,
{
    let mut r: String = "Download failed: ".to_owned();
    r.append(status);
    r
}

/// Whether a response with this status is to be kept, and if not, why.
fn checked_status(code: u16) -> (r: Result<(), String>)
    requires
        100 <= code <= 999,
    ensures
        match r {
            Ok(_) => 200 <= code <= 299,
            Err(e) => !(200 <= code <= 299) && e@ == download_failure(code),
        },
{
    if is_success(code) {
        Ok(())
    } else {
        let words: String = status_words(code);
        Err(download_error(words.as_str()))
    }
}

/// Where the body of a response goes that was asked for `path`: there, if the response is a
/// success.
pub fn download_file(path: &str, code: u16) -> (r: Result<String, String>)
    requires
        100 <= code <= 999,
    ensures
        match r {
            Ok(target) => 200 <= code <= 299 && target@ == path@,
            Err(e) => !(200 <= code <= 299) && e@ == download_failure(code),
        },
{
    match checked_status(code) {
        Ok(_) => Ok(path.to_owned()),
        Err(e) => Err(e),
    }
}

/// The file in `directory` that says that the licence was accepted.
pub fn accept_eula(directory: &str) -> (r: FileWrite)
    ensures
        r.path@ == joined(directory@, "eula.txt"@),
        r.content@ == "eula=true\n"@,
{
    FileWrite { path: join(directory, "eula.txt"), content: "eula=true\n".to_owned() }
}

/// Where the record of an installation is kept.
pub fn metadata_path() -> (r: String)
    ensures
        r@ == "conductor_metadata.json"@,
{
    "conductor_metadata.json".to_owned()
}

/// The record of an installation as JSON.
pub open spec fn metadata_json(m: MetadataTexts) -> Seq<char> {
    object_pretty(
        seq![
            ("server_type"@, json_string(m.server_type)),
            ("version"@, json_string(m.version)),
        ],
    )
}

/// The file that keeps the record of an installation.
pub fn create_metadata_file(server_type: &str, version: &str) -> (r: FileWrite)
    ensures
        r.path@ == "conductor_metadata.json"@,
        r.content@ == metadata_json(
            MetadataTexts { server_type: server_type@, version: version@ },
        ),
{
    let mut members: Vec<(String, serde_json::Value)> = Vec::new();
    members.push(("server_type".to_owned(), text_value(server_type)));
    members.push(("version".to_owned(), text_value(version)));
    proof {
        reveal_strlit("server_type");
        reveal_strlit("version");
        assert(text_less("server_type"@, "version"@));
        json_string_is_one_line(server_type@);
        json_string_is_one_line(version@);
        assert(member_pretties(members@) =~= seq![
            ("server_type"@, json_string(server_type@)),
            ("version"@, json_string(version@)),
        ]);
    }
    let record: serde_json::Value = object_value(members);
    FileWrite { path: metadata_path(), content: value_pretty_text(&record) }
}

/// The record of an installation that a text says, where it is a JSON object of strings that names
/// the kind of the server once and its version once.
pub open spec fn metadata_in(text: Seq<char>) -> Option<MetadataTexts> {
    match string_members(text) {
        None => None,
        Some(ms) => match (only_member(ms, "server_type"@), only_member(ms, "version"@)) {
            (Some(server_type), Some(version)) => Some(MetadataTexts { server_type, version }),
            _ => None,
        },
    }
}

/// Reading the record of an installation gives back what it was written for, whatever characters
/// that holds.
pub proof fn written_metadata_reads_back(m: MetadataTexts)
    ensures
        metadata_in(metadata_json(m)) == Some(m),
{
    reveal_strlit("server_type");
    reveal_strlit("version");
    let (a, b) = (("server_type"@, m.server_type), ("version"@, m.version));
    let es = seq![a, b];
    assert(quoted(es) =~= seq![
        ("server_type"@, json_string(m.server_type)),
        ("version"@, json_string(m.version)),
    ]);
    object_of_strings_reads_back(es);
    assert("server_type"@[0] != "version"@[0]);
    reveal_with_fuel(Seq::filter, 3);
    assert(es.drop_last() =~= seq![a]);
    assert(es.drop_last().drop_last() =~= Seq::<(Seq<char>, Seq<char>)>::empty());
    assert(es.filter(|e: (Seq<char>, Seq<char>)| e.0 == "server_type"@) =~= seq![a]);
    assert(es.filter(|e: (Seq<char>, Seq<char>)| e.0 == "version"@) =~= seq![b]);
}

/// The record of an installation, as it is written, determines which server was installed.
pub proof fn metadata_record_is_faithful(a: MetadataTexts, b: MetadataTexts)
    requires
        metadata_json(a) == metadata_json(b),
    ensures
        a == b,
{
    written_metadata_reads_back(a);
    written_metadata_reads_back(b);
}

/// Where the body of a response goes that was asked for a mod: under its name into the directory
/// of the mods, if the response is a success.
pub fn install_mod(filename: &str, mods_dir_path: &str, code: u16) -> (r: Result<String, String>)
    requires
        100 <= code <= 999,
    ensures
        match r {
            Ok(target) => 200 <= code <= 299 && target@ == joined(mods_dir_path@, filename@),
            Err(e) => !(200 <= code <= 299) && e@ == download_failure(code),
        },
{
    match checked_status(code) {
        Ok(_) => Ok(join(mods_dir_path, filename)),
        Err(e) => Err(e),
    }
}

/// A server to be installed.
#[derive(Debug)]
pub struct InstallPlan {
    pub url: String,
    pub server_type: String,
    pub version: String,
}

/// The texts of an [`InstallPlan`].
pub struct PlanTexts {
    pub url: Seq<char>,
    pub server_type: Seq<char>,
    pub version: Seq<char>,
}

impl View for InstallPlan {
    type V = PlanTexts;

    open spec fn view(&self) -> PlanTexts {
        PlanTexts { url: self.url@, server_type: self.server_type@, version: self.version@ }
    }
}

/// How far the installation of a server has come. Each stage but the first and the last is named
/// for the work that is under way.
#[derive(Debug, Clone, Copy, PartialEq, Eq, Structural)]
pub enum InstallStage {
    Begin,
    CreatingDirectory,
    Downloading,
    AcceptingEula,
    WritingMetadata,
    WritingDefaults,
    Finished,
}

/// The stage after `stage`, where `ok` says whether its work succeeded. Without a directory or
/// without the server itself there is nothing more to do; what fails later is passed over.
pub open spec fn install_next(stage: InstallStage, ok: bool) -> InstallStage {
    match stage {
        InstallStage::Begin => InstallStage::CreatingDirectory,
        InstallStage::CreatingDirectory => if ok {
            InstallStage::Downloading
        } else {
            InstallStage::Finished
        },
        InstallStage::Downloading => if ok {
            InstallStage::AcceptingEula
        } else {
            InstallStage::Finished
        },
        InstallStage::AcceptingEula => InstallStage::WritingMetadata,
        InstallStage::WritingMetadata => InstallStage::WritingDefaults,
        InstallStage::WritingDefaults => InstallStage::Finished,
        InstallStage::Finished => InstallStage::Finished,
    }
}

/// The line that ends a successful installation.
pub open spec fn install_complete() -> Seq<char> {
    "Installation complete! You can now start the server."@
}

/// The lines that are told when the work of a stage ended with `outcome`.
pub open spec fn install_lines(
    plan: PlanTexts,
    stage: InstallStage,
    outcome: Result<(), Seq<char>>,
) -> Seq<Seq<char>> {
    match (stage, outcome) {
        (InstallStage::Begin, _) => seq!["Starting download of "@ + plan.url + "..."@],
        (InstallStage::CreatingDirectory, Ok(_)) => Seq::empty(),
        (InstallStage::CreatingDirectory, Err(e)) => seq![
            "Failed to create minecraft directory: "@ + e,
        ],
        (InstallStage::Downloading, Ok(_)) => seq!["Download successful. Accepting EULA..."@],
        (InstallStage::Downloading, Err(e)) => seq!["Failed to download server: "@ + e],
        (InstallStage::AcceptingEula, Ok(_)) => seq!["EULA accepted."@],
        (InstallStage::AcceptingEula, Err(e)) => seq!["Failed to accept EULA: "@ + e],
        (InstallStage::WritingMetadata, Ok(_)) => seq![
            "METADATA: "@ + plan.server_type + " "@ + plan.version,
        ],
        (InstallStage::WritingMetadata, Err(e)) => seq!["Failed to create metadata: "@ + e],
        (InstallStage::WritingDefaults, Ok(_)) => seq![install_complete()],
        (InstallStage::WritingDefaults, Err(e)) => seq![
            "Failed to create default server files: "@ + e,
            install_complete(),
        ],
        (InstallStage::Finished, _) => Seq::empty(),
    }
}

/// An outcome with the view of its error.
pub open spec fn outcome_text(outcome: Result<(), String>) -> Result<(), Seq<char>> {
    match outcome {
        Ok(_) => Ok(()),
        Err(e) => Err(e@),
    }
}

/// One string behind another.
fn line(a: &str, b: &str) -> (r: String)
    ensures
        r@ == a@ + b@,
{
    let mut r: String = a.to_owned();
    r.append(b);
    r
}

/// Where the server jar is installed to.
pub fn server_jar_path() -> (r: String)
    ensures
        r@ == "minecraft/server.jar"@,
{
    "minecraft/server.jar".to_owned()
}

/// One step of the installation of a server: the stage after `stage`, whose work ended with
/// `outcome`, and the lines to tell before the work of the new stage begins. The first call is
/// made at stage `Begin`, with any outcome.
pub fn install_step(plan: &InstallPlan, stage: InstallStage, outcome: Result<(), String>) -> (r: (
    InstallStage,
    Vec<String>,
))
    ensures
        r.0 == install_next(stage, outcome is Ok),
        texts(r.1@) == install_lines(plan@, stage, outcome_text(outcome)),
{
    let mut lines: Vec<String> = Vec::new();
    let next: InstallStage = match stage {
        InstallStage::Begin => {
            let mut first: String = line("Starting download of ", plan.url.as_str());
            first.append("...");
            lines.push(first);
            InstallStage::CreatingDirectory
        },
        InstallStage::CreatingDirectory => match &outcome {
            Ok(_) => InstallStage::Downloading,
            Err(e) => {
                lines.push(line("Failed to create minecraft directory: ", e.as_str()));
                InstallStage::Finished
            },
        },
        InstallStage::Downloading => match &outcome {
            Ok(_) => {
                lines.push("Download successful. Accepting EULA...".to_owned());
                InstallStage::AcceptingEula
            },
            Err(e) => {
                lines.push(line("Failed to download server: ", e.as_str()));
                InstallStage::Finished
            },
        },
        InstallStage::AcceptingEula => {
            match &outcome {
                Ok(_) => {
                    lines.push("EULA accepted.".to_owned());
                },
                Err(e) => {
                    lines.push(line("Failed to accept EULA: ", e.as_str()));
                },
            }
            InstallStage::WritingMetadata
        },
        InstallStage::WritingMetadata => {
            match &outcome {
                Ok(_) => {
                    let mut told: String = line("METADATA: ", plan.server_type.as_str());
                    told.append(" ");
                    told.append(plan.version.as_str());
                    lines.push(told);
                },
                Err(e) => {
                    lines.push(line("Failed to create metadata: ", e.as_str()));
                },
            }
            InstallStage::WritingDefaults
        },
        InstallStage::WritingDefaults => {
            match &outcome {
                Ok(_) => {},
                Err(e) => {
                    lines.push(line("Failed to create default server files: ", e.as_str()));
                },
            }
            lines.push("Installation complete! You can now start the server.".to_owned());
            InstallStage::Finished
        },
        InstallStage::Finished => InstallStage::Finished,
    };
    assert(texts(lines@) =~= install_lines(plan@, stage, outcome_text(outcome)));
    (next, lines)
}

/// The line that is told before a mod is installed.
pub fn mod_announcement(url: &str) -> (r: String)
    ensures
        r@ == "Installing mod from "@ + url@ + "..."@,
{
    let mut r: String = line("Installing mod from ", url);
    r.append("...");
    r
}

/// The line that is told after a mod was installed, or could not be.
pub fn mod_report(filename: &str, outcome: Result<(), String>) -> (r: String)
    ensures
        r@ == (match outcome {
            Ok(_) => "Mod installed: "@ + filename@,
            Err(e) => "Failed to install mod: "@ + e@,
        }),
{
    match outcome {
        Ok(_) => line("Mod installed: ", filename),
        Err(e) => line("Failed to install mod: ", e.as_str()),
    }
}

/// The number of steps that are left of an installation.
pub open spec fn install_steps_left(stage: InstallStage) -> nat {
    match stage {
        InstallStage::Begin => 6,
        InstallStage::CreatingDirectory => 5,
        InstallStage::Downloading => 4,
        InstallStage::AcceptingEula => 3,
        InstallStage::WritingMetadata => 2,
        InstallStage::WritingDefaults => 1,
        InstallStage::Finished => 0,
    }
}

/// All that is told from a stage on, where `answers` says how the work of each stage ends.
pub open spec fn install_log(
    plan: PlanTexts,
    stage: InstallStage,
    answers: spec_fn(InstallStage) -> Result<(), Seq<char>>,
) -> Seq<Seq<char>>
    decreases install_steps_left(stage),
{
    if stage == InstallStage::Finished {
        Seq::empty()
    } else {
        install_lines(plan, stage, answers(stage)) + install_log(
            plan,
            install_next(stage, answers(stage) is Ok),
            answers,
        )
    }
}

/// An installation is announced as complete exactly where the directory could be made and the
/// server was downloaded, whatever else fails; and nothing is told after that.
pub proof fn completion_is_announced_truly(
    plan: PlanTexts,
    answers: spec_fn(InstallStage) -> Result<(), Seq<char>>,
)
    ensures
        ({
            let log = install_log(plan, InstallStage::Begin, answers);
            let installed = answers(InstallStage::CreatingDirectory) is Ok && answers(
                InstallStage::Downloading,
            ) is Ok;
            &&& log.contains(install_complete()) <==> installed
            &&& installed ==> log.last() == install_complete()
        }),
{
    reveal_with_fuel(install_log, 8);
    reveal_strlit("Starting download of ");
    reveal_strlit("Installation complete! You can now start the server.");
    reveal_strlit("Failed to create minecraft directory: ");
    reveal_strlit("Failed to download server: ");
    let log = install_log(plan, InstallStage::Begin, answers);
    assert(install_complete()[0] == 'I');
    let first = "Starting download of "@ + plan.url + "..."@;
    assert(first[0] == 'S');
    match answers(InstallStage::CreatingDirectory) {
        Err(e) => {
            let failed = "Failed to create minecraft directory: "@ + e;
            assert(failed[0] == 'F');
            assert(log =~= seq![first, failed]);
        },
        Ok(_) => match answers(InstallStage::Downloading) {
            Err(e) => {
                let failed = "Failed to download server: "@ + e;
                assert(failed[0] == 'F');
                assert(log =~= seq![first, failed]);
            },
            Ok(_) => {
                assert(log.last() == install_complete());
                assert(log[log.len() - 1] == install_complete());
            },
        },
    }
}

/// The work of an installation from a stage on, in order, where `answers` says how that of each
/// stage ends.
pub open spec fn install_work(
    stage: InstallStage,
    answers: spec_fn(InstallStage) -> Result<(), Seq<char>>,
) -> Seq<InstallStage>
    decreases install_steps_left(stage),
{
    if stage == InstallStage::Finished {
        Seq::empty()
    } else {
        seq![stage] + install_work(install_next(stage, answers(stage) is Ok), answers)
    }
}

/// An installation makes the directory, downloads the server, accepts the licence, writes the record
/// and the default files, in this order. It ends early where there is no directory or no server, and
/// nowhere else.
pub proof fn installation_is_done_in_order(
    answers: spec_fn(InstallStage) -> Result<(), Seq<char>>,
)
    ensures
        install_work(InstallStage::Begin, answers) == (if answers(
            InstallStage::CreatingDirectory,
        ) is Err {
            seq![InstallStage::Begin, InstallStage::CreatingDirectory]
        } else if answers(InstallStage::Downloading) is Err {
            seq![InstallStage::Begin, InstallStage::CreatingDirectory, InstallStage::Downloading]
        } else {
            seq![
                InstallStage::Begin,
                InstallStage::CreatingDirectory,
                InstallStage::Downloading,
                InstallStage::AcceptingEula,
                InstallStage::WritingMetadata,
                InstallStage::WritingDefaults,
            ]
        }),
{
    reveal_with_fuel(install_work, 8);
    let done = install_work(InstallStage::Begin, answers);
    if answers(InstallStage::CreatingDirectory) is Err {
        assert(done =~= seq![InstallStage::Begin, InstallStage::CreatingDirectory]);
    } else if answers(InstallStage::Downloading) is Err {
        assert(done =~= seq![
            InstallStage::Begin,
            InstallStage::CreatingDirectory,
            InstallStage::Downloading,
        ]);
    } else {
        assert(done =~= seq![
            InstallStage::Begin,
            InstallStage::CreatingDirectory,
            InstallStage::Downloading,
            InstallStage::AcceptingEula,
            InstallStage::WritingMetadata,
            InstallStage::WritingDefaults,
        ]);
    }
}

/// All that is told of an installation, from its beginning to its end: the whole address, the whole
/// kind and version of the server, and the whole error of whatever failed.
pub proof fn installation_is_told_whole(
    plan: PlanTexts,
    answers: spec_fn(InstallStage) -> Result<(), Seq<char>>,
)
    ensures
        ({
            let log = install_log(plan, InstallStage::Begin, answers);
            let first = "Starting download of "@ + plan.url + "..."@;
            match answers(InstallStage::CreatingDirectory) {
                Err(e) => log == seq![first, "Failed to create minecraft directory: "@ + e],
                Ok(_) => match answers(InstallStage::Downloading) {
                    Err(e) => log == seq![first, "Failed to download server: "@ + e],
                    Ok(_) => {
                        &&& log.len() == 5 + (if answers(InstallStage::WritingDefaults) is Err {
                            1int
                        } else {
                            0
                        })
                        &&& log[0] == first
                        &&& log[1] == "Download successful. Accepting EULA..."@
                        &&& log[2] == (match answers(InstallStage::AcceptingEula) {
                            Ok(_) => "EULA accepted."@,
                            Err(e) => "Failed to accept EULA: "@ + e,
                        })
                        &&& log[3] == (match answers(InstallStage::WritingMetadata) {
                            Ok(_) => "METADATA: "@ + plan.server_type + " "@ + plan.version,
                            Err(e) => "Failed to create metadata: "@ + e,
                        })
                        &&& answers(InstallStage::WritingDefaults) matches Err(e) ==> log[4]
                            == "Failed to create default server files: "@ + e
                        &&& log.last() == "Installation complete! You can now start the server."@
                    },
                },
            }
        }),
{
    reveal_with_fuel(install_log, 8);
    let log = install_log(plan, InstallStage::Begin, answers);
    let first = "Starting download of "@ + plan.url + "..."@;
    match answers(InstallStage::CreatingDirectory) {
        Err(e) => {
            assert(log =~= seq![first, "Failed to create minecraft directory: "@ + e]);
        },
        Ok(_) => match answers(InstallStage::Downloading) {
            Err(e) => {
                assert(log =~= seq![first, "Failed to download server: "@ + e]);
            },
            Ok(_) => {},
        },
    }
}

/// What is said of a failed download ends with the whole text of its status.
pub proof fn failed_download_names_its_status(code: u16)
    ensures
        ({
            let s = download_failure(code);
            &&& s.take(17) == "Download failed: "@
            &&& s.skip(17) == status_line(code)
        }),
{
    reveal_strlit("Download failed: ");
    assert(download_failure(code).take(17) =~= "Download failed: "@);
    assert(download_failure(code).skip(17) =~= status_line(code));
}

/// Records, plans and errors are seen whole.
pub proof fn records_are_seen_whole(m: ServerMetadata, p: InstallPlan, e: String)
    ensures
        outcome_text(Err(e)) == Err::<(), Seq<char>>(e@),
        outcome_text(Ok(())) == Ok::<(), Seq<char>>(()),
        m@.server_type == m.server_type@,
        m@.version == m.version@,
        p@.url == p.url@,
        p@.server_type == p.server_type@,
        p@.version == p.version@,
{
}

} // verus!
