//! The agent as a whole: how it answers its server, its backend and its operator.

use crate::config::{agent_address, heartbeat, launch_args_for, status_text, status_word, AgentConfig, ConfigTexts, Heartbeat};
use crate::console::{command_in, parse_command, CommandTexts, ConsoleCommand};
use crate::installer::{InstallPlan, MetadataTexts, PlanTexts, ServerMetadata};
use crate::paths::FileWrite;
use crate::properties::{properties_file, properties_text, write_server_properties, ServerProperties};
use crate::protocol::{exit_json, exit_message, log_json, log_message, properties_json, properties_message, BackendMessage};
use crate::server::{code_text, code_words, is_jvm_arg, java_args, jvm_args, program_args, ServerError, ServerEvent, ServerProcess, ServerState};
use crate::text::{opt_text, texts, trim, trimmed};
use vstd::prelude::*;

verus! {

/// The agent: its settings, what it knows of the installed server, and the server itself.
pub struct Agent<C, S> {
    pub config: AgentConfig,
    pub metadata: ServerMetadata,
    pub server: ServerProcess<C, S>,
}

/// The state of an [`Agent`].
pub struct AgentState<C, S> {
    pub config: ConfigTexts,
    pub metadata: MetadataTexts,
    pub server: ServerState<C, S>,
}

impl<C, S> View for Agent<C, S> {
    type V = AgentState<C, S>;

    open spec fn view(&self) -> AgentState<C, S> {
        AgentState { config: self.config@, metadata: self.metadata@, server: self.server@ }
    }
}

/// A message to the backend. Where a required one cannot be sent the connection is given up; any
/// other is dropped.
#[derive(Debug)]
pub struct Outgoing {
    pub text: String,
    pub required: bool,
}

/// What follows an event of the server: whether its process number file goes, and what is sent
/// once it is gone.
#[derive(Debug)]
pub struct ServerReport {
    pub remove_pid_file: bool,
    pub messages: Vec<Outgoing>,
}

/// The messages of a row, with whether each is required.
pub open spec fn outgoing_texts(v: Seq<Outgoing>) -> Seq<(Seq<char>, bool)> {
    v.map_values(|m: Outgoing| (m.text@, m.required))
}

/// How much weight a line on the agent's own console has.
#[derive(Debug, Clone, Copy, PartialEq, Eq, Structural)]
pub enum Level {
    Info,
    Warning,
    Error,
}

/// What follows a command from the console while there is a connection.
#[derive(Debug)]
pub enum ConsoleOutcome {
    Nothing,
    /// Say that a setting changed, save the settings and connect anew.
    SaveAndReconnect(String),
    /// Say this on the console.
    Tell(Level, String),
}

/// What follows a message from the backend.
pub enum BackendAction {
    /// Go through what precedes a launch, and launch a server with these arguments.
    StartServer(Vec<String>),
    /// Stop the server gracefully.
    StopServer,
    /// Write this to the server.
    WriteToServer(String),
    /// Say that a command could not be written.
    CommandRefused(ServerError),
    /// Save the settings.
    SaveConfig,
    /// Read the settings of the server and send them.
    SendProperties,
    /// Write this file; a failure is passed over.
    WriteFile(FileWrite),
    /// Install a server.
    InstallServer(InstallPlan),
    /// Install a mod into this directory.
    InstallMod { url: String, filename: String, directory: String },
}

/// The directory that the server lives in.
pub fn server_directory() -> (r: String)
    ensures
        r@ == "minecraft"@,
{
    "minecraft".to_owned()
}

/// The directory that the mods of the server live in.
pub fn mods_directory() -> (r: String)
    ensures
        r@ == "minecraft/mods"@,
{
    "minecraft/mods".to_owned()
}

/// Where the agent's settings are kept.
pub fn config_path() -> (r: String)
    ensures
        r@ == "conductor_config.json"@,
{
    "conductor_config.json".to_owned()
}

/// The line that a line from the console is passed on as, unless it is blank.
pub fn console_line(raw: &str) -> (r: Option<String>)
    ensures
        opt_text(r) == (if trimmed(raw@).len() == 0 {
            None
        } else {
            Some(trimmed(raw@))
        }),
{
    let line: String = trim(raw);
    if line.as_str().is_empty() {
        None
    } else {
        Some(line)
    }
}

/// The answer to a request for the settings of the server: the settings, or a line that says why
/// there are none. It is not required to arrive.
pub fn properties_reply(props: Option<&ServerProperties>) -> (r: Outgoing)
    requires
        props is Some ==> props->0.wf(),
    ensures
        !r.required,
        r.text@ == (match props {
            Some(p) => properties_json(p.pairs()),
            None => log_json(
                "server.properties not found - server may not have been started yet"@,
            ),
        }),
{
    let text: String = match props {
        Some(p) => properties_message(p),
        None => log_message("server.properties not found - server may not have been started yet"),
    };
    Outgoing { text, required: false }
}

/// The line that the command `status` is answered with.
pub open spec fn status_line<C, S>(agent: AgentState<C, S>) -> Seq<char> {
    "Status: Backend="@ + agent.config.backend_url + ", ID="@ + agent.config.agent_id + ", Server="@
        + status_word(agent.server.running())
}

/// The settings after a command from the console.
pub open spec fn config_after(config: ConfigTexts, command: CommandTexts) -> ConfigTexts {
    match command {
        CommandTexts::SetId(Some(id)) => ConfigTexts { agent_id: id, ..config },
        CommandTexts::SetUrl(Some(url)) => ConfigTexts { backend_url: url, ..config },
        _ => config,
    }
}

/// What is said of a command that changes a setting.
pub open spec fn change_words(command: CommandTexts) -> Option<Seq<char>> {
    match command {
        CommandTexts::SetId(Some(id)) => Some("Agent ID updated to: "@ + id),
        CommandTexts::SetUrl(Some(url)) => Some("Backend URL updated to: "@ + url),
        _ => None,
    }
}

impl<C, S> Agent<C, S> {
    /// An agent without a server.
    pub fn new(config: AgentConfig, metadata: ServerMetadata) -> (r: Self)
        ensures
            r@ == (AgentState {
                config: config@,
                metadata: metadata@,
                server: ServerState::<C, S>::none(),
            }),
    {
        Agent { config, metadata, server: ServerProcess::new() }
    }

    /// Takes over settings and records that were read again; what could not be read stays.
    pub fn reload(&mut self, config: Option<AgentConfig>, metadata: Option<ServerMetadata>)
        ensures
            final(self)@ == (AgentState {
                config: match config {
                    Some(c) => c@,
                    None => old(self)@.config,
                },
                metadata: match metadata {
                    Some(m) => m@,
                    None => old(self)@.metadata,
                },
                server: old(self)@.server,
            }),
    {
        match metadata {
            Some(m) => {
                self.metadata = m;
            },
            None => {},
        }
        match config {
            Some(c) => {
                self.config = c;
            },
            None => {},
        }
    }

    /// The report on the agent and its server.
    pub fn heartbeat(&self, ram_usage: u64, ram_total: u64) -> (r: Heartbeat)
        ensures
            r.type_@ == "HEARTBEAT"@,
            r.ram_usage == ram_usage,
            r.ram_total == ram_total,
            r.server_status@ == status_word(self@.server.running()),
            r.config@ == self@.config,
            r.metadata@ == self@.metadata.server_type + " "@ + self@.metadata.version,
    {
        heartbeat(&self.config, &self.metadata, self.server.is_running(), ram_usage, ram_total)
    }

    /// Passes an event of the server on. The end of the server is first taken note of: whatever
    /// was held of it is dropped.
    pub fn on_server_event(&mut self, event: ServerEvent) -> (r: ServerReport)
        ensures
            match event {
                ServerEvent::Output(line) => {
                    &&& final(self)@ == old(self)@
                    &&& !r.remove_pid_file
                    &&& outgoing_texts(r.messages@) == seq![(log_json(line@), true)]
                },
                ServerEvent::Exit(code) => {
                    &&& final(self)@ == (AgentState {
                        server: ServerState::<C, S>::none(),
                        ..old(self)@
                    })
                    &&& r.remove_pid_file
                    &&& outgoing_texts(r.messages@) == seq![
                        (exit_json(code), false),
                        (log_json("Server exited: "@ + code_words(code)), false),
                    ]
                },
            },
    {
        let mut messages: Vec<Outgoing> = Vec::new();
        match event {
            ServerEvent::Output(line) => {
                messages.push(Outgoing { text: log_message(line.as_str()), required: true });
                assert(outgoing_texts(messages@) =~= seq![(log_json(line@), true)]);
                ServerReport { remove_pid_file: false, messages }
            },
            ServerEvent::Exit(code) => {
                self.server.cleanup_on_exit();
                let words: String = code_text(code);
                let mut line: String = "Server exited: ".to_owned();
                line.append(words.as_str());
                messages.push(Outgoing { text: exit_message(code), required: false });
                messages.push(Outgoing { text: log_message(line.as_str()), required: false });
                assert(outgoing_texts(messages@) =~= seq![
                    (exit_json(code), false),
                    (log_json("Server exited: "@ + code_words(code)), false),
                ]);
                ServerReport { remove_pid_file: true, messages }
            },
        }
    }

    /// Gives the agent another identifier, and says so.
    fn set_id(&mut self, id: String) -> (told: String)
        ensures
            final(self)@ == (AgentState {
                config: ConfigTexts { agent_id: id@, ..old(self)@.config },
                ..old(self)@
            }),
            told@ == "Agent ID updated to: "@ + id@,
    {
        let mut told: String = "Agent ID updated to: ".to_owned();
        told.append(id.as_str());
        self.config.agent_id = id;
        told
    }

    /// Gives the agent another backend, and says so.
    fn set_url(&mut self, url: String) -> (told: String)
        ensures
            final(self)@ == (AgentState {
                config: ConfigTexts { backend_url: url@, ..old(self)@.config },
                ..old(self)@
            }),
            told@ == "Backend URL updated to: "@ + url@,
    {
        let mut told: String = "Backend URL updated to: ".to_owned();
        told.append(url.as_str());
        self.config.backend_url = url;
        told
    }

    /// Obeys a line from the console while there is a connection.
    pub fn on_console(&mut self, line: &str) -> (r: ConsoleOutcome)
        ensures
            final(self)@ == (AgentState {
                config: config_after(old(self)@.config, command_in(line@)),
                ..old(self)@
            }),
            match change_words(command_in(line@)) {
                Some(words) => r matches ConsoleOutcome::SaveAndReconnect(text) && text@ == words,
                None => match command_in(line@) {
                    CommandTexts::SetId(_) => r matches ConsoleOutcome::Tell(level, text) && level
                        == Level::Error && text@ == "Usage: set-id <new_id>"@,
                    CommandTexts::Status => r matches ConsoleOutcome::Tell(level, text) && level
                        == Level::Info && text@ == status_line(old(self)@),
                    CommandTexts::Help => r matches ConsoleOutcome::Tell(level, text) && level
                        == Level::Info && text@
                        == "Available commands: set-id <id>, set-url <url>, status, help"@,
                    CommandTexts::Unknown(word) => r matches ConsoleOutcome::Tell(level, text)
                        && level == Level::Warning && text@ == "Unknown command: "@ + word,
                    _ => r is Nothing,
                },
            },
    {
        match parse_command(line) {
            ConsoleCommand::Nothing => ConsoleOutcome::Nothing,
            ConsoleCommand::SetId(Some(id)) => ConsoleOutcome::SaveAndReconnect(self.set_id(id)),
            ConsoleCommand::SetId(None) => ConsoleOutcome::Tell(
                Level::Error,
                "Usage: set-id <new_id>".to_owned(),
            ),
            ConsoleCommand::SetUrl(Some(url)) => ConsoleOutcome::SaveAndReconnect(
                self.set_url(url),
            ),
            ConsoleCommand::SetUrl(None) => ConsoleOutcome::Nothing,
            ConsoleCommand::Status => {
                let word: String = status_text(self.server.is_running());
                let mut text: String = "Status: Backend=".to_owned();
                text.append(self.config.backend_url.as_str());
                text.append(", ID=");
                text.append(self.config.agent_id.as_str());
                text.append(", Server=");
                text.append(word.as_str());
                ConsoleOutcome::Tell(Level::Info, text)
            },
            ConsoleCommand::Help => ConsoleOutcome::Tell(
                Level::Info,
                "Available commands: set-id <id>, set-url <url>, status, help".to_owned(),
            ),
            ConsoleCommand::Unknown(word) => {
                let mut text: String = "Unknown command: ".to_owned();
                text.append(word.as_str());
                ConsoleOutcome::Tell(Level::Warning, text)
            },
        }
    }

    /// Obeys a line from the console while there is no connection. Where a setting changed, the
    /// result says so, and the settings are to be saved. Where encryption could not be set up,
    /// only the address of the backend can be changed.
    pub fn on_console_offline(&mut self, line: &str, no_encryption: bool) -> (told: Option<String>)
        ensures
            if no_encryption && command_in(line@) is SetId {
                told is None && final(self)@ == old(self)@
            } else {
                &&& opt_text(told) == change_words(command_in(line@))
                &&& final(self)@ == (AgentState {
                    config: config_after(old(self)@.config, command_in(line@)),
                    ..old(self)@
                })
            },
    {
        match parse_command(line) {
            ConsoleCommand::SetId(Some(id)) => {
                if no_encryption {
                    None
                } else {
                    Some(self.set_id(id))
                }
            },
            ConsoleCommand::SetUrl(Some(url)) => Some(self.set_url(url)),
            _ => None,
        }
    }

    /// Obeys the backend.
    pub fn on_backend(&mut self, message: BackendMessage) -> (r: BackendAction)
        requires
            message matches BackendMessage::WriteProperties { properties } ==> properties.wf(),
        ensures
            final(self)@ == (match message {
                BackendMessage::UpdateConfig { ram_mb } => AgentState {
                    config: ConfigTexts { ram_mb: ram_mb@, ..old(self)@.config },
                    ..old(self)@
                },
                _ => old(self)@,
            }),
            match message {
                BackendMessage::StartServer { jar_path } => r matches BackendAction::StartServer(
                    args,
                ) && texts(args@) == launch_args_for(old(self)@.config.ram_mb),
                BackendMessage::StopServer => r is StopServer,
                BackendMessage::Command { command } => if old(self)@.server.stdin is Some {
                    r matches BackendAction::WriteToServer(text) && text@ == command@ + "\n"@
                } else {
                    r == BackendAction::CommandRefused(ServerError::NoStdin)
                },
                BackendMessage::InstallServer { url, filename, server_type, version } =>
                    r matches BackendAction::InstallServer(plan) && plan@ == (PlanTexts {
                        url: url@,
                        server_type: server_type@,
                        version: version@,
                    }),
                BackendMessage::InstallMod { url, filename } =>
                    r matches BackendAction::InstallMod { url: from, filename: name, directory }
                        && from == url && name == filename && directory@ == "minecraft/mods"@,
                BackendMessage::UpdateConfig { ram_mb } => r is SaveConfig,
                BackendMessage::ReadProperties => r is SendProperties,
                BackendMessage::WriteProperties { properties } =>
                    r matches BackendAction::WriteFile(file) && file.path@ == properties_file(
                        "minecraft"@,
                    ) && file.content@ == properties_text(properties.pairs()),
            },
    {
        match message {
            BackendMessage::StartServer { jar_path: _ } => BackendAction::StartServer(
                self.config.launch_args(),
            ),
            BackendMessage::StopServer => BackendAction::StopServer,
            BackendMessage::Command { command } => match self.server.write_command(
                command.as_str(),
            ) {
                Ok(text) => BackendAction::WriteToServer(text),
                Err(e) => BackendAction::CommandRefused(e),
            },
            BackendMessage::InstallServer { url, filename: _, server_type, version } =>
                BackendAction::InstallServer(InstallPlan { url, server_type, version }),
            BackendMessage::InstallMod { url, filename } => BackendAction::InstallMod {
                url,
                filename,
                directory: mods_directory(),
            },
            BackendMessage::UpdateConfig { ram_mb } => {
                self.config.ram_mb = ram_mb;
                BackendAction::SaveConfig
            },
            BackendMessage::ReadProperties => BackendAction::SendProperties,
            BackendMessage::WriteProperties { properties } => BackendAction::WriteFile(
                write_server_properties(&properties, "minecraft"),
            ),
        }
    }
}

/// The next connection after a command from the console goes to the backend, and under the
/// identifier, that the command gave.
pub proof fn console_settings_reach_the_address(config: ConfigTexts, text: Seq<char>)
    ensures
        ({
            let c = config_after(config, CommandTexts::SetId(Some(text)));
            agent_address(c.backend_url, c.agent_id) == agent_address(config.backend_url, text)
        }),
        ({
            let c = config_after(config, CommandTexts::SetUrl(Some(text)));
            agent_address(c.backend_url, c.agent_id) == agent_address(text, config.agent_id)
        }),
{
}

/// The `java` command for the memory setting `ram`: the virtual machine gets the memory before the
/// jar, the server its own argument behind it.
pub proof fn memory_precedes_the_jar(ram: Seq<char>, jar_path: Seq<char>)
    ensures
        java_args(jar_path, launch_args_for(ram)) == (if ram.len() == 0 {
            seq!["-jar"@, jar_path, "nogui"@]
        } else {
            seq!["-Xms"@ + ram, "-Xmx"@ + ram, "-jar"@, jar_path, "nogui"@]
        }),
{
    reveal_strlit("-X");
    reveal_strlit("-D");
    reveal_strlit("-Xms");
    reveal_strlit("-Xmx");
    reveal_strlit("nogui");
    let args = launch_args_for(ram);
    assert(("-Xms"@ + ram).take(2) =~= "-X"@);
    assert(("-Xmx"@ + ram).take(2) =~= "-X"@);
    assert("nogui"@.take(2)[0] == 'n');
    assert("-X"@[0] == '-' && "-D"@[0] == '-');
    assert(!is_jvm_arg("nogui"@));
    reveal_with_fuel(Seq::filter, 4);
    if ram.len() == 0 {
        assert(args.drop_last() =~= Seq::<Seq<char>>::empty());
        assert(jvm_args(args) =~= Seq::<Seq<char>>::empty());
        assert(program_args(args) =~= seq!["nogui"@]);
    } else {
        assert(args.drop_last() =~= seq!["-Xms"@ + ram, "-Xmx"@ + ram]);
        assert(args.drop_last().drop_last() =~= seq!["-Xms"@ + ram]);
        assert(args.drop_last().drop_last().drop_last() =~= Seq::<Seq<char>>::empty());
        assert(jvm_args(args) =~= seq!["-Xms"@ + ram, "-Xmx"@ + ram]);
        assert(program_args(args) =~= seq!["nogui"@]);
    }
    assert(java_args(jar_path, args) =~= (if ram.len() == 0 {
        seq!["-jar"@, jar_path, "nogui"@]
    } else {
        seq!["-Xms"@ + ram, "-Xmx"@ + ram, "-jar"@, jar_path, "nogui"@]
    }));
}

/// A command from the console that gives a new identifier or a new backend gives the whole of it, is
/// told in whole, and changes nothing else; no other command changes a setting.
pub proof fn console_changes_one_setting(config: ConfigTexts, text: Seq<char>, word: Seq<char>)
    ensures
        ({
            let c = config_after(config, CommandTexts::SetId(Some(text)));
            &&& c.agent_id == text
            &&& c.backend_url == config.backend_url
            &&& c.ram_mb == config.ram_mb
        }),
        ({
            let c = config_after(config, CommandTexts::SetUrl(Some(text)));
            &&& c.backend_url == text
            &&& c.agent_id == config.agent_id
            &&& c.ram_mb == config.ram_mb
        }),
        change_words(CommandTexts::SetId(Some(text))) == Some("Agent ID updated to: "@ + text),
        change_words(CommandTexts::SetUrl(Some(text))) == Some("Backend URL updated to: "@ + text),
        forall|command: CommandTexts|
            (command matches CommandTexts::SetId(id) ==> id is None) && (
            command matches CommandTexts::SetUrl(url) ==> url is None) ==> #[trigger] config_after(
                config,
                command,
            ) == config && change_words(command) is None,
{
}

/// The answer to `status` holds the whole address of the backend, the whole identifier and whether a
/// server runs.
pub proof fn status_is_told_whole<C, S>(agent: AgentState<C, S>)
    ensures
        ({
            let (url, id) = (agent.config.backend_url, agent.config.agent_id);
            let s = status_line(agent);
            let n = 16 + url.len() as int;
            let m = n + 5 + id.len() as int;
            &&& s.take(16) == "Status: Backend="@
            &&& s.subrange(16, n) == url
            &&& s.subrange(n, n + 5) == ", ID="@
            &&& s.subrange(n + 5, m) == id
            &&& s.skip(m) == (if agent.server.child is Some || agent.server.pid is Some {
                ", Server=ONLINE"@
            } else {
                ", Server=OFFLINE"@
            })
        }),
{
    reveal_strlit("Status: Backend=");
    reveal_strlit(", ID=");
    reveal_strlit(", Server=");
    reveal_strlit("ONLINE");
    reveal_strlit("OFFLINE");
    reveal_strlit(", Server=ONLINE");
    reveal_strlit(", Server=OFFLINE");
    let (url, id) = (agent.config.backend_url, agent.config.agent_id);
    let s = status_line(agent);
    let n = 16 + url.len() as int;
    let m = n + 5 + id.len() as int;
    assert(s.take(16) =~= "Status: Backend="@);
    assert(s.subrange(16, n) =~= url);
    assert(s.subrange(n, n + 5) =~= ", ID="@);
    assert(s.subrange(n + 5, m) =~= id);
    if agent.server.child is Some || agent.server.pid is Some {
        assert(s.skip(m) =~= ", Server=ONLINE"@);
    } else {
        assert(s.skip(m) =~= ", Server=OFFLINE"@);
    }
}

/// Messages are seen whole, each in its place.
pub proof fn messages_are_seen_whole(v: Seq<Outgoing>)
    ensures
        outgoing_texts(v).len() == v.len(),
        forall|i: int|
            0 <= i < v.len() ==> (#[trigger] outgoing_texts(v)[i]) == (v[i].text@, v[i].required),
{
}

/// An agent is seen whole: its settings, what it knows of the installed server, and its server.
pub proof fn agent_is_seen_whole<C, S>(a: Agent<C, S>)
    ensures
        a@.config == a.config@,
        a@.metadata == a.metadata@,
        a@.server == a.server@,
{
}

} // verus!
