use conductor_agent::agent::{
    config_path, console_line, mods_directory, properties_reply, server_directory, Agent,
    BackendAction, ConsoleOutcome, Level,
};
use conductor_agent::config::{encrypted, AgentConfig};
use conductor_agent::console::{parse_command, ConsoleCommand};
use conductor_agent::installer::ServerMetadata;
use conductor_agent::properties::{read_server_properties, ServerProperties};
use conductor_agent::protocol::{exit_message, log_message, properties_message, BackendMessage};
use conductor_agent::server::{ServerError, ServerEvent};
use conductor_agent::session::{dial, Phase, SessionEvent, HEARTBEAT_SECONDS, RETRY_SECONDS};

fn config(ram: &str, id: &str, url: &str) -> AgentConfig {
    AgentConfig { ram_mb: ram.to_string(), agent_id: id.to_string(), backend_url: url.to_string() }
}

fn agent() -> Agent<u8, u8> {
    Agent::new(config("4G", "a1", "ws://host"), ServerMetadata::at_startup(None))
}

#[test]
fn settings_have_a_fallback() {
    let c = AgentConfig::at_startup(None);
    assert_eq!(c.ram_mb, "4G");
    assert_eq!(c.agent_id, "test-agent");
    assert_eq!(c.backend_url, "ws://127.0.0.1:8000");
    assert_eq!(AgentConfig::at_startup(Some(config("1G", "x", "y"))).clone().agent_id, "x");
    assert_eq!(AgentConfig::default().agent_id, "");
    assert_eq!(config_path(), "conductor_config.json");
    assert_eq!(server_directory(), "minecraft");
}

#[test]
fn address_is_made_of_backend_and_identifier() {
    let d = dial(&config("", "a1", "ws://host:8000//"));
    assert_eq!(d.address, "ws://host:8000/ws/agent/a1");
    assert!(!d.encrypted);
    let d = dial(&config("", "a1", "wss://host"));
    assert_eq!(d.address, "wss://host/ws/agent/a1");
    assert!(d.encrypted);
    assert_eq!(dial(&config("", "a", "ws://h/")).address, dial(&config("", "a", "ws://h")).address);
    assert!(!dial(&config("", "a", "wss://")).encrypted);
    assert!(encrypted("wss://x") && !encrypted("ws://x"));
}

#[test]
fn memory_setting_makes_the_arguments() {
    assert_eq!(config("4G", "", "").launch_args(), ["-Xms4G", "-Xmx4G", "nogui"]);
    assert_eq!(config("", "", "").launch_args(), ["nogui"]);
}

#[test]
fn java_gets_the_memory_before_the_jar() {
    let a = agent();
    let plan = a
        .server
        .start("minecraft/server.jar", a.config.launch_args(), None)
        .unwrap_or_else(|_| panic!("refused"));
    assert_eq!(plan.args, ["-Xms4G", "-Xmx4G", "-jar", "minecraft/server.jar", "nogui"]);
}

#[test]
fn heartbeat_reports_the_state() {
    let mut a = agent();
    let h = a.heartbeat(10, 20);
    assert_eq!(h.type_, "HEARTBEAT");
    assert_eq!((h.ram_usage, h.ram_total), (10, 20));
    assert_eq!(h.server_status, "OFFLINE");
    assert_eq!(h.config.agent_id, "a1");
    assert_eq!(h.metadata, "Unknown ?");
    a.server.started(1, 2, None);
    assert_eq!(a.heartbeat(0, 0).server_status, "ONLINE");
}

#[test]
fn reloading_keeps_what_could_not_be_read() {
    let mut a = agent();
    a.reload(None, None);
    assert_eq!(a.config.agent_id, "a1");
    a.reload(Some(config("1G", "b2", "u")), None);
    assert_eq!(a.config.agent_id, "b2");
    assert_eq!(a.metadata.version, "?");
    let m = ServerMetadata { server_type: "Paper".to_string(), version: "1".to_string() };
    a.reload(None, Some(m));
    assert_eq!(a.metadata.version, "1");
    assert_eq!(a.config.agent_id, "b2");
}

#[test]
fn messages_are_json() {
    assert_eq!(log_message("hi"), r#"{"payload":{"line":"hi"},"type":"LOG"}"#);
    assert_eq!(
        log_message("say \"x\"\n\u{1}\\"),
        r#"{"payload":{"line":"say \"x\"\n\u0001\\"},"type":"LOG"}"#
    );
    assert_eq!(exit_message(Some(-1)), r#"{"payload":{"code":-1},"type":"SERVER_EXIT"}"#);
    assert_eq!(exit_message(None), r#"{"payload":{"code":null},"type":"SERVER_EXIT"}"#);
    let p = read_server_properties("motd=Hi \"all\"\ndifficulty=easy\n");
    assert_eq!(
        properties_message(&p),
        r#"{"payload":{"difficulty":"easy","motd":"Hi \"all\""},"type":"PROPERTIES"}"#
    );
    assert_eq!(
        properties_message(&ServerProperties::new()),
        r#"{"payload":{},"type":"PROPERTIES"}"#
    );
}

#[test]
fn messages_parse_as_json() {
    let v: serde_json::Value = serde_json::from_str(&log_message("tab\there")).unwrap();
    assert_eq!(v["type"], "LOG");
    assert_eq!(v["payload"]["line"], "tab\there");
}

#[test]
fn different_lines_give_different_messages() {
    let lines = ["", "\"", "\\", "\\\"", "\n", "n", "\\n", "\u{1}", "\\u0001", "\u{1f}", "\u{7f}", "a", "ab"];
    for a in lines {
        for b in lines {
            assert_eq!(log_message(a) == log_message(b), a == b);
        }
        let v: serde_json::Value = serde_json::from_str(&log_message(a)).unwrap();
        assert_eq!(v["payload"]["line"], a);
    }
}

#[test]
fn output_is_passed_on() {
    let r = agent().on_server_event(ServerEvent::Output("Done".to_string()));
    assert!(!r.remove_pid_file);
    assert_eq!(r.messages.len(), 1);
    assert_eq!(r.messages[0].text, log_message("Done"));
    assert!(r.messages[0].required);
}

#[test]
fn end_of_the_server_is_noted_and_told() {
    let mut a = agent();
    a.server.started(1, 2, Some(3));
    let r = a.on_server_event(ServerEvent::Exit(Some(1)));
    assert!(!a.server.is_running());
    assert!(r.remove_pid_file);
    let texts: Vec<&str> = r.messages.iter().map(|m| m.text.as_str()).collect();
    assert_eq!(texts, [exit_message(Some(1)), log_message("Server exited: Some(1)")]);
    assert!(r.messages.iter().all(|m| !m.required));
}

#[test]
fn console_commands_are_read() {
    assert!(matches!(parse_command(" \t"), ConsoleCommand::Nothing));
    assert!(matches!(parse_command("set-id"), ConsoleCommand::SetId(None)));
    assert!(matches!(parse_command(" set-id  x y"), ConsoleCommand::SetId(Some(id)) if id == "x"));
    assert!(matches!(parse_command("set-url u"), ConsoleCommand::SetUrl(Some(u)) if u == "u"));
    assert!(matches!(parse_command("Status"), ConsoleCommand::Unknown(w) if w == "Status"));
    assert_eq!(console_line("  set-id x \n"), Some("set-id x".to_string()));
    assert_eq!(console_line(" \r\n"), None);
}

#[test]
fn console_changes_the_settings() {
    let mut a = agent();
    assert!(matches!(a.on_console("set-id b2"), ConsoleOutcome::SaveAndReconnect(told)
        if told == "Agent ID updated to: b2"));
    assert_eq!(dial(&a.config).address, "ws://host/ws/agent/b2");
    assert!(matches!(a.on_console("set-url wss://other/"), ConsoleOutcome::SaveAndReconnect(told)
        if told == "Backend URL updated to: wss://other/"));
    assert_eq!(dial(&a.config).address, "wss://other/ws/agent/b2");
}

#[test]
fn console_answers() {
    let mut a = agent();
    let mut told = |line: &str| match a.on_console(line) {
        ConsoleOutcome::Tell(level, text) => Some((level, text)),
        _ => None,
    };
    assert_eq!(told("set-id"), Some((Level::Error, "Usage: set-id <new_id>".to_string())));
    assert_eq!(
        told("status"),
        Some((Level::Info, "Status: Backend=ws://host, ID=a1, Server=OFFLINE".to_string()))
    );
    assert_eq!(
        told("help"),
        Some((
            Level::Info,
            "Available commands: set-id <id>, set-url <url>, status, help".to_string()
        ))
    );
    assert_eq!(told("jump high"), Some((Level::Warning, "Unknown command: jump".to_string())));
    assert_eq!(told("set-url"), None);
    assert_eq!(told(""), None);
}

#[test]
fn console_is_limited_without_a_connection() {
    let mut a = agent();
    assert_eq!(a.on_console_offline("set-id b2", true), None);
    assert_eq!(a.config.agent_id, "a1");
    assert_eq!(
        a.on_console_offline("set-id b2", false),
        Some("Agent ID updated to: b2".to_string())
    );
    assert_eq!(a.config.agent_id, "b2");
    assert_eq!(
        a.on_console_offline("set-url ws://x", true),
        Some("Backend URL updated to: ws://x".to_string())
    );
    assert_eq!(a.config.backend_url, "ws://x");
    assert_eq!(a.on_console_offline("status", false), None);
    assert_eq!(a.on_console_offline("set-url", false), None);
}

#[test]
fn backend_starts_and_stops() {
    let mut a = agent();
    let start = BackendMessage::StartServer { jar_path: "other.jar".to_string() };
    assert!(matches!(a.on_backend(start), BackendAction::StartServer(args)
        if args == ["-Xms4G", "-Xmx4G", "nogui"]));
    assert!(matches!(a.on_backend(BackendMessage::StopServer), BackendAction::StopServer));
    let update = BackendMessage::UpdateConfig { ram_mb: "8G".to_string() };
    assert!(matches!(a.on_backend(update), BackendAction::SaveConfig));
    let start = BackendMessage::StartServer { jar_path: String::new() };
    assert!(matches!(a.on_backend(start), BackendAction::StartServer(args)
        if args == ["-Xms8G", "-Xmx8G", "nogui"]));
}

#[test]
fn backend_commands_the_server() {
    let mut a = agent();
    let say = || BackendMessage::Command { command: "say hi".to_string() };
    assert!(matches!(a.on_backend(say()), BackendAction::CommandRefused(ServerError::NoStdin)));
    a.server.started(1, 2, None);
    assert!(matches!(a.on_backend(say()), BackendAction::WriteToServer(t) if t == "say hi\n"));
}

#[test]
fn backend_reads_and_writes_settings() {
    let mut a = agent();
    assert!(matches!(
        a.on_backend(BackendMessage::ReadProperties),
        BackendAction::SendProperties
    ));
    let properties = read_server_properties("b=2\na=1\n");
    let reply = properties_reply(Some(&properties));
    assert_eq!(reply.text, r#"{"payload":{"a":"1","b":"2"},"type":"PROPERTIES"}"#);
    assert!(!reply.required);
    assert_eq!(
        properties_reply(None).text,
        log_message("server.properties not found - server may not have been started yet")
    );
    match a.on_backend(BackendMessage::WriteProperties { properties }) {
        BackendAction::WriteFile(file) => {
            assert_eq!(file.path, "minecraft/server.properties");
            assert!(file.content.ends_with(")\na=1\nb=2\n"));
        }
        _ => panic!("no file"),
    }
}

#[test]
fn backend_installs() {
    let mut a = agent();
    let install = BackendMessage::InstallServer {
        url: "u".to_string(),
        filename: "f".to_string(),
        server_type: "Paper".to_string(),
        version: "1".to_string(),
    };
    assert!(matches!(a.on_backend(install), BackendAction::InstallServer(p)
        if p.url == "u" && p.server_type == "Paper" && p.version == "1"));
    let install = BackendMessage::InstallMod { url: "u".to_string(), filename: "f".to_string() };
    assert!(matches!(a.on_backend(install), BackendAction::InstallMod { url, filename, directory }
        if url == "u" && filename == "f" && directory == "minecraft/mods"));
    assert_eq!(mods_directory(), "minecraft/mods");
}

#[test]
fn connection_is_made_again() {
    let p = Phase::Connecting.after(SessionEvent::ConnectFailed);
    assert_eq!(p, Phase::Retrying { no_encryption: false });
    let p = p.after(SessionEvent::PauseOver);
    assert_eq!(p, Phase::Connecting);
    assert_eq!(
        p.after(SessionEvent::EncryptionFailed),
        Phase::Retrying { no_encryption: true }
    );
    let serving = p.after(SessionEvent::Connected);
    assert_eq!(serving, Phase::Serving);
    for lost in [
        SessionEvent::ReadFailed,
        SessionEvent::Closed,
        SessionEvent::SettingsChanged,
        SessionEvent::SendFailed { required: true },
    ] {
        assert_eq!(serving.after(lost), Phase::Connecting);
    }
    assert_eq!(serving.after(SessionEvent::SendFailed { required: false }), Phase::Serving);
    let mut p = Phase::Connecting;
    for event in [
        SessionEvent::Connected,
        SessionEvent::Closed,
        SessionEvent::EncryptionFailed,
        SessionEvent::PauseOver,
        SessionEvent::Connected,
    ] {
        p = p.after(event);
    }
    assert_eq!(p, Phase::Serving);
}

#[test]
fn agent_waits_five_seconds() {
    assert_eq!(RETRY_SECONDS, 5);
    assert_eq!(HEARTBEAT_SECONDS, 5);
}

#[test]
fn agent_leaves_when_told_to() {
    let p = Phase::Serving.after(SessionEvent::ShutdownRequested);
    assert_eq!(p, Phase::Stopping);
    let p = p.after(SessionEvent::ServerStopped);
    assert_eq!(p, Phase::Exited { in_order: true });
    assert_eq!(p.after(SessionEvent::Connected), p);
    assert_eq!(
        Phase::Serving.after(SessionEvent::SaveFailed),
        Phase::Exited { in_order: false }
    );
    assert_eq!(Phase::Connecting.after(SessionEvent::ShutdownRequested), Phase::Connecting);
}
