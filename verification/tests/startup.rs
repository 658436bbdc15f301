use conductor_agent::properties::read_server_properties;
use conductor_agent::startup::{
    after_probe, after_properties, eula_lines, eula_path, Probe, StartStage,
};

#[test]
fn licence_is_reported() {
    assert_eq!(eula_path(), "minecraft/eula.txt");
    assert_eq!(
        eula_lines(Ok("eula=true\n".to_string())),
        ["EULA file found: minecraft/eula.txt", "EULA content: eula=true"]
    );
    assert_eq!(
        eula_lines(Err("not found".to_string())),
        ["EULA missing or unreadable (minecraft/eula.txt) : not found"]
    );
}

#[test]
fn settings_say_which_port_is_probed() {
    let p = read_server_properties("server-port=25570\n");
    let (stage, lines) = after_properties(Some(&p));
    assert_eq!(stage, StartStage::ProbingV4(25570));
    assert!(lines.is_empty());
    let (stage, lines) = after_properties(None);
    assert_eq!(stage, StartStage::Launching);
    assert_eq!(lines, ["No server.properties found; assuming default port 25565"]);
}

#[test]
fn free_port_is_launched_on() {
    let (stage, lines) = after_probe(StartStage::ProbingV4(25565), Probe::Free);
    assert_eq!(stage, StartStage::ProbingV6(25565));
    assert!(lines.is_empty());
    let (stage, lines) = after_probe(stage, Probe::Free);
    assert_eq!(stage, StartStage::Launching);
    assert!(lines.is_empty());
}

#[test]
fn busy_port_is_refused() {
    for stage in [StartStage::ProbingV4(25565), StartStage::ProbingV6(25565)] {
        let (next, lines) = after_probe(stage, Probe::InUse);
        assert_eq!(next, StartStage::Refused);
        assert_eq!(lines, ["Failed to start: port 25565 is in use"]);
    }
}

#[test]
fn other_failures_of_a_probe_do_not_matter() {
    let failed = || Probe::Failed("denied".to_string());
    let (next, lines) = after_probe(StartStage::ProbingV4(80), failed());
    assert_eq!(next, StartStage::ProbingV6(80));
    assert_eq!(lines, ["Port check (IPv4) error for 80: denied"]);
    let (next, lines) = after_probe(next, failed());
    assert_eq!(next, StartStage::Launching);
    assert_eq!(lines, ["Port check (IPv6) error for 80: denied"]);
    assert_eq!(after_probe(StartStage::Refused, Probe::Free).0, StartStage::Refused);
    assert_eq!(after_probe(StartStage::Launching, Probe::InUse).0, StartStage::Launching);
}
