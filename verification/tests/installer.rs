use conductor_agent::installer::{
    accept_eula, create_metadata_file, download_error, download_file, install_mod, install_step, metadata_path,
    mod_announcement, mod_report, server_jar_path, InstallPlan, InstallStage, ServerMetadata,
};

fn plan() -> InstallPlan {
    InstallPlan {
        url: "http://host/paper.jar".to_string(),
        server_type: "Paper".to_string(),
        version: "1.20".to_string(),
    }
}

// Carries an installation to its end; the work of the stage `failing` fails.
fn log(failing: Option<InstallStage>) -> Vec<String> {
    let plan = plan();
    let mut stage = InstallStage::Begin;
    let mut all = Vec::new();
    while stage != InstallStage::Finished {
        let outcome = if Some(stage) == failing { Err("broken".to_string()) } else { Ok(()) };
        let (next, lines) = install_step(&plan, stage, outcome);
        all.extend(lines);
        stage = next;
    }
    all
}

const COMPLETE: &str = "Installation complete! You can now start the server.";

#[test]
fn downloads_need_success() {
    assert_eq!(download_error("418 I'm a teapot"), "Download failed: 418 I'm a teapot");
    assert_eq!(download_file("a", 999), Err("Download failed: 999 <unknown status code>".to_string()));
    assert_eq!(download_file("a", 100), Err("Download failed: 100 Continue".to_string()));
    assert_eq!(download_file("minecraft/server.jar", 200), Ok("minecraft/server.jar".to_string()));
    assert_eq!(download_file("a", 299), Ok("a".to_string()));
    assert_eq!(download_file("a", 404), Err("Download failed: 404 Not Found".to_string()));
    assert_eq!(download_file("a", 199), Err("Download failed: 199 <unknown status code>".to_string()));
    assert_eq!(download_file("a", 300), Err("Download failed: 300 Multiple Choices".to_string()));
}

#[test]
fn mods_go_into_their_directory() {
    assert_eq!(
        install_mod("fast.jar", "minecraft/mods", 200),
        Ok("minecraft/mods/fast.jar".to_string())
    );
    assert_eq!(install_mod("/tmp/fast.jar", "minecraft", 204), Ok("/tmp/fast.jar".to_string()));
    assert_eq!(
        install_mod("fast.jar", "minecraft", 500),
        Err("Download failed: 500 Internal Server Error".to_string())
    );
    assert_eq!(mod_announcement("http://host/m"), "Installing mod from http://host/m...");
    assert_eq!(mod_report("fast.jar", Ok(())), "Mod installed: fast.jar");
    assert_eq!(
        mod_report("fast.jar", Err("no space".to_string())),
        "Failed to install mod: no space"
    );
}

#[test]
fn files_of_an_installation() {
    let eula = accept_eula("minecraft");
    assert_eq!(eula.path, "minecraft/eula.txt");
    assert_eq!(eula.content, "eula=true\n");
    let record = create_metadata_file("Paper", "1.20");
    assert_eq!(record.path, "conductor_metadata.json");
    assert_eq!(metadata_path(), record.path);
    assert_eq!(
        record.content,
        "{\n  \"server_type\": \"Paper\",\n  \"version\": \"1.20\"\n}"
    );
    assert_eq!(server_jar_path(), "minecraft/server.jar");
}

#[test]
fn unknown_server_has_a_fallback() {
    let m = ServerMetadata::at_startup(None);
    assert_eq!((m.server_type.as_str(), m.version.as_str()), ("Unknown", "?"));
    let paper = ServerMetadata { server_type: "Paper".to_string(), version: "1.20".to_string() };
    assert_eq!(ServerMetadata::at_startup(Some(paper)).clone().server_type, "Paper");
}

#[test]
fn record_of_an_installation_determines_the_server() {
    let texts = ["", "Paper", "a\"b", "two\nlines", "\",\n  \"version\": \"", "\u{1}\\", "\u{e9}\u{1f600}"];
    let mut seen: Vec<String> = Vec::new();
    for t in texts {
        for v in texts {
            let content = create_metadata_file(t, v).content;
            let parsed: serde_json::Value = serde_json::from_str(&content).unwrap();
            assert_eq!(parsed["server_type"], t);
            assert_eq!(parsed["version"], v);
            assert_eq!(content.lines().count(), 4);
            assert!(!seen.contains(&content));
            seen.push(content);
        }
    }
}

#[test]
fn installation_is_told_step_by_step() {
    assert_eq!(
        log(None),
        [
            "Starting download of http://host/paper.jar...",
            "Download successful. Accepting EULA...",
            "EULA accepted.",
            "METADATA: Paper 1.20",
            COMPLETE,
        ]
    );
}

#[test]
fn early_failures_end_an_installation() {
    assert_eq!(
        log(Some(InstallStage::CreatingDirectory)).last().unwrap(),
        "Failed to create minecraft directory: broken"
    );
    assert_eq!(
        log(Some(InstallStage::Downloading)).last().unwrap(),
        "Failed to download server: broken"
    );
    assert!(log(Some(InstallStage::CreatingDirectory)).iter().all(|l| l != COMPLETE));
    assert!(log(Some(InstallStage::Downloading)).iter().all(|l| l != COMPLETE));
}

#[test]
fn late_failures_do_not_end_an_installation() {
    for (stage, line) in [
        (InstallStage::AcceptingEula, "Failed to accept EULA: broken"),
        (InstallStage::WritingMetadata, "Failed to create metadata: broken"),
        (InstallStage::WritingDefaults, "Failed to create default server files: broken"),
    ] {
        let lines = log(Some(stage));
        assert!(lines.iter().any(|l| l == line));
        assert_eq!(lines.last().unwrap(), COMPLETE);
    }
}
