use conductor_agent::properties::{
    properties_path, read_server_properties, seed_server_properties, write_server_properties,
    ServerProperties, DEFAULT_PROPERTIES,
};
use conductor_agent::startup::server_port;

fn props(entries: &[(&str, &str)]) -> ServerProperties {
    let mut p = ServerProperties::new();
    for (k, v) in entries {
        p.insert(k.to_string(), v.to_string());
    }
    p
}

fn listed(p: &ServerProperties) -> Vec<(String, String)> {
    p.entries().clone()
}

fn pairs(entries: &[(&str, &str)]) -> Vec<(String, String)> {
    entries.iter().map(|(k, v)| (k.to_string(), v.to_string())).collect()
}

#[test]
fn missing_file_is_seeded_with_the_defaults() {
    let file = seed_server_properties(false, "minecraft").unwrap();
    assert_eq!(file.path, "minecraft/server.properties");
    assert_eq!(file.content, DEFAULT_PROPERTIES);
    assert!(seed_server_properties(true, "minecraft").is_none());
    assert_eq!(properties_path("srv"), "srv/server.properties");
}

#[test]
fn defaults_are_read() {
    let p = read_server_properties(DEFAULT_PROPERTIES);
    assert_eq!(p.entries().len(), 40);
    assert_eq!(p.get("server-port"), Some("25565".to_string()));
    assert_eq!(p.get("motd"), Some("A Minecraft Server".to_string()));
    assert_eq!(p.get("level-seed"), Some(String::new()));
    assert_eq!(p.get("#Minecraft server properties"), None);
    assert_eq!(server_port(&p), 25565);
}

#[test]
fn lines_are_split_at_the_first_sign_and_trimmed() {
    let p = read_server_properties("# comment\r\n  motd = a=b \r\nno setting\n=empty\n#x=1\nlast=2");
    assert_eq!(
        listed(&p),
        pairs(&[("", "empty"), ("#x", "1"), ("last", "2"), ("motd", "a=b")])
    );
}

#[test]
fn later_line_counts() {
    let p = read_server_properties("a=1\nb=2\na=3\n");
    assert_eq!(listed(&p), pairs(&[("a", "3"), ("b", "2")]));
}

#[test]
fn written_file_is_sorted_under_a_header() {
    let p = props(&[("motd", "Hi"), ("difficulty", "easy"), ("Zed", "1")]);
    let file = write_server_properties(&p, "minecraft");
    assert_eq!(file.path, "minecraft/server.properties");
    assert_eq!(
        file.content,
        "# Minecraft server properties\n# (File overwritten by Conductor)\nZed=1\ndifficulty=easy\nmotd=Hi\n"
    );
}

#[test]
fn clean_settings_read_back() {
    let p = props(&[("server-port", "25570"), ("motd", "a = b"), ("level-seed", ""), ("#k", "v")]);
    let file = write_server_properties(&p, "minecraft");
    assert_eq!(listed(&read_server_properties(&file.content)), listed(&p));
    assert_eq!(server_port(&read_server_properties(&file.content)), 25570);
}

#[test]
fn unclean_settings_do_not_read_back() {
    for (k, v) in [("a=b", "c"), ("a", " c"), ("a ", "c"), ("a", "c\nd"), ("a\nb", "c")] {
        let p = props(&[(k, v)]);
        let file = write_server_properties(&p, "minecraft");
        assert_ne!(listed(&read_server_properties(&file.content)), listed(&p));
    }
}

#[test]
fn written_text_does_not_depend_on_the_order_of_making() {
    let a = props(&[("x", "1"), ("y", "2"), ("x", "3")]);
    let b = props(&[("x", "3"), ("y", "2")]);
    assert_eq!(
        write_server_properties(&a, "m").content,
        write_server_properties(&b, "m").content
    );
}

#[test]
fn port_falls_back_to_the_default() {
    assert_eq!(server_port(&props(&[])), 25565);
    assert_eq!(server_port(&props(&[("server-port", "70000")])), 25565);
    assert_eq!(server_port(&props(&[("server-port", "none")])), 25565);
    assert_eq!(server_port(&props(&[("server-port", "25570")])), 25570);
}
