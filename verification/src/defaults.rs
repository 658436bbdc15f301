//! The settings that a server has before anybody configures it.

use crate::properties::{added, all_clean, lemma_clean_lines, clean_name, clean_value, lemma_settings_line, setting_line, setting_lines, settings_after, settings_in, DEFAULT_PROPERTIES};
use crate::text::{lacks, position_is_first, solid_ends, trimmed_of_solid};
use vstd::prelude::*;

verus! {

/// The settings of a server that nobody has configured yet, in the order of its file.
pub open spec fn default_settings() -> Seq<(Seq<char>, Seq<char>)> {
    seq![
        ("spawn-protection"@, "16"@),
        ("max-tick-time"@, "60000"@),
        ("query.port"@, "25565"@),
        ("generator-settings"@, ""@),
        ("force-gamemode"@, "false"@),
        ("allow-nether"@, "true"@),
        ("enforce-whitelist"@, "false"@),
        ("gamemode"@, "survival"@),
        ("broadcast-console-to-ops"@, "true"@),
        ("enable-query"@, "false"@),
        ("player-idle-timeout"@, "0"@),
        ("difficulty"@, "easy"@),
        ("spawn-monsters"@, "true"@),
        ("op-permission-level"@, "4"@),
        ("pvp"@, "true"@),
        ("snooper-enabled"@, "true"@),
        ("level-type"@, "default"@),
        ("hardcore"@, "false"@),
        ("enable-command-block"@, "false"@),
        ("max-players"@, "20"@),
        ("network-compression-threshold"@, "256"@),
        ("resource-pack-sha1"@, ""@),
        ("max-world-size"@, "29999984"@),
        ("server-port"@, "25565"@),
        ("server-ip"@, ""@),
        ("spawn-npcs"@, "true"@),
        ("allow-flight"@, "false"@),
        ("level-name"@, "world"@),
        ("view-distance"@, "10"@),
        ("resource-pack"@, ""@),
        ("spawn-animals"@, "true"@),
        ("white-list"@, "false"@),
        ("generate-structures"@, "true"@),
        ("online-mode"@, "true"@),
        ("max-build-height"@, "256"@),
        ("level-seed"@, ""@),
        ("prevent-proxy-connections"@, "false"@),
        ("use-native-transport"@, "true"@),
        ("motd"@, "A Minecraft Server"@),
        ("enable-rcon"@, "false"@),
    ]
}

proof fn lemma_clean(k: Seq<char>, v: Seq<char>)
    requires
        solid_ends(k) && lacks(k, '=') && lacks(k, '\n'),
        solid_ends(v) && lacks(v, '\n'),
    ensures
        clean_name(k),
        clean_value(v),
{
    trimmed_of_solid(k);
    trimmed_of_solid(v);
}

proof fn lemma_defaults_are_clean()
    ensures
        all_clean(default_settings()),
{
    reveal_strlit("spawn-protection");
    reveal_strlit("16");
    reveal_strlit("max-tick-time");
    reveal_strlit("60000");
    reveal_strlit("query.port");
    reveal_strlit("25565");
    reveal_strlit("generator-settings");
    reveal_strlit("");
    reveal_strlit("force-gamemode");
    reveal_strlit("false");
    reveal_strlit("allow-nether");
    reveal_strlit("true");
    reveal_strlit("enforce-whitelist");
    reveal_strlit("gamemode");
    reveal_strlit("survival");
    reveal_strlit("broadcast-console-to-ops");
    reveal_strlit("enable-query");
    reveal_strlit("player-idle-timeout");
    reveal_strlit("0");
    reveal_strlit("difficulty");
    reveal_strlit("easy");
    reveal_strlit("spawn-monsters");
    reveal_strlit("op-permission-level");
    reveal_strlit("4");
    reveal_strlit("pvp");
    reveal_strlit("snooper-enabled");
    reveal_strlit("level-type");
    reveal_strlit("default");
    reveal_strlit("hardcore");
    reveal_strlit("enable-command-block");
    reveal_strlit("max-players");
    reveal_strlit("20");
    reveal_strlit("network-compression-threshold");
    reveal_strlit("256");
    reveal_strlit("resource-pack-sha1");
    reveal_strlit("max-world-size");
    reveal_strlit("29999984");
    reveal_strlit("server-port");
    reveal_strlit("server-ip");
    reveal_strlit("spawn-npcs");
    reveal_strlit("allow-flight");
    reveal_strlit("level-name");
    reveal_strlit("world");
    reveal_strlit("view-distance");
    reveal_strlit("10");
    reveal_strlit("resource-pack");
    reveal_strlit("spawn-animals");
    reveal_strlit("white-list");
    reveal_strlit("generate-structures");
    reveal_strlit("online-mode");
    reveal_strlit("max-build-height");
    reveal_strlit("level-seed");
    reveal_strlit("prevent-proxy-connections");
    reveal_strlit("use-native-transport");
    reveal_strlit("motd");
    reveal_strlit("A Minecraft Server");
    reveal_strlit("enable-rcon");
    lemma_clean("spawn-protection"@, "16"@);
    lemma_clean("max-tick-time"@, "60000"@);
    lemma_clean("query.port"@, "25565"@);
    lemma_clean("generator-settings"@, ""@);
    lemma_clean("force-gamemode"@, "false"@);
    lemma_clean("allow-nether"@, "true"@);
    lemma_clean("enforce-whitelist"@, "false"@);
    lemma_clean("gamemode"@, "survival"@);
    lemma_clean("broadcast-console-to-ops"@, "true"@);
    lemma_clean("enable-query"@, "false"@);
    lemma_clean("player-idle-timeout"@, "0"@);
    lemma_clean("difficulty"@, "easy"@);
    lemma_clean("spawn-monsters"@, "true"@);
    lemma_clean("op-permission-level"@, "4"@);
    lemma_clean("pvp"@, "true"@);
    lemma_clean("snooper-enabled"@, "true"@);
    lemma_clean("level-type"@, "default"@);
    lemma_clean("hardcore"@, "false"@);
    lemma_clean("enable-command-block"@, "false"@);
    lemma_clean("max-players"@, "20"@);
    lemma_clean("network-compression-threshold"@, "256"@);
    lemma_clean("resource-pack-sha1"@, ""@);
    lemma_clean("max-world-size"@, "29999984"@);
    lemma_clean("server-port"@, "25565"@);
    lemma_clean("server-ip"@, ""@);
    lemma_clean("spawn-npcs"@, "true"@);
    lemma_clean("allow-flight"@, "false"@);
    lemma_clean("level-name"@, "world"@);
    lemma_clean("view-distance"@, "10"@);
    lemma_clean("resource-pack"@, ""@);
    lemma_clean("spawn-animals"@, "true"@);
    lemma_clean("white-list"@, "false"@);
    lemma_clean("generate-structures"@, "true"@);
    lemma_clean("online-mode"@, "true"@);
    lemma_clean("max-build-height"@, "256"@);
    lemma_clean("level-seed"@, ""@);
    lemma_clean("prevent-proxy-connections"@, "false"@);
    lemma_clean("use-native-transport"@, "true"@);
    lemma_clean("motd"@, "A Minecraft Server"@);
    lemma_clean("enable-rcon"@, "false"@);
}

/// Each line of the file is the line of its setting.
proof fn lemma_default_lines()
    ensures
        DEFAULT_PROPERTIES@.len() == 854,
        DEFAULT_PROPERTIES@.subrange(0, 29) == "#Minecraft server properties"@ + seq!['\n'],
        DEFAULT_PROPERTIES@.subrange(29, 59) == "#Thu Jan 01 00:00:00 UTC 2026"@ + seq!['\n'],
        DEFAULT_PROPERTIES@.subrange(59, 79) == setting_line(("spawn-protection"@, "16"@)),
        DEFAULT_PROPERTIES@.subrange(79, 99) == setting_line(("max-tick-time"@, "60000"@)),
        DEFAULT_PROPERTIES@.subrange(99, 116) == setting_line(("query.port"@, "25565"@)),
        DEFAULT_PROPERTIES@.subrange(116, 136) == setting_line(("generator-settings"@, ""@)),
        DEFAULT_PROPERTIES@.subrange(136, 157) == setting_line(("force-gamemode"@, "false"@)),
        DEFAULT_PROPERTIES@.subrange(157, 175) == setting_line(("allow-nether"@, "true"@)),
        DEFAULT_PROPERTIES@.subrange(175, 199) == setting_line(("enforce-whitelist"@, "false"@)),
        DEFAULT_PROPERTIES@.subrange(199, 217) == setting_line(("gamemode"@, "survival"@)),
        DEFAULT_PROPERTIES@.subrange(217, 247) == setting_line(("broadcast-console-to-ops"@, "true"@)),
        DEFAULT_PROPERTIES@.subrange(247, 266) == setting_line(("enable-query"@, "false"@)),
        DEFAULT_PROPERTIES@.subrange(266, 288) == setting_line(("player-idle-timeout"@, "0"@)),
        DEFAULT_PROPERTIES@.subrange(288, 304) == setting_line(("difficulty"@, "easy"@)),
        DEFAULT_PROPERTIES@.subrange(304, 324) == setting_line(("spawn-monsters"@, "true"@)),
        DEFAULT_PROPERTIES@.subrange(324, 346) == setting_line(("op-permission-level"@, "4"@)),
        DEFAULT_PROPERTIES@.subrange(346, 355) == setting_line(("pvp"@, "true"@)),
        DEFAULT_PROPERTIES@.subrange(355, 376) == setting_line(("snooper-enabled"@, "true"@)),
        DEFAULT_PROPERTIES@.subrange(376, 395) == setting_line(("level-type"@, "default"@)),
        DEFAULT_PROPERTIES@.subrange(395, 410) == setting_line(("hardcore"@, "false"@)),
        DEFAULT_PROPERTIES@.subrange(410, 437) == setting_line(("enable-command-block"@, "false"@)),
        DEFAULT_PROPERTIES@.subrange(437, 452) == setting_line(("max-players"@, "20"@)),
        DEFAULT_PROPERTIES@.subrange(452, 486) == setting_line(("network-compression-threshold"@, "256"@)),
        DEFAULT_PROPERTIES@.subrange(486, 506) == setting_line(("resource-pack-sha1"@, ""@)),
        DEFAULT_PROPERTIES@.subrange(506, 530) == setting_line(("max-world-size"@, "29999984"@)),
        DEFAULT_PROPERTIES@.subrange(530, 548) == setting_line(("server-port"@, "25565"@)),
        DEFAULT_PROPERTIES@.subrange(548, 559) == setting_line(("server-ip"@, ""@)),
        DEFAULT_PROPERTIES@.subrange(559, 575) == setting_line(("spawn-npcs"@, "true"@)),
        DEFAULT_PROPERTIES@.subrange(575, 594) == setting_line(("allow-flight"@, "false"@)),
        DEFAULT_PROPERTIES@.subrange(594, 611) == setting_line(("level-name"@, "world"@)),
        DEFAULT_PROPERTIES@.subrange(611, 628) == setting_line(("view-distance"@, "10"@)),
        DEFAULT_PROPERTIES@.subrange(628, 643) == setting_line(("resource-pack"@, ""@)),
        DEFAULT_PROPERTIES@.subrange(643, 662) == setting_line(("spawn-animals"@, "true"@)),
        DEFAULT_PROPERTIES@.subrange(662, 679) == setting_line(("white-list"@, "false"@)),
        DEFAULT_PROPERTIES@.subrange(679, 704) == setting_line(("generate-structures"@, "true"@)),
        DEFAULT_PROPERTIES@.subrange(704, 721) == setting_line(("online-mode"@, "true"@)),
        DEFAULT_PROPERTIES@.subrange(721, 742) == setting_line(("max-build-height"@, "256"@)),
        DEFAULT_PROPERTIES@.subrange(742, 754) == setting_line(("level-seed"@, ""@)),
        DEFAULT_PROPERTIES@.subrange(754, 786) == setting_line(("prevent-proxy-connections"@, "false"@)),
        DEFAULT_PROPERTIES@.subrange(786, 812) == setting_line(("use-native-transport"@, "true"@)),
        DEFAULT_PROPERTIES@.subrange(812, 836) == setting_line(("motd"@, "A Minecraft Server"@)),
        DEFAULT_PROPERTIES@.subrange(836, 854) == setting_line(("enable-rcon"@, "false"@)),
{
    reveal_strlit("#Minecraft server properties
#Thu Jan 01 00:00:00 UTC 2026
spawn-protection=16
max-tick-time=60000
query.port=25565
generator-settings=
force-gamemode=false
allow-nether=true
enforce-whitelist=false
gamemode=survival
broadcast-console-to-ops=true
enable-query=false
player-idle-timeout=0
difficulty=easy
spawn-monsters=true
op-permission-level=4
pvp=true
snooper-enabled=true
level-type=default
hardcore=false
enable-command-block=false
max-players=20
network-compression-threshold=256
resource-pack-sha1=
max-world-size=29999984
server-port=25565
server-ip=
spawn-npcs=true
allow-flight=false
level-name=world
view-distance=10
resource-pack=
spawn-animals=true
white-list=false
generate-structures=true
online-mode=true
max-build-height=256
level-seed=
prevent-proxy-connections=false
use-native-transport=true
motd=A Minecraft Server
enable-rcon=false
");
    reveal_strlit("#Minecraft server properties");
    reveal_strlit("#Thu Jan 01 00:00:00 UTC 2026");
    reveal_strlit("spawn-protection");
    reveal_strlit("16");
    reveal_strlit("max-tick-time");
    reveal_strlit("60000");
    reveal_strlit("query.port");
    reveal_strlit("25565");
    reveal_strlit("generator-settings");
    reveal_strlit("");
    reveal_strlit("force-gamemode");
    reveal_strlit("false");
    reveal_strlit("allow-nether");
    reveal_strlit("true");
    reveal_strlit("enforce-whitelist");
    reveal_strlit("gamemode");
    reveal_strlit("survival");
    reveal_strlit("broadcast-console-to-ops");
    reveal_strlit("enable-query");
    reveal_strlit("player-idle-timeout");
    reveal_strlit("0");
    reveal_strlit("difficulty");
    reveal_strlit("easy");
    reveal_strlit("spawn-monsters");
    reveal_strlit("op-permission-level");
    reveal_strlit("4");
    reveal_strlit("pvp");
    reveal_strlit("snooper-enabled");
    reveal_strlit("level-type");
    reveal_strlit("default");
    reveal_strlit("hardcore");
    reveal_strlit("enable-command-block");
    reveal_strlit("max-players");
    reveal_strlit("20");
    reveal_strlit("network-compression-threshold");
    reveal_strlit("256");
    reveal_strlit("resource-pack-sha1");
    reveal_strlit("max-world-size");
    reveal_strlit("29999984");
    reveal_strlit("server-port");
    reveal_strlit("server-ip");
    reveal_strlit("spawn-npcs");
    reveal_strlit("allow-flight");
    reveal_strlit("level-name");
    reveal_strlit("world");
    reveal_strlit("view-distance");
    reveal_strlit("10");
    reveal_strlit("resource-pack");
    reveal_strlit("spawn-animals");
    reveal_strlit("white-list");
    reveal_strlit("generate-structures");
    reveal_strlit("online-mode");
    reveal_strlit("max-build-height");
    reveal_strlit("level-seed");
    reveal_strlit("prevent-proxy-connections");
    reveal_strlit("use-native-transport");
    reveal_strlit("motd");
    reveal_strlit("A Minecraft Server");
    reveal_strlit("enable-rcon");
    assert(DEFAULT_PROPERTIES@.subrange(0, 29) =~= "#Minecraft server properties"@ + seq!['\n']);
    assert(DEFAULT_PROPERTIES@.subrange(29, 59) =~= "#Thu Jan 01 00:00:00 UTC 2026"@ + seq!['\n']);
    assert(DEFAULT_PROPERTIES@.subrange(59, 79) =~= setting_line(("spawn-protection"@, "16"@)));
    assert(DEFAULT_PROPERTIES@.subrange(79, 99) =~= setting_line(("max-tick-time"@, "60000"@)));
    assert(DEFAULT_PROPERTIES@.subrange(99, 116) =~= setting_line(("query.port"@, "25565"@)));
    assert(DEFAULT_PROPERTIES@.subrange(116, 136) =~= setting_line(("generator-settings"@, ""@)));
    assert(DEFAULT_PROPERTIES@.subrange(136, 157) =~= setting_line(("force-gamemode"@, "false"@)));
    assert(DEFAULT_PROPERTIES@.subrange(157, 175) =~= setting_line(("allow-nether"@, "true"@)));
    assert(DEFAULT_PROPERTIES@.subrange(175, 199) =~= setting_line(("enforce-whitelist"@, "false"@)));
    assert(DEFAULT_PROPERTIES@.subrange(199, 217) =~= setting_line(("gamemode"@, "survival"@)));
    assert(DEFAULT_PROPERTIES@.subrange(217, 247) =~= setting_line(("broadcast-console-to-ops"@, "true"@)));
    assert(DEFAULT_PROPERTIES@.subrange(247, 266) =~= setting_line(("enable-query"@, "false"@)));
    assert(DEFAULT_PROPERTIES@.subrange(266, 288) =~= setting_line(("player-idle-timeout"@, "0"@)));
    assert(DEFAULT_PROPERTIES@.subrange(288, 304) =~= setting_line(("difficulty"@, "easy"@)));
    assert(DEFAULT_PROPERTIES@.subrange(304, 324) =~= setting_line(("spawn-monsters"@, "true"@)));
    assert(DEFAULT_PROPERTIES@.subrange(324, 346) =~= setting_line(("op-permission-level"@, "4"@)));
    assert(DEFAULT_PROPERTIES@.subrange(346, 355) =~= setting_line(("pvp"@, "true"@)));
    assert(DEFAULT_PROPERTIES@.subrange(355, 376) =~= setting_line(("snooper-enabled"@, "true"@)));
    assert(DEFAULT_PROPERTIES@.subrange(376, 395) =~= setting_line(("level-type"@, "default"@)));
    assert(DEFAULT_PROPERTIES@.subrange(395, 410) =~= setting_line(("hardcore"@, "false"@)));
    assert(DEFAULT_PROPERTIES@.subrange(410, 437) =~= setting_line(("enable-command-block"@, "false"@)));
    assert(DEFAULT_PROPERTIES@.subrange(437, 452) =~= setting_line(("max-players"@, "20"@)));
    assert(DEFAULT_PROPERTIES@.subrange(452, 486) =~= setting_line(("network-compression-threshold"@, "256"@)));
    assert(DEFAULT_PROPERTIES@.subrange(486, 506) =~= setting_line(("resource-pack-sha1"@, ""@)));
    assert(DEFAULT_PROPERTIES@.subrange(506, 530) =~= setting_line(("max-world-size"@, "29999984"@)));
    assert(DEFAULT_PROPERTIES@.subrange(530, 548) =~= setting_line(("server-port"@, "25565"@)));
    assert(DEFAULT_PROPERTIES@.subrange(548, 559) =~= setting_line(("server-ip"@, ""@)));
    assert(DEFAULT_PROPERTIES@.subrange(559, 575) =~= setting_line(("spawn-npcs"@, "true"@)));
    assert(DEFAULT_PROPERTIES@.subrange(575, 594) =~= setting_line(("allow-flight"@, "false"@)));
    assert(DEFAULT_PROPERTIES@.subrange(594, 611) =~= setting_line(("level-name"@, "world"@)));
    assert(DEFAULT_PROPERTIES@.subrange(611, 628) =~= setting_line(("view-distance"@, "10"@)));
    assert(DEFAULT_PROPERTIES@.subrange(628, 643) =~= setting_line(("resource-pack"@, ""@)));
    assert(DEFAULT_PROPERTIES@.subrange(643, 662) =~= setting_line(("spawn-animals"@, "true"@)));
    assert(DEFAULT_PROPERTIES@.subrange(662, 679) =~= setting_line(("white-list"@, "false"@)));
    assert(DEFAULT_PROPERTIES@.subrange(679, 704) =~= setting_line(("generate-structures"@, "true"@)));
    assert(DEFAULT_PROPERTIES@.subrange(704, 721) =~= setting_line(("online-mode"@, "true"@)));
    assert(DEFAULT_PROPERTIES@.subrange(721, 742) =~= setting_line(("max-build-height"@, "256"@)));
    assert(DEFAULT_PROPERTIES@.subrange(742, 754) =~= setting_line(("level-seed"@, ""@)));
    assert(DEFAULT_PROPERTIES@.subrange(754, 786) =~= setting_line(("prevent-proxy-connections"@, "false"@)));
    assert(DEFAULT_PROPERTIES@.subrange(786, 812) =~= setting_line(("use-native-transport"@, "true"@)));
    assert(DEFAULT_PROPERTIES@.subrange(812, 836) =~= setting_line(("motd"@, "A Minecraft Server"@)));
    assert(DEFAULT_PROPERTIES@.subrange(836, 854) =~= setting_line(("enable-rcon"@, "false"@)));
}

/// Where the line of a setting stands before the lines of the later ones, the lines from that
/// setting on stand there.
proof fn lemma_row(i: int, from: int, to: int)
    requires
        0 <= i < default_settings().len(),
        0 <= from <= to <= DEFAULT_PROPERTIES@.len(),
        DEFAULT_PROPERTIES@.subrange(from, to) == setting_line(default_settings()[i]),
        DEFAULT_PROPERTIES@.skip(to) == setting_lines(default_settings().skip(i + 1)),
    ensures
        DEFAULT_PROPERTIES@.skip(from) == setting_lines(default_settings().skip(i)),
{
    let es = default_settings().skip(i);
    assert(es[0] == default_settings()[i]);
    assert(es.drop_first() =~= default_settings().skip(i + 1));
    assert(DEFAULT_PROPERTIES@.skip(from) =~= DEFAULT_PROPERTIES@.subrange(from, to)
        + DEFAULT_PROPERTIES@.skip(to));
}

/// A server that nobody has configured yet has exactly the default settings: that is what the file
/// that is written for it says.
pub proof fn defaults_are_read()
    ensures
        settings_in(DEFAULT_PROPERTIES@) == added(Map::empty(), default_settings()),
{
    let text = DEFAULT_PROPERTIES@;
    let es = default_settings();
    lemma_default_lines();
    lemma_defaults_are_clean();
    assert(text.skip(854) =~= setting_lines(es.skip(40)));
    lemma_row(39, 836, 854);
    lemma_row(38, 812, 836);
    lemma_row(37, 786, 812);
    lemma_row(36, 754, 786);
    lemma_row(35, 742, 754);
    lemma_row(34, 721, 742);
    lemma_row(33, 704, 721);
    lemma_row(32, 679, 704);
    lemma_row(31, 662, 679);
    lemma_row(30, 643, 662);
    lemma_row(29, 628, 643);
    lemma_row(28, 611, 628);
    lemma_row(27, 594, 611);
    lemma_row(26, 575, 594);
    lemma_row(25, 559, 575);
    lemma_row(24, 548, 559);
    lemma_row(23, 530, 548);
    lemma_row(22, 506, 530);
    lemma_row(21, 486, 506);
    lemma_row(20, 452, 486);
    lemma_row(19, 437, 452);
    lemma_row(18, 410, 437);
    lemma_row(17, 395, 410);
    lemma_row(16, 376, 395);
    lemma_row(15, 355, 376);
    lemma_row(14, 346, 355);
    lemma_row(13, 324, 346);
    lemma_row(12, 304, 324);
    lemma_row(11, 288, 304);
    lemma_row(10, 266, 288);
    lemma_row(9, 247, 266);
    lemma_row(8, 217, 247);
    lemma_row(7, 199, 217);
    lemma_row(6, 175, 199);
    lemma_row(5, 157, 175);
    lemma_row(4, 136, 157);
    lemma_row(3, 116, 136);
    lemma_row(2, 99, 116);
    lemma_row(1, 79, 99);
    lemma_row(0, 59, 79);
    assert(es.skip(0) =~= es);
    let none = Map::<Seq<char>, Seq<char>>::empty();
    lemma_comments(none, setting_lines(es));
    lemma_clean_lines(none, es);
    assert(text =~= text.subrange(0, 29) + text.subrange(29, 59) + text.skip(59));
}

/// The comments at the top of the file state no setting.
proof fn lemma_comments(m: Map<Seq<char>, Seq<char>>, rest: Seq<char>)
    ensures
        settings_after(
            m,
            "#Minecraft server properties"@ + seq!['\n'] + ("#Thu Jan 01 00:00:00 UTC 2026"@ + seq!['\n']) + rest,
        ) == settings_after(m, rest),
{
    let a = "#Minecraft server properties"@;
    let b = "#Thu Jan 01 00:00:00 UTC 2026"@;
    reveal_strlit("#Minecraft server properties");
    reveal_strlit("#Thu Jan 01 00:00:00 UTC 2026");
    assert(lacks(a, '\n') && lacks(a, '='));
    assert(lacks(b, '\n') && lacks(b, '='));
    position_is_first(a, '=');
    position_is_first(b, '=');
    assert(a + seq!['\n'] + (b + seq!['\n']) + rest =~= a + seq!['\n'] + (b + seq!['\n'] + rest));
    lemma_settings_line(m, a, b + seq!['\n'] + rest);
    lemma_settings_line(m, b, rest);
}

} // verus!
