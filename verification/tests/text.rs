use conductor_agent::numbers::{decimal_text, parse_i32, parse_u16, signed_decimal_text};
use conductor_agent::paths::{join, parent};
use conductor_agent::text::{
    chars_of, comes_before, find_from, same_text, split_words, starts_with, strip_trailing, trim,
    white,
};

#[test]
fn white_space_is_that_of_unicode() {
    for n in 0..=0x10ffffu32 {
        if let Some(c) = char::from_u32(n) {
            assert_eq!(white(c), c.is_whitespace(), "{n:x}");
        }
    }
}

const SAMPLES: [&str; 12] = [
    "",
    " ",
    "a",
    "  a b \t",
    "\u{3000}x\u{2009}y\u{a0}",
    "\r\n line \r\n",
    "///",
    "ws://host//",
    "-Xmx4G",
    "set-id  agent-7\n",
    "\u{e9}t\u{e9} \u{1f600}",
    "\u{200b}zero\u{200b}",
];

#[test]
fn trimming_agrees_with_std() {
    for s in SAMPLES {
        assert_eq!(trim(s), s.trim());
        assert_eq!(trim(trim(s).as_str()), s.trim());
        assert_eq!(strip_trailing(s, '/'), s.trim_end_matches('/'));
    }
}

#[test]
fn words_agree_with_std() {
    for s in SAMPLES {
        let expected: Vec<&str> = s.split_whitespace().collect();
        assert_eq!(split_words(s), expected);
        assert_eq!(split_words(s.trim()), expected);
        assert_eq!(split_words(s).is_empty(), s.trim().is_empty());
    }
}

#[test]
fn order_and_prefixes_agree_with_std() {
    for a in SAMPLES {
        for b in SAMPLES {
            assert_eq!(comes_before(a, b), a < b);
            assert_eq!(same_text(a, b), a == b);
            assert_eq!(starts_with(a, b), a.starts_with(b));
        }
    }
}

#[test]
fn characters_are_found() {
    let v = chars_of("a=b=c");
    assert_eq!(find_from(&v, 0, '='), 1);
    assert_eq!(find_from(&v, 2, '='), 3);
    assert_eq!(find_from(&v, 4, '='), 5);
}

#[test]
fn numbers_are_written_as_std_writes_them() {
    for n in [0u64, 9, 10, 99, 100, 25565, u32::MAX as u64, u64::MAX] {
        assert_eq!(decimal_text(n), n.to_string());
    }
    for n in [0i64, -1, 143, i32::MIN as i64, i64::MIN, i64::MAX] {
        assert_eq!(signed_decimal_text(n), n.to_string());
    }
}

#[test]
fn numbers_are_read_as_std_reads_them() {
    let samples = [
        "", "+", "-", "0", "-0", "+0", "007", "65535", "65536", "+65535", "-1", "2147483647",
        "2147483648", "-2147483648", "-2147483649", "99999999999999999999", "12a", " 12", "1 2",
        "--1", "+-1", "\u{661}",
    ];
    for s in samples {
        assert_eq!(parse_u16(s), s.parse::<u16>().ok(), "{s}");
        assert_eq!(parse_i32(s), s.parse::<i32>().ok(), "{s}");
    }
}

const PATHS: [&str; 26] = [
    "", "/", "//", ".", "..", "./", "a", "a/", "a//", "a/.", "a/./", "/a", "//a", "/./a", "./a",
    "././a", "a/b", "a//b", "a/./b", "a/../b", "a/..", "/a/b/", "minecraft/server.jar",
    "/srv/mc/server.jar", "a/.b", "/.",
];

#[test]
fn parents_agree_with_std() {
    for p in PATHS {
        let expected = std::path::Path::new(p).parent().map(|d| d.to_str().unwrap().to_string());
        assert_eq!(parent(p), expected, "{p}");
    }
}

#[test]
fn joined_paths_agree_with_std() {
    for a in PATHS {
        for b in PATHS {
            let expected = std::path::Path::new(a).join(b);
            assert_eq!(join(a, b), expected.to_str().unwrap(), "{a} {b}");
        }
    }
}
