//! Text, numbers, identifiers and paths, held against the standard library.

use ephemera::config::{constant_time_eq, Config};
use ephemera::ids::{id_text, short_id};
use ephemera::paths::{is_under, join, with_extension};
use ephemera::process::{output_checked, process_alive, run_checked, terminate_pid, CommandOutput};
use ephemera::scan::{eq_ignore_ascii_case, has_prefix, lines_of, parse_number, second_word_of,
    split_at_colon, strip_prefix, trim, trim_end};
use ephemera::text::{byte_len, decimal, decimal_signed, hex_of, same_text};
use std::path::Path;

const TEXTS: [&str; 16] = [
    "",
    " ",
    "a",
    " a b ",
    "\t\u{2003}x\u{a0}\n",
    "\r\n",
    "one\ntwo\r\nthree",
    "one\n\ntwo\n",
    "\r",
    "a:b:c",
    ":",
    "  first   second third",
    "+7",
    "0042",
    "\u{feff}x ",
    "caf\u{e9} \u{3000}",
];

#[test]
fn scanning_agrees_with_std() {
    for s in TEXTS {
        assert_eq!(trim(s), s.trim(), "{s:?}");
        assert_eq!(trim_end(s), s.trim_end(), "{s:?}");
        assert_eq!(lines_of(s), s.lines().collect::<Vec<_>>(), "{s:?}");
        assert_eq!(second_word_of(s).as_deref(), s.split_whitespace().nth(1), "{s:?}");
        assert_eq!(
            split_at_colon(s),
            s.split_once(':').map(|(a, b)| (a.to_string(), b.to_string())),
            "{s:?}"
        );
        assert_eq!(byte_len(s), s.len());
        for t in TEXTS {
            assert_eq!(eq_ignore_ascii_case(s, t), s.eq_ignore_ascii_case(t));
            assert_eq!(has_prefix(s, t), s.starts_with(t));
            assert_eq!(strip_prefix(s, t).as_deref(), s.strip_prefix(t));
            assert_eq!(same_text(s, t), s == t);
            assert_eq!(constant_time_eq(s, t), s == t);
        }
    }
    assert!(eq_ignore_ascii_case("aBc[", "AbC["));
    assert!(!eq_ignore_ascii_case("[", "{"));
    assert!(!eq_ignore_ascii_case("\u{e9}", "\u{c9}"));
}

#[test]
fn numbers_agree_with_std() {
    for s in ["0", "7", "+7", "-7", "", "+", "65535", "65536", "0065535", "99999999999999999999999", "1a", " 1"] {
        assert_eq!(parse_number(s, u16::MAX as u64), s.parse::<u16>().ok().map(u64::from), "{s:?}");
        assert_eq!(parse_number(s, u64::MAX), s.parse::<u64>().ok(), "{s:?}");
    }
    for n in [0, 9, 10, 12345, u64::MAX] {
        assert_eq!(decimal(n), n.to_string());
    }
    for n in [0, -1, 42, i32::MIN, i32::MAX] {
        assert_eq!(decimal_signed(n), n.to_string());
    }
    assert_eq!(hex_of(&vec![0x00, 0x0f, 0xa5, 0xff]), "000fa5ff");
}

#[test]
fn identifiers_as_text() {
    let id = 0x0123_4567_89ab_4def_8123_4567_89ab_cdefu128;
    assert_eq!(id_text(id), "01234567-89ab-4def-8123-456789abcdef");
    assert_eq!(short_id(id), "01234567");
    assert_eq!(id_text(0), "00000000-0000-0000-0000-000000000000");
}

const PATHS: [&str; 20] = [
    "", "/", "//", ".", "./", "a", "a/", "/a", "/a/", "/a/b", "/a//b", "/a/./b", "./a", "a/.",
    "/a/b/c.d", "/ab", "..", "a/..", "/a/b.tar.gz", ".hidden",
];

#[test]
fn paths_agree_with_std() {
    for p in PATHS {
        for q in PATHS {
            assert_eq!(is_under(p, q), Path::new(p).starts_with(q), "{p:?} {q:?}");
            assert_eq!(Path::new(&join(p, q)), Path::new(p).join(q), "{p:?} {q:?}");
            assert_eq!(join(p, q), Path::new(p).join(q).display().to_string(), "{p:?} {q:?}");
        }
        assert_eq!(
            with_extension(p, "builder.pub"),
            Path::new(p).with_extension("builder.pub").display().to_string(),
            "{p:?}"
        );
    }
}

#[test]
fn default_settings() {
    let cfg = Config::default();
    assert_eq!(cfg.listen, "127.0.0.1:7788");
    assert_eq!(cfg.state_dir, "/var/lib/ephemera");
    assert_eq!(cfg.default_bridge.as_deref(), Some("vmbr0"));
    assert!(cfg.auth.tokens.is_empty());
}

#[test]
fn commands_and_what_they_left() {
    let out = |success| CommandOutput {
        success,
        status: "exit status: 1".into(),
        stdout: b" data\n".to_vec(),
        stderr: vec![b'n', b'o', 0xfe],
    };
    assert_eq!(run_checked("ip", &out(true)), Ok(()));
    assert_eq!(run_checked("ip", &out(false)), Err("ip failed (exit status: 1): no\u{fffd}".into()));
    assert_eq!(output_checked("ip", &out(true)), Ok("data".into()));
    assert_eq!(output_checked("ip", &out(false)), Err("ip failed: no\u{fffd}".into()));
    assert_eq!(terminate_pid(42).args, vec!["-TERM", "42"]);
    assert_eq!(process_alive(42).args, vec!["-0", "42"]);
    assert_eq!(process_alive(42).program, "kill");
}
