//! Text primitives, decimal conversions and subprocess-output parsing.

use deskshell::numfmt::i64_to_string;
use deskshell::numfmt::parse_i64;
use deskshell::str_contains;
use deskshell::str_eq;
use deskshell::str_le;
use deskshell::utils::XdgDirs;
use deskshell::utils::desktop_file_dirs;
use deskshell::utils::frequency_cache_path;
use deskshell::utils::int_from_output;
use deskshell::utils::ints_from_lines;
use deskshell::utils::join_path;

#[test]
fn string_equality_and_order() {
    assert!(str_eq("abc", "abc"));
    assert!(!str_eq("abc", "abd"));
    assert!(!str_eq("abc", "ab"));
    assert!(str_le("abc", "abd"));
    assert!(str_le("ab", "abc"));
    assert!(!str_le("b", "abc"));
    assert!(str_le("", ""));
}

#[test]
fn substring_search() {
    assert!(str_contains("battery-level-50", "level"));
    assert!(str_contains("anything", ""));
    assert!(!str_contains("short", "longer than the text"));
    assert!(str_contains("aaab", "aab"));
    assert!(!str_contains("aaab", "abb"));
}

#[test]
fn parse_decimal_integers() {
    assert_eq!(parse_i64("0"), Some(0));
    assert_eq!(parse_i64("42"), Some(42));
    assert_eq!(parse_i64("+42"), Some(42));
    assert_eq!(parse_i64("-17"), Some(-17));
    assert_eq!(parse_i64("9223372036854775807"), Some(i64::MAX));
    assert_eq!(parse_i64("-9223372036854775808"), Some(i64::MIN));
    assert_eq!(parse_i64("9223372036854775808"), None);
    assert_eq!(parse_i64("-9223372036854775809"), None);
    assert_eq!(parse_i64("99999999999999999999999999"), None);
    assert_eq!(parse_i64(""), None);
    assert_eq!(parse_i64("-"), None);
    assert_eq!(parse_i64("12a"), None);
    assert_eq!(parse_i64(" 12"), None);
}

#[test]
fn render_decimal_integers() {
    assert_eq!(i64_to_string(0), "0");
    assert_eq!(i64_to_string(7), "7");
    assert_eq!(i64_to_string(255000), "255000");
    assert_eq!(i64_to_string(-31), "-31");
    assert_eq!(i64_to_string(i64::MAX), "9223372036854775807");
    assert_eq!(i64_to_string(i64::MIN), "-9223372036854775808");
}

#[test]
fn first_token_of_command_output() {
    assert_eq!(int_from_output("255\n"), Some(255));
    assert_eq!(int_from_output("  19200 extra words"), Some(19200));
    assert_eq!(int_from_output("\t-5\t"), Some(-5));
    assert_eq!(int_from_output(""), None);
    assert_eq!(int_from_output("   "), None);
    assert_eq!(int_from_output("bright"), None);
}

#[test]
fn integers_from_listing_lines() {
    assert_eq!(ints_from_lines(""), Some(vec![]));
    assert_eq!(ints_from_lines("1 first entry\n2 second\n"), Some(vec![1, 2]));
    assert_eq!(ints_from_lines("10\r\n11\r\n"), Some(vec![10, 11]));
    assert_eq!(ints_from_lines("3 x"), Some(vec![3]));
    assert_eq!(ints_from_lines("1 ok\nnope\n"), None);
    assert_eq!(ints_from_lines("\n"), None);
}

#[test]
fn path_joining() {
    assert_eq!(join_path("/home/me", "apps"), "/home/me/apps");
    assert_eq!(join_path("/home/me/", "apps"), "/home/me/apps");
    assert_eq!(
        frequency_cache_path("/home/me/.cache"),
        "/home/me/.cache/apps/apps_frequency.json"
    );
}

#[test]
fn desktop_dir_candidates() {
    let dirs = XdgDirs {
        home: "/home/me".to_string(),
        config: "/home/me/.config".to_string(),
        config_dirs: vec!["/etc/xdg".to_string(), "/etc/xdg".to_string()],
        data: "/home/me/.local/share".to_string(),
        data_dirs: vec!["/usr/local/share".to_string(), "/usr/share".to_string()],
    };
    let got = desktop_file_dirs(&dirs);
    assert_eq!(
        got,
        vec![
            "/home/me/.config".to_string(),
            "/etc/xdg".to_string(),
            "/home/me/.local/share/applications".to_string(),
            "/usr/local/share/applications".to_string(),
            "/usr/share/applications".to_string(),
            "/usr/share/xsessions".to_string(),
            "/etc/xdg/autostart".to_string(),
            "/var/lib/snapd/desktop/applications".to_string(),
            "/var/lib/flatpak/exports/share/".to_string(),
            "/home/me/.local/share/flatpak/exports/share".to_string(),
        ]
    );
}

#[test]
fn decimal_round_trip() {
    for v in [0i64, 1, -1, 9, 10, -10, 4095, -65536, i64::MAX, i64::MIN] {
        assert_eq!(parse_i64(&i64_to_string(v)), Some(v));
    }
}
