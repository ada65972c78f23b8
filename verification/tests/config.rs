use fastboot::config::{find_key, load_config, on, Config, Key};
use fastboot::number::{parse_digits, parse_i64, parse_u32, parse_u64};
use fastboot::text::{chars_of, trimmed};

fn text(s: &str) -> Vec<char> {
    chars_of(s)
}

fn is_default(c: &Config) -> bool {
    c.jump_ms == 30_000
        && c.poll_ms == 80
        && c.qpc_spin_min == 500_000
        && c.quiet_bytes == 6_000_000
        && c.quiet_window_polls == 12
        && c.intro_video == "T10_MS_Combined"
        && !c.bink_wait0
        && !c.bink_shouldskip
        && !c.diag
        && c.log
        && !c.enter_spammer
        && c.enter_interval_ms == 120
        && c.enter_window_ms == 12_000
}

#[test]
fn defaults_without_a_file() {
    assert!(is_default(&load_config(None)));
    assert!(is_default(&load_config(Some(""))));
    assert!(is_default(&Config::standard()));
}

#[test]
fn every_key_is_read() {
    let c = load_config(Some(
        "jump_ms = 45000\npoll_ms=40\nqpc_spin_min=250000\nquiet_bytes = 1000\n\
         quiet_window_polls=6\nintro_video = Intro_A\nbink_wait0=1\nbink_shouldskip=yes\n\
         diag=1\nlog=0\nenter_spammer=TRUE\nenter_interval_ms=99\nenter_window_ms=-5",
    ));
    assert_eq!(c.jump_ms, 45_000);
    assert_eq!(c.poll_ms, 40);
    assert_eq!(c.qpc_spin_min, 250_000);
    assert_eq!(c.quiet_bytes, 1_000);
    assert_eq!(c.quiet_window_polls, 6);
    assert_eq!(c.intro_video, "Intro_A");
    assert!(c.bink_wait0);
    assert!(c.bink_shouldskip);
    assert!(c.diag);
    assert!(!c.log);
    assert!(c.enter_spammer);
    assert_eq!(c.enter_interval_ms, 99);
    assert_eq!(c.enter_window_ms, -5);
}

#[test]
fn comments_sections_and_unknown_keys_are_skipped() {
    let c = load_config(Some(
        "# jump_ms=1\n; poll_ms=1\n[jump_ms=1]\n\n   \t\nnothing here\nJump_ms=1\nother=1\n=5\n",
    ));
    assert!(is_default(&c));
}

#[test]
fn white_space_and_carriage_returns_do_not_matter() {
    let c = load_config(Some("\u{feff}jump_ms=1\r\n  jump_ms\t=\u{a0} 7 \r\n\u{3000}poll_ms=9\r"));
    assert_eq!(c.jump_ms, 7);
    assert_eq!(c.poll_ms, 9);
}

#[test]
fn unreadable_numbers_keep_the_value() {
    let c = load_config(Some(
        "jump_ms=\njump_ms=12x\njump_ms=9223372036854775808\npoll_ms=-1\npoll_ms=4294967296\n\
         enter_interval_ms=+\nenter_window_ms=1 2\nqpc_spin_min=-0\nquiet_bytes=0x10",
    ));
    assert!(is_default(&c));
}

#[test]
fn the_last_value_holds() {
    let c = load_config(Some("jump_ms=1\njump_ms=2\njump_ms=bad\nlog=0\nlog=on"));
    assert_eq!(c.jump_ms, 2);
    assert!(c.log);
}

#[test]
fn the_value_ends_the_line() {
    let c = load_config(Some("intro_video = a = b # c\nenter_spammer=0 ; off"));
    assert_eq!(c.intro_video, "a = b # c");
    assert!(c.enter_spammer);
}

#[test]
fn an_empty_video_name_is_kept() {
    let c = load_config(Some("intro_video="));
    assert_eq!(c.intro_video, "");
}

#[test]
fn switches() {
    assert!(!on(&text("0")));
    assert!(!on(&text("false")));
    assert!(!on(&text("FaLsE")));
    assert!(on(&text("1")));
    assert!(on(&text("")));
    assert!(on(&text("00")));
    assert!(on(&text("off")));
}

#[test]
fn keys_by_name() {
    assert_eq!(find_key(&text("jump_ms")), Some(Key::JumpMs));
    assert_eq!(find_key(&text("enter_window_ms")), Some(Key::EnterWindowMs));
    assert_eq!(find_key(&text("JUMP_MS")), None);
    assert_eq!(find_key(&text("")), None);
}

#[test]
fn two_texts_read_as_one() {
    let a = "jump_ms=5\nlog=0";
    let b = "poll_ms=3\njump_ms=6";
    let c = load_config(Some(&format!("{}\n{}", a, b)));
    assert_eq!((c.jump_ms, c.poll_ms, c.log), (6, 3, false));
}

#[test]
fn numbers_as_the_standard_library_reads_them() {
    let samples = [
        "", "+", "-", "0", "-0", "+0", "007", "+5", "-5", "++5", "+-5", "--5", "5-", " 5", "1_000",
        "9223372036854775807", "9223372036854775808", "-9223372036854775808",
        "-9223372036854775809", "4294967295", "4294967296", "18446744073709551615",
        "18446744073709551616", "99999999999999999999999999", "00000000000000000000000000000001",
        "-00000000000000000000000000000001", "\u{0665}", "1e3", "0x1",
    ];
    for s in samples {
        assert_eq!(parse_i64(&text(s)), s.parse::<i64>().ok(), "{}", s);
        assert_eq!(parse_u32(&text(s)), s.parse::<u32>().ok(), "{}", s);
        assert_eq!(parse_u64(&text(s)), s.parse::<u64>().ok(), "{}", s);
    }
    assert_eq!(parse_digits(&text("+1")), None);
    assert_eq!(parse_digits(&text("0012")), Some(12));
}

#[test]
fn trimming_as_the_standard_library_does() {
    for u in 0..0x3100u32 {
        if let Some(c) = char::from_u32(u) {
            let s = format!("{}x{}y{}{}", c, c, c, c);
            let chars = text(&s);
            assert_eq!(trimmed(&chars), text(s.trim()).as_slice(), "{:x}", u);
        }
    }
    assert!(trimmed(&text(" \t\r\n ")).is_empty());
}
