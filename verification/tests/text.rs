use fastboot::loader::{
    attaches, chain_dll, exe_path, lookup_first, lookup_next, resolve_address, resolve_handle,
    symbol, system_dll, targets, Lookup, Resolve, Target,
};
use fastboot::names::{ansi_name, wide_name, AnsiName, WideName, MAX_NAME};
use fastboot::number::{push_digits, push_handle, push_hex, push_i64, push_u64};
use fastboot::text::{
    base_of, chars_of, find, mentions, same_ignore_case, same_text, string_of, to_lower,
};
use fastboot::wide::{text_of, wide};

const SAMPLE: &str = "A\u{7f}\u{80}\u{e9}\u{20ac}\u{d7ff}\u{e000}\u{ffff}\u{10000}\u{1f600}\u{10ffff}";

#[test]
fn wide_is_utf16_with_a_final_zero() {
    assert_eq!(wide(""), vec![0]);
    assert_eq!(wide("winmm.dll").len(), 10);
    let mut expected: Vec<u16> = SAMPLE.encode_utf16().collect();
    expected.push(0);
    assert_eq!(wide(SAMPLE), expected);
}

#[test]
fn wide_text_reads_back() {
    let units = wide(SAMPLE);
    assert_eq!(text_of(&units[..units.len() - 1]), SAMPLE);
}

#[test]
fn unpaired_units_are_replaced() {
    let cases: [&[u16]; 7] = [
        &[],
        &[0xd800],
        &[0xdc00, 0x41],
        &[0xd800, 0x41],
        &[0xd800, 0xd800, 0xdc00],
        &[0x41, 0xdbff, 0xdfff, 0x42],
        &[0xdfff, 0xd800, 0xdc01, 0xd9ab],
    ];
    for c in cases {
        assert_eq!(text_of(c), String::from_utf16_lossy(c));
    }
    assert_eq!(text_of(&[0xd800, 0x41]), "\u{fffd}A");
}

#[test]
fn exe_path_takes_the_first_units() {
    let buf = wide("C:\\game\\g.exe");
    assert_eq!(exe_path(&buf, 13), "C:\\game\\g.exe");
    assert_eq!(exe_path(&buf, 2), "C:");
}

#[test]
fn system_dll_path() {
    let mut buf = [0u16; 320];
    let dir: Vec<u16> = "C:\\Windows\\system32".encode_utf16().collect();
    buf[..dir.len()].copy_from_slice(&dir);
    assert_eq!(system_dll(&buf, dir.len()), wide("C:\\Windows\\system32\\version.dll"));
    assert_eq!(chain_dll(), "version_orig.dll");
}

#[test]
fn symbols_end_with_a_zero() {
    assert_eq!(symbol("BinkWait"), b"BinkWait\0".to_vec());
    assert_eq!(symbol("\u{e9}"), vec![0xc3, 0xa9, 0]);
}

#[test]
fn wide_names_end_at_zero() {
    assert_eq!(wide_name(&wide("C:\\a.bk2")), "C:\\a.bk2");
    assert_eq!(wide_name(&[0x41, 0, 0x42]), "A");
    assert_eq!(wide_name(&[0]), "");
    assert_eq!(wide_name(&[0x41, 0xd83d, 0xde00, 0x42, 0]), "A??B");
}

#[test]
fn wide_names_are_limited() {
    let long = vec![0x61u16; 3000];
    assert_eq!(wide_name(&long), "a".repeat(MAX_NAME));
    let mut n = WideName::new();
    for _ in 0..MAX_NAME {
        assert!(n.wants_more());
        assert!(n.take(0x62));
    }
    assert!(!n.wants_more());
    assert_eq!(n.into_text(), "b".repeat(1024));
}

#[test]
fn ansi_names_end_at_zero_and_are_limited() {
    assert_eq!(ansi_name(b"D:\\x.bk2\0rest"), "D:\\x.bk2");
    assert_eq!(ansi_name(b"\0"), "");
    assert_eq!(ansi_name(&vec![b'z'; 2000]), "z".repeat(1024));
    let mut n = AnsiName::new();
    assert!(n.wants_more());
    assert!(n.take(b'q'));
    assert!(!n.take(0));
    assert_eq!(n.into_text(), "q");
}

#[test]
fn ansi_names_are_read_as_utf8() {
    assert_eq!(ansi_name("\u{e9}\u{1f600}\0".as_bytes()), "\u{e9}\u{1f600}");
    assert_eq!(ansi_name(&[0x61, 0xff, 0x62, 0]), "a\u{fffd}b");
}

#[test]
fn characters_and_strings() {
    assert_eq!(string_of(&chars_of(SAMPLE)), SAMPLE);
    assert_eq!(string_of(&to_lower(&chars_of("AbZ[@\u{c9}9"))), "abz[@\u{c9}9");
    assert!(same_text(&chars_of("log"), "log"));
    assert!(!same_text(&chars_of("log"), "logs"));
    assert!(same_ignore_case(&chars_of("FALSE"), "false"));
    assert!(!same_ignore_case(&chars_of("FALS"), "false"));
}

#[test]
fn searching() {
    let s = chars_of("abcabd");
    assert!(mentions(&s, &chars_of("abd")));
    assert!(mentions(&s, &chars_of("")));
    assert!(mentions(&s, &chars_of("abcabd")));
    assert!(!mentions(&s, &chars_of("abe")));
    assert!(!mentions(&s, &chars_of("abcabda")));
    assert_eq!(find(&s, 'b'), 1);
    assert_eq!(find(&s, 'x'), 6);
}

#[test]
fn base_names() {
    for (path, base) in [
        ("C:\\a\\b.bk2", "b.bk2"),
        ("a/b\\c/d.bk2", "d.bk2"),
        ("plain", "plain"),
        ("dir\\", ""),
        ("", ""),
    ] {
        assert_eq!(string_of(base_of(&chars_of(path))), base);
    }
}

#[test]
fn numbers_are_written_as_the_standard_library_does() {
    for n in [0i64, 7, 10, -1, -10, 1234567890, i64::MAX, i64::MIN] {
        let mut s = String::from("x");
        push_i64(&mut s, n);
        assert_eq!(s, format!("x{}", n));
        let mut u = String::new();
        push_u64(&mut u, n as u64);
        assert_eq!(u, format!("{}", n as u64));
        let mut h = String::new();
        push_hex(&mut h, n as u64);
        assert_eq!(h, format!("{:#x}", n as u64));
        let mut p = String::new();
        push_handle(&mut p, n as isize);
        assert_eq!(p, format!("{:#x}", n as isize));
    }
    let mut b = String::new();
    push_digits(&mut b, 10, 2);
    assert_eq!(b, "1010");
}

#[test]
fn exports_go_to_the_other_modification_first() {
    assert_eq!(lookup_first(5, 6), Lookup::Chain);
    assert_eq!(lookup_next(Lookup::Chain, 6, 0x1000), Lookup::Found(0x1000));
    assert_eq!(lookup_next(Lookup::Chain, 6, 0), Lookup::System);
    assert_eq!(lookup_next(Lookup::System, 6, 0x2000), Lookup::Found(0x2000));
    assert_eq!(lookup_first(0, 6), Lookup::System);
    assert_eq!(lookup_first(0, 0), Lookup::Found(0));
    assert_eq!(lookup_next(Lookup::Chain, 0, 0), Lookup::Found(0));
    assert_eq!(lookup_next(Lookup::Found(9), 6, 1), Lookup::Found(9));
}

#[test]
fn functions_are_resolved() {
    assert_eq!(resolve_handle(Resolve::Handle, 7), Resolve::Function(7));
    assert_eq!(resolve_handle(Resolve::Handle, 0), Resolve::Load);
    assert_eq!(resolve_handle(Resolve::Load, 8), Resolve::Function(8));
    assert_eq!(resolve_handle(Resolve::Load, 0), Resolve::Done(None));
    assert_eq!(resolve_address(Resolve::Function(7), 0), Resolve::Done(None));
    assert_eq!(resolve_address(Resolve::Function(7), 3), Resolve::Done(Some(3)));
    assert_eq!(resolve_handle(Resolve::Done(Some(3)), 1), Resolve::Done(Some(3)));
    assert_eq!(resolve_address(Resolve::Load, 1), Resolve::Load);
}

#[test]
fn hooked_functions() {
    let all = targets();
    assert_eq!(all.len(), 11);
    let names: Vec<&str> = all.iter().map(|t| t.function()).collect();
    assert_eq!(
        names,
        vec![
            "QueryPerformanceCounter",
            "GetTickCount64",
            "GetTickCount",
            "timeGetTime",
            "CreateFileW",
            "CreateFileA",
            "BinkOpen",
            "BinkDoFrame",
            "BinkWait",
            "BinkShouldSkip",
            "BinkClose"
        ]
    );
    assert_eq!(Target::Qpc.library(0), Some("kernelbase.dll"));
    assert_eq!(Target::CreateFileA.library(1), Some("kernel32.dll"));
    assert_eq!(Target::CreateFileA.library(2), None);
    assert_eq!(Target::TimeGetTime.library(0), Some("winmm.dll"));
    assert_eq!(Target::TimeGetTime.library(1), None);
    assert_eq!(Target::BinkClose.library(0), Some("bink2w64.dll"));
    assert_eq!(Target::BinkOpen.library(1), None);
}

#[test]
fn only_loading_starts_the_work() {
    assert!(attaches(1));
    assert!(!attaches(0));
    assert!(!attaches(2));
    assert!(!attaches(3));
}
