use fastboot::config::{load_config, Config};
use fastboot::event::{log_line, Event};
use fastboot::probe::{
    boot_window, hk_bkclose, hk_bkdof, hk_bkopen, hk_bkshould, hk_bkwait, note_bk2, Probe,
};
use fastboot::window::{game_window, post_key, KeyMessage, Window, WindowSearch, VK_RETURN};

const INTRO: &str = "D:\\Game\\media/Video\\t10_ms_COMBINED_4k.BK2";

fn line(e: Option<Event>) -> Option<String> {
    e.map(|e| e.render())
}

#[test]
fn other_files_are_ignored() {
    let cfg = load_config(None);
    let mut p = Probe::new(1000);
    for name in ["", "bk2", "C:\\x.zip", "T10_MS_Combined.mp4", "a.bk"] {
        assert_eq!(line(note_bk2(&mut p, Some(&cfg), 5000, name)), None);
    }
    assert_eq!(p, Probe::new(1000));
}

#[test]
fn other_videos_are_logged() {
    let cfg = load_config(None);
    let mut p = Probe::new(1000);
    assert_eq!(
        line(note_bk2(&mut p, Some(&cfg), 5000, "C:\\v\\Logo.Bk2")),
        Some("[4000ms] OPEN Logo.Bk2".to_string())
    );
    assert_eq!(
        line(note_bk2(&mut p, None, 5000, INTRO)),
        Some("[4000ms] OPEN t10_ms_COMBINED_4k.BK2".to_string())
    );
    assert_eq!(p, Probe::new(1000));
}

#[test]
fn the_startup_video_is_logged_once() {
    let cfg = load_config(None);
    let mut p = Probe::new(1000);
    assert_eq!(
        line(note_bk2(&mut p, Some(&cfg), 3500, INTRO)),
        Some(
            "[2500ms] intro file opened (t10_ms_COMBINED_4k.BK2) -> tagging next BinkOpen"
                .to_string()
        )
    );
    assert!(p.intro_open && p.file_pending);
    p.file_pending = false;
    assert_eq!(line(note_bk2(&mut p, Some(&cfg), 3600, INTRO)), None);
    assert!(p.intro_open && p.file_pending);
}

#[test]
fn an_empty_name_matches_no_video() {
    let cfg = load_config(Some("intro_video="));
    let mut p = Probe::new(0);
    assert_eq!(
        line(note_bk2(&mut p, Some(&cfg), 1, "a.bk2")),
        Some("[1ms] OPEN a.bk2".to_string())
    );
    assert!(!p.intro_open);
}

#[test]
fn the_first_playback_after_the_file_is_the_startup_video() {
    let cfg = load_config(None);
    let mut p = Probe::new(0);
    assert_eq!(
        line(hk_bkopen(&mut p, 10, 0x1000, 4)),
        Some("[10ms] BinkOpen -> 0x1000 (flags=0x4)".to_string())
    );
    assert_eq!(p.intro_handle, 0);
    note_bk2(&mut p, Some(&cfg), 20, INTRO);
    assert_eq!(
        line(hk_bkopen(&mut p, 30, 0x2000, 0x40)),
        Some("[30ms] BinkOpen -> intro handle 0x2000 (flags=0x40)".to_string())
    );
    assert_eq!(p.intro_handle, 0x2000);
    note_bk2(&mut p, Some(&cfg), 40, INTRO);
    assert_eq!(
        line(hk_bkopen(&mut p, 50, 0x3000, 0)),
        Some("[50ms] BinkOpen -> 0x3000 (flags=0x0)".to_string())
    );
    assert_eq!(p.intro_handle, 0x2000);
    assert!(!p.file_pending);
}

#[test]
fn playback_is_watched_only_in_the_boot_window() {
    assert!(boot_window(119_999, 0));
    assert!(!boot_window(120_000, 0));
    assert!(boot_window(i64::MIN, i64::MAX));
    let cfg = load_config(None);
    let mut p = Probe::new(0);
    note_bk2(&mut p, Some(&cfg), 1, INTRO);
    let before = p;
    assert_eq!(line(hk_bkopen(&mut p, 120_000, 0x2000, 0)), None);
    assert_eq!(line(hk_bkdof(&mut p, 120_000, 0x2000)), None);
    assert_eq!(p, before);
}

#[test]
fn sixteen_frames_are_logged() {
    let mut p = Probe::new(0);
    p.intro_handle = 0x20;
    assert_eq!(
        line(hk_bkdof(&mut p, 5, 0x20)),
        Some("[5ms] BinkDoFrame 0x20 <INTRO> (#1)".to_string())
    );
    assert_eq!(
        line(hk_bkdof(&mut p, 6, 0x21)),
        Some("[6ms] BinkDoFrame 0x21 (#2)".to_string())
    );
    for n in 3..17 {
        assert_eq!(
            line(hk_bkdof(&mut p, 7, -1)),
            Some(format!("[7ms] BinkDoFrame {:#x} (#{})", -1isize, n))
        );
    }
    assert_eq!(line(hk_bkdof(&mut p, 8, 0x20)), None);
    assert_eq!(p.frames_logged, 16);
}

#[test]
fn answers_are_forced_only_for_the_startup_video() {
    let off = load_config(None);
    let both = load_config(Some("bink_wait0=1\nbink_shouldskip=1"));
    let mut p = Probe::new(0);
    p.intro_handle = 0x20;
    assert_eq!(hk_bkwait(&p, Some(&both), 0x20), Some(0));
    assert_eq!(hk_bkshould(&p, Some(&both), 0x20), Some(1));
    assert_eq!(hk_bkwait(&p, Some(&both), 0x21), None);
    assert_eq!(hk_bkshould(&p, Some(&both), 0x21), None);
    assert_eq!(hk_bkwait(&p, Some(&off), 0x20), None);
    assert_eq!(hk_bkshould(&p, Some(&off), 0x20), None);
    assert_eq!(hk_bkwait(&p, None, 0x20), None);
    assert_eq!(hk_bkshould(&p, None, 0x20), None);
}

#[test]
fn the_end_of_playback() {
    let mut p = Probe::new(0);
    p.intro_handle = 0x20;
    assert_eq!(
        line(hk_bkclose(&mut p, 9, 0x30)),
        Some("[9ms] BinkClose 0x30".to_string())
    );
    assert!(!p.intro_closed);
    assert_eq!(line(hk_bkclose(&mut p, 500_000, 0x20)), None);
    assert!(p.intro_closed);
    assert_eq!(
        line(hk_bkclose(&mut p, 10, 0x20)),
        Some("[10ms] BinkClose 0x20 <INTRO>".to_string())
    );
}

#[test]
fn the_log_can_be_switched_off() {
    let on = load_config(None);
    let off: Config = load_config(Some("log=0"));
    assert_eq!(
        log_line(Some(&on), &Event::WorkerStart),
        Some("[fastboot] worker start".to_string())
    );
    assert_eq!(
        log_line(None, &Event::HooksEnabled),
        Some("[fastboot] hooks enabled".to_string())
    );
    assert_eq!(log_line(Some(&off), &Event::WorkerStart), None);
}

#[test]
fn the_first_visible_window_of_the_process_is_found() {
    let w = |handle, process, visible| Window { handle, process, visible };
    let list = [w(1, 7, 1), w(2, 9, 0), w(3, 9, 1), w(4, 9, 1)];
    assert_eq!(game_window(9, &list), 3);
    assert_eq!(game_window(8, &list), 0);
    let mut s = WindowSearch::new(9);
    assert!(s.visit(list[0]));
    assert!(s.visit(list[1]));
    assert!(!s.visit(list[2]));
    assert_eq!(s.found, 3);
}

#[test]
fn a_key_press_is_two_messages() {
    assert_eq!(post_key(0, VK_RETURN), None);
    assert_eq!(
        post_key(5, VK_RETURN),
        Some((
            KeyMessage { window: 5, message: 0x100, key: 13, bits: 1 },
            KeyMessage { window: 5, message: 0x101, key: 13, bits: 0xc000_0001 }
        ))
    );
}
