use fastboot::clock::{hk_gtc64, hk_qpc, install_clock, jump_clock};
use fastboot::config::{load_config, Config};
use fastboot::event::Event;
use fastboot::monitor::{banner, key_down, GateAction, Monitor, SpamAction};

/// A poll: calls of the counter and bytes read since the poll before, and the video.
struct Poll {
    calls: u64,
    bytes: u64,
    open: bool,
    closed: bool,
    key: i16,
}

const IDLE: Poll = Poll { calls: 1_000, bytes: 0, open: true, closed: false, key: 0 };
const SPIN: Poll = Poll { calls: 1_200_000, bytes: 0, open: true, closed: false, key: 0 };

/// Runs polls, 80 ms apart, and writes down what is done.
struct Run {
    config: Config,
    monitor: Monitor,
    t: i64,
    counted: u64,
    read: u64,
    seen: Vec<String>,
}

impl Run {
    fn new(ini: &str) -> Run {
        let config = load_config(Some(ini));
        let monitor = Monitor::new(&config, 10_000, 500);
        Run { config, monitor, t: 10_000, counted: 500, read: 0, seen: Vec::new() }
    }

    fn poll(&mut self, p: &Poll) {
        self.t += 80;
        self.counted = self.counted.wrapping_add(p.calls);
        self.read += p.bytes;
        let s = self.monitor.sample(&self.config, self.t, self.read, self.counted, p.open, true);
        if s.stop_watching {
            self.seen.push("unwatch".to_string());
        }
        if let Some(e) = s.poll {
            self.seen.push(e.render());
        }
        if let Some(e) = s.peak {
            self.seen.push(e.render());
        }
        if let Some(e) = self.monitor.toggle(p.key) {
            self.seen.push(e.render());
        }
        match self.monitor.gate(&self.config, p.open, p.closed) {
            GateAction::Wait => {}
            GateAction::Jump { ms, line } => {
                self.seen.push(format!("jump {}", ms));
                self.seen.push(line.render());
            }
            GateAction::Finish { line, spam } => {
                self.seen.push(line.render());
                if let Some(e) = spam {
                    self.seen.push(e.render());
                }
            }
        }
        match self.monitor.spam(&self.config) {
            SpamAction::Wait => {}
            SpamAction::Press => self.seen.push("enter".to_string()),
            SpamAction::Over { line } => self.seen.push(line.render()),
        }
    }

    fn polls(&mut self, p: &Poll, n: usize) {
        for _ in 0..n {
            self.poll(p);
        }
    }

    fn count(&self, start: &str) -> usize {
        self.seen.iter().filter(|s| s.starts_with(start)).count()
    }

    fn take(&mut self) -> Vec<String> {
        std::mem::take(&mut self.seen)
    }
}

fn loaded(ini: &str) -> Run {
    let mut r = Run::new(ini);
    r.polls(&Poll { calls: 100_000, bytes: 50_000_000, open: false, closed: false, key: 0 }, 20);
    r.polls(&IDLE, 13);
    r.take();
    r
}

#[test]
fn the_banner_names_the_settings() {
    let c = load_config(Some("qpc_spin_min=7\njump_ms=-3\npoll_ms=9\nintro_video=V"));
    assert_eq!(
        banner(&c).render(),
        "[fastboot] SKIP v1.3: intro='V' jump=-3ms poll=9ms spin>=max(baseline*2,7)"
    );
}

#[test]
fn key_state_bit() {
    assert!(key_down(i16::MIN));
    assert!(key_down(-1));
    assert!(!key_down(0));
    assert!(!key_down(1));
    assert!(!key_down(i16::MAX));
}

#[test]
fn a_spin_in_the_video_moves_the_clock_and_calm_ends_it() {
    let mut r = loaded("");
    r.poll(&SPIN);
    assert_eq!(
        r.take(),
        vec![
            "[2720ms] spin peak 1200000/poll (thr=500000, window=0B)".to_string(),
            "jump 30000".to_string(),
            "[2720ms] GATE dq 1200000/poll >= thr 500000 (intro window, window=0B) -> clock \
             +30000ms (total +30000ms, #1)"
                .to_string(),
        ]
    );
    r.polls(&IDLE, 2);
    assert!(r.take().is_empty());
    r.poll(&IDLE);
    assert_eq!(
        r.take(),
        vec!["[2960ms] intro window done (closed=0, calm=3, 1 jumps, total +30000ms)".to_string()]
    );
    r.polls(&SPIN, 50);
    assert!(r.take().is_empty());
}

#[test]
fn a_lasting_spin_moves_the_clock_six_times() {
    let mut r = loaded("");
    r.polls(&SPIN, 100);
    assert_eq!(r.count("jump 30000"), 6);
    let last = r.seen.last().unwrap();
    assert!(last.ends_with("intro window done (closed=0, calm=0, 6 jumps, total +180000ms)"));
}

#[test]
fn moves_are_more_than_400_ms_apart() {
    let mut r = loaded("");
    r.polls(&SPIN, 6);
    assert_eq!(r.count("jump"), 1);
    r.poll(&SPIN);
    assert_eq!(r.count("jump"), 2);
}

#[test]
fn nothing_happens_before_the_video() {
    let mut r = Run::new("");
    r.polls(&Poll { open: false, ..IDLE }, 15);
    r.polls(&Poll { open: false, ..SPIN }, 15);
    assert_eq!(r.count("jump"), 0);
    assert_eq!(r.count("[1280ms] spin peak 1200000/poll (thr=2400000, window=0B)"), 1);
    assert_eq!(r.seen.len(), 1);
}

#[test]
fn the_spin_has_to_exceed_twice_the_busiest_poll_before() {
    let mut r = Run::new("");
    r.polls(&Poll { calls: 700_000, open: false, ..IDLE }, 15);
    r.polls(&Poll { calls: 1_399_999, ..SPIN }, 3);
    assert_eq!(r.count("jump"), 0);
    r.poll(&Poll { calls: 1_400_000, ..SPIN });
    assert_eq!(r.count("jump"), 1);
}

#[test]
fn the_spin_has_to_reach_the_minimum() {
    let mut r = loaded("qpc_spin_min=300000");
    r.poll(&Poll { calls: 299_999, ..SPIN });
    assert_eq!(r.count("jump"), 0);
    r.poll(&Poll { calls: 300_000, ..SPIN });
    assert_eq!(r.count("jump"), 1);
}

#[test]
fn the_disk_has_to_be_quiet() {
    let mut r = loaded("");
    r.poll(&Poll { bytes: 6_000_000, ..SPIN });
    assert_eq!(r.count("jump"), 0);
    r.polls(&SPIN, 11);
    assert_eq!(r.count("jump"), 0);
    r.poll(&SPIN);
    assert_eq!(r.count("jump"), 1);
    let mut q = loaded("quiet_bytes=6000001");
    q.poll(&Poll { bytes: 6_000_000, ..SPIN });
    assert_eq!(q.count("jump"), 1);
}

#[test]
fn the_window_has_to_be_full() {
    let mut r = Run::new("quiet_window_polls=5");
    r.polls(&SPIN, 5);
    assert_eq!(r.count("jump"), 0);
    r.poll(&SPIN);
    assert_eq!(r.count("jump"), 1);
    let mut z = Run::new("quiet_window_polls=0");
    z.poll(&SPIN);
    assert_eq!(z.count("jump"), 1);
}

#[test]
fn every_poll_is_logged_on_demand() {
    let mut r = Run::new("diag=1\nquiet_window_polls=2");
    r.poll(&Poll { calls: 10, bytes: 5, open: false, closed: false, key: 0 });
    r.poll(&Poll { calls: 11, bytes: 6, open: false, closed: false, key: 0 });
    r.poll(&Poll { calls: 12, bytes: 7, open: false, closed: false, key: 0 });
    assert_eq!(
        r.take(),
        vec![
            "[80ms] poll 10/poll (thr=500000, window=0B)".to_string(),
            "[160ms] poll 11/poll (thr=500000, window=0B)".to_string(),
            "[240ms] poll 12/poll (thr=500000, window=13B)".to_string(),
        ]
    );
}

#[test]
fn the_end_of_playback_ends_it() {
    let mut r = loaded("");
    r.poll(&Poll { closed: true, ..SPIN });
    assert_eq!(r.count("jump"), 0);
    assert_eq!(r.count("[2720ms] intro window done (closed=1, calm=0, 0 jumps, total +0ms)"), 1);
}

#[test]
fn time_ends_it() {
    let mut r = Run::new("");
    r.polls(&IDLE, 1125);
    assert!(r.take().is_empty());
    r.poll(&SPIN);
    assert_eq!(r.count("jump"), 0);
    assert_eq!(r.count("[90080ms] intro window done (closed=0, calm=0, 0 jumps"), 1);
}

#[test]
fn the_key_switches_off_and_on() {
    let mut r = loaded("");
    r.poll(&Poll { key: -1, ..SPIN });
    assert_eq!(r.count("[2720ms] F8 -> skip OFF"), 1);
    r.polls(&SPIN, 10);
    assert_eq!(r.count("jump"), 0);
    r.poll(&Poll { key: i16::MIN, ..SPIN });
    assert_eq!(r.count("[3600ms] F8 -> skip ON"), 1);
    assert_eq!(r.count("jump"), 1);
}

#[test]
fn enter_is_pressed_after_the_skip() {
    let mut r = loaded("enter_spammer=1\nenter_window_ms=500");
    r.poll(&Poll { closed: true, ..IDLE });
    assert_eq!(
        r.take(),
        vec![
            "[2720ms] intro window done (closed=1, calm=0, 0 jumps, total +0ms)".to_string(),
            "[2720ms] enter_spammer: Enter every 120ms for 500ms".to_string(),
            "enter".to_string(),
        ]
    );
    r.polls(&IDLE, 10);
    assert_eq!(
        r.take(),
        vec![
            "enter".to_string(),
            "enter".to_string(),
            "enter".to_string(),
            "[3280ms] enter_spammer: done (4 Enter sent)".to_string(),
        ]
    );
}

#[test]
fn enter_is_not_pressed_without_the_setting() {
    let mut r = loaded("");
    r.poll(&Poll { closed: true, ..IDLE });
    r.polls(&IDLE, 10);
    assert_eq!(r.count("enter"), 0);
}

#[test]
fn enter_is_not_pressed_while_switched_off() {
    let mut r = loaded("enter_spammer=1");
    r.poll(&Poll { closed: true, key: -1, ..IDLE });
    r.polls(&IDLE, 10);
    assert_eq!(r.count("enter"), 0);
}

#[test]
fn files_are_watched_for_a_time() {
    let c = load_config(None);
    let mut m = Monitor::new(&c, 0, 0);
    assert!(!m.sample(&c, 180_000, 0, 0, false, true).stop_watching);
    assert!(m.sample(&c, 180_001, 0, 0, false, true).stop_watching);
    assert!(!m.sample(&c, 180_002, 0, 0, false, false).stop_watching);
}

#[test]
fn the_count_of_calls_wraps_around() {
    let c = load_config(Some("diag=1"));
    let mut m = Monitor::new(&c, 0, u64::MAX - 4);
    let s = m.sample(&c, 80, 0, 5, false, false);
    assert!(matches!(s.poll, Some(Event::Poll { calls: 10, .. })));
    let t = m.sample(&c, 160, 0, u64::MAX, false, false);
    assert!(matches!(
        t.peak,
        Some(Event::SpinPeak { threshold: u64::MAX, window: u64::MAX, .. })
    ));
}

#[test]
fn the_clock_is_ahead_by_the_reported_total() {
    let c = load_config(Some("quiet_window_polls=1"));
    let mut m = Monitor::new(&c, 0, 0);
    let mut clock = install_clock(10_000_000, 0, 1_000, 0, 0);
    let mut reported = 0;
    for n in 1..60i64 {
        m.sample(&c, n * 80, 0, n as u64 * 900_000, true, true);
        if let GateAction::Jump { ms, line } = m.gate(&c, true, false) {
            jump_clock(&mut clock, ms);
            if let Event::Gate { total, .. } = line {
                reported = total;
            }
        }
        assert_eq!(hk_gtc64(&clock, 5_000), 5_000 + reported as u64);
        assert_eq!(hk_qpc(&clock, 1, 7), 7 + reported * 10_000);
    }
    assert_eq!(reported, 180_000);
}
