use fastboot::arith::{divide, i64_as_u64, low_i64, low_u32, product, u64_as_i64};
use fastboot::clock::{
    hk_gtc, hk_gtc64, hk_mm, hk_qpc, initial_snap, install_clock, jump_clock, now_ms, scale,
    store_snap, Clock, Snap,
};

const FREQ: i64 = 10_000_000;

fn started() -> Clock {
    install_clock(FREQ, 5_000_000_000, 700_000, 600_000, 500_000)
}

#[test]
fn scale_at_normal_rate_adds_the_offset() {
    assert_eq!(scale(1_500, 1_000, 1_000, 1000), 1_500);
    assert_eq!(scale(1_500, 1_000, 31_000, 1000), 31_500);
    assert_eq!(scale(900, 1_000, 31_000, 1000), 30_900);
}

#[test]
fn scale_at_other_rates_rounds_toward_zero() {
    assert_eq!(scale(1_003, 1_000, 0, 500), 1);
    assert_eq!(scale(997, 1_000, 0, 500), -1);
    assert_eq!(scale(1_010, 1_000, 7, 2500), 32);
    assert_eq!(scale(1_010, 1_000, 7, -2500), -18);
    assert_eq!(scale(1_010, 1_000, 7, 0), 7);
}

#[test]
fn scale_wraps_around() {
    assert_eq!(scale(i64::MAX, 0, 1, 1000), i64::MIN);
    assert_eq!(scale(i64::MIN, 1, 0, 1000), i64::MAX);
    assert_eq!(scale(i64::MIN, i64::MAX, 0, 1000), 1);
    assert_eq!(scale(i64::MAX, 0, 0, i64::MAX), -1_789_334_175_149_826_507);
}

#[test]
fn arithmetic_helpers() {
    assert_eq!(low_i64(1i128 << 64), 0);
    assert_eq!(low_i64((1i128 << 63) + 5), i64::MIN + 5);
    assert_eq!(low_i64(-1), -1);
    assert_eq!(u64_as_i64(u64::MAX), -1);
    assert_eq!(i64_as_u64(-2), u64::MAX - 1);
    assert_eq!(low_u32(-1), u32::MAX);
    assert_eq!(low_u32(0x1_2345_6789), 0x2345_6789);
    assert_eq!(product(i64::MIN, i64::MIN), 1i128 << 126);
    assert_eq!(divide(-7, 2), -3);
    assert_eq!(divide(7, -2), -3);
    assert_eq!(divide(-7, -2), 3);
}

#[test]
fn hooks_report_real_time_before_the_first_jump() {
    let c = started();
    assert_eq!(hk_qpc(&c, 1, 5_123_456_789), 5_123_456_789);
    assert_eq!(hk_gtc64(&c, 701_234), 701_234);
    assert_eq!(hk_gtc(&c, 601_234), 601_234);
    assert_eq!(hk_mm(&c, 501_234), 501_234);
}

#[test]
fn a_jump_moves_every_timer() {
    let mut c = started();
    jump_clock(&mut c, 30_000);
    assert!(c.active);
    assert_eq!(hk_qpc(&c, 1, 5_123_456_789), 5_123_456_789 + 300_000_000);
    assert_eq!(hk_gtc64(&c, 701_234), 731_234);
    assert_eq!(hk_gtc(&c, 601_234), 631_234);
    assert_eq!(hk_mm(&c, 501_234), 531_234);
}

#[test]
fn the_counter_keeps_its_value_where_the_call_failed() {
    let mut c = started();
    jump_clock(&mut c, 30_000);
    assert_eq!(hk_qpc(&c, 0, 77), 77);
}

#[test]
fn two_jumps_add_up() {
    let mut c = started();
    jump_clock(&mut c, 30_000);
    jump_clock(&mut c, 12_345);
    assert_eq!(hk_gtc64(&c, 700_000), 742_345);
    assert_eq!(hk_mm(&c, 500_000), 542_345);
    let s = c.snap.unwrap();
    assert_eq!(s.milli, 1000);
    assert_eq!((s.qa, s.t64a, s.ta, s.ma), (5_000_000_000, 700_000, 600_000, 500_000));
}

#[test]
fn frame_deltas_are_unaffected() {
    let mut c = started();
    jump_clock(&mut c, 30_000);
    assert_eq!(hk_qpc(&c, 1, 5_000_166_667) - hk_qpc(&c, 1, 5_000_000_000), 166_667);
    assert_eq!(hk_gtc64(&c, 700_016) - hk_gtc64(&c, 700_000), 16);
    assert_eq!(hk_gtc(&c, u32::MAX).wrapping_add(10), hk_gtc(&c, 9));
}

#[test]
fn a_wait_that_began_before_the_jump_is_over() {
    let mut c = started();
    let start = hk_gtc64(&c, 700_000);
    jump_clock(&mut c, 30_000);
    assert_eq!(hk_gtc64(&c, 700_010) - start, 30_010);
}

#[test]
fn tick_counts_wrap_around() {
    let mut c = install_clock(FREQ, 0, u64::MAX - 10, u32::MAX - 10, u32::MAX - 10);
    jump_clock(&mut c, 100);
    assert_eq!(hk_gtc64(&c, u64::MAX - 10), 89);
    assert_eq!(hk_gtc(&c, u32::MAX - 10), 89);
    assert_eq!(hk_mm(&c, u32::MAX - 10), 89);
}

#[test]
fn a_clock_without_anchors_does_not_jump() {
    let mut c = Clock::new(FREQ);
    jump_clock(&mut c, 30_000);
    assert_eq!(c, Clock { snap: None, freq: FREQ, active: false });
    assert_eq!(hk_qpc(&c, 1, 42), 42);
    assert_eq!(hk_gtc64(&c, 42), 42);
    let odd = Clock { snap: None, freq: FREQ, active: true };
    assert_eq!(hk_gtc(&odd, 42), 42);
    assert_eq!(hk_mm(&odd, 42), 42);
}

#[test]
fn counter_ticks_round_toward_zero() {
    let mut c = install_clock(3_579_545, 0, 0, 0, 0);
    jump_clock(&mut c, 7);
    assert_eq!(hk_qpc(&c, 1, 0), 25_056);
    let mut back = install_clock(3_579_545, 0, 0, 0, 0);
    jump_clock(&mut back, -7);
    assert_eq!(hk_qpc(&back, 1, 0), -25_056);
}

#[test]
fn store_snap_replaces_only_the_snapshot() {
    let mut c = Clock { snap: None, freq: 9, active: true };
    let s = initial_snap(1, 2, 3, 4);
    store_snap(&mut c, s);
    assert_eq!(c, Clock { snap: Some(s), freq: 9, active: true });
    assert_eq!(
        s,
        Snap { milli: 1000, qa: 1, qv: 1, t64a: 2, t64v: 2, ta: 3, tv: 3, ma: 4, mv: 4 }
    );
}

#[test]
fn now_ms_converts_ticks() {
    assert_eq!(now_ms(0, 123_456), 0);
    assert_eq!(now_ms(10_000_000, 1_234_567_899), 123_456);
    assert_eq!(now_ms(10_000_000, -19_999), -1);
    assert_eq!(now_ms(1, i64::MAX), -1000);
}
