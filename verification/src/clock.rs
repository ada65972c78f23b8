//! The virtual clock: what the hooked timers report.
//!
//! `virtual = anchor_virt + (real - anchor_real) * milli / 1000`, for each of four timers. The
//! rate stays at 1x (`milli == 1000`), and skipping adds a constant offset. All arithmetic wraps
//! around, as the timers themselves do.

use vstd::prelude::*;

use crate::arith::{
    difference, divide, i64_as_u64, low_i64, low_u32, product, sum, u64_as_i64,
};
#[allow(unused_imports)]
use crate::arith::{
    divides, law_quotient, law_wrap, lemma_quotient_cancels, lemma_same_wrap, lemma_wrap_delta,
    lemma_wrap_fits, lemma_wrap_i64_sum, lemma_wrap_shift, lemma_wrap_u32_sum, lemma_wrap_u64_sum,
    quotient, wrap_i64, wrap_u32, wrap_u64,
};

verus! {

/// The anchors of the four timers and their common rate.
#[derive(Clone, Copy, Debug, PartialEq, Eq, Structural)]
pub struct Snap {
    /// Rate times 1000.
    pub milli: i64,
    /// `QueryPerformanceCounter`: real anchor.
    pub qa: i64,
    /// `QueryPerformanceCounter`: virtual anchor.
    pub qv: i64,
    /// `GetTickCount64`: real anchor.
    pub t64a: i64,
    /// `GetTickCount64`: virtual anchor.
    pub t64v: i64,
    /// `GetTickCount`: real anchor.
    pub ta: i64,
    /// `GetTickCount`: virtual anchor.
    pub tv: i64,
    /// `timeGetTime`: real anchor.
    pub ma: i64,
    /// `timeGetTime`: virtual anchor.
    pub mv: i64,
}

/// The state behind the timer hooks. A program that shares it between threads publishes whole
/// values, each of which is consistent in itself.
#[derive(Clone, Copy, Debug, PartialEq, Eq)]
pub struct Clock {
    /// The current anchors, once the timers have been read for the first time.
    pub snap: Option<Snap>,
    /// Performance counter ticks per second.
    pub freq: i64,
    /// Whether the hooks apply the anchors. Set by the first jump.
    pub active: bool,
}

/// The virtual reading that belongs to `now`.
pub open spec fn scaled(now: int, a: int, v: int, milli: int) -> int {
    wrap_i64(v + wrap_i64(quotient(wrap_i64(now - a) * milli, 1000)))
}

/// `ms` milliseconds in ticks of a counter that makes `freq` ticks per second.
pub open spec fn counter_ticks(ms: int, freq: int) -> int {
    wrap_i64(quotient(ms * freq, 1000))
}

impl Snap {
    /// Runs at 1x.
    pub open spec fn normal_rate(self) -> bool {
        self.milli == 1000
    }

    /// Every virtual anchor equals its real one.
    pub open spec fn unshifted(self) -> bool {
        &&& self.qv == self.qa
        &&& self.t64v == self.t64a
        &&& self.tv == self.ta
        &&& self.mv == self.ma
    }

    /// This snapshot with every timer moved forward by `ms` milliseconds.
    pub open spec fn jumped(self, freq: int, ms: int) -> Snap {
        Snap {
            milli: self.milli,
            qa: self.qa,
            qv: wrap_i64(self.qv + counter_ticks(ms, freq)) as i64,
            t64a: self.t64a,
            t64v: wrap_i64(self.t64v + ms) as i64,
            ta: self.ta,
            tv: wrap_i64(self.tv + ms) as i64,
            ma: self.ma,
            mv: wrap_i64(self.mv + ms) as i64,
        }
    }
}

impl Clock {
    /// The rate is 1x, and there is no shift before the first jump.
    pub open spec fn wf(self) -> bool {
        match self.snap {
            Some(s) => s.normal_rate() && (!self.active ==> s.unshifted()),
            None => !self.active,
        }
    }

    /// Whether the hooks replace what the timers report.
    pub open spec fn shifts(self) -> bool {
        self.active && self.snap is Some
    }

    /// What the performance counter reports for `now`.
    pub open spec fn counter(self, now: i64) -> int {
        if self.shifts() {
            let s = self.snap->0;
            scaled(now as int, s.qa as int, s.qv as int, s.milli as int)
        } else {
            now as int
        }
    }

    /// What the 64-bit tick count reports for `now`.
    pub open spec fn tick64(self, now: u64) -> int {
        if self.shifts() {
            let s = self.snap->0;
            wrap_u64(
                scaled(wrap_i64(now as int), s.t64a as int, s.t64v as int, s.milli as int),
            )
        } else {
            now as int
        }
    }

    /// What the 32-bit tick count reports for `now`.
    pub open spec fn tick32(self, now: u32) -> int {
        if self.shifts() {
            let s = self.snap->0;
            wrap_u32(scaled(now as int, s.ta as int, s.tv as int, s.milli as int))
        } else {
            now as int
        }
    }

    /// What the multimedia timer reports for `now`.
    pub open spec fn multimedia(self, now: u32) -> int {
        if self.shifts() {
            let s = self.snap->0;
            wrap_u32(scaled(now as int, s.ma as int, s.mv as int, s.milli as int))
        } else {
            now as int
        }
    }

    /// The clock after a jump: unchanged while there are no anchors.
    pub open spec fn jumped(self, ms: int) -> Clock {
        match self.snap {
            Some(s) => Clock {
                snap: Some(s.jumped(self.freq as int, ms)),
                freq: self.freq,
                active: true,
            },
            None => self,
        }
    }

    /// A clock without anchors: every hook reports the real time.
    pub fn new(freq: i64) -> (clock: Clock)
        ensures
            clock == (Clock { snap: None, freq, active: false }),
            clock.wf(),
    {
        Clock { snap: None, freq, active: false }
    }
}

/// Maps a real reading to the virtual one: `v + (real - a) * milli / 1000`, rounded toward zero.
pub fn scale(now: i64, a: i64, v: i64, milli: i64) -> (r: i64)
    ensures
        r == scaled(now as int, a as int, v as int, milli as int),
{
    sum(v, low_i64(divide(product(difference(now, a), milli), 1000)))
}

/// The snapshot at 1x in which virtual time equals real time, from one reading of each timer.
pub fn initial_snap(q: i64, t64: u64, t: u32, m: u32) -> (s: Snap)
    ensures
        s == (Snap {
            milli: 1000,
            qa: q,
            qv: q,
            t64a: wrap_i64(t64 as int) as i64,
            t64v: wrap_i64(t64 as int) as i64,
            ta: t as i64,
            tv: t as i64,
            ma: m as i64,
            mv: m as i64,
        }),
        s.normal_rate(),
        s.unshifted(),
{
    let t64: i64 = u64_as_i64(t64);
    let t: i64 = t as i64;
    let m: i64 = m as i64;
    Snap { milli: 1000, qa: q, qv: q, t64a: t64, t64v: t64, ta: t, tv: t, ma: m, mv: m }
}

/// The clock with which the hooks start: at 1x, without an offset.
pub fn install_clock(freq: i64, q: i64, t64: u64, t: u32, m: u32) -> (clock: Clock)
    ensures
        clock.freq == freq,
        !clock.active,
        clock.wf(),
        clock.snap matches Some(s) && s.unshifted() && s.qa == q && s.t64a == wrap_i64(t64 as int)
            && s.ta == t && s.ma == m,
        clock.snap matches Some(s) && s.milli == 1000 && s.qv == q && s.t64v == s.t64a && s.tv == t
            && s.mv == m,
{
    let mut clock = Clock::new(freq);
    store_snap(&mut clock, initial_snap(q, t64, t, m));
    clock
}

/// Replaces the snapshot.
pub fn store_snap(clock: &mut Clock, s: Snap)
    ensures
        *final(clock) == (Clock { snap: Some(s), freq: old(clock).freq, active: old(clock).active }),
{
    clock.snap = Some(s);
}

/// Shifts every timer forward by `ms` without changing the rate. A timed wait
/// (`now - start >= deadline`) then sees its deadline met and exits; frame deltas are unaffected,
/// since the offset cancels in `now - prev`. Does nothing while there is no snapshot.
pub fn jump_clock(clock: &mut Clock, ms: i64)
    ensures
        *final(clock) == old(clock).jumped(ms as int),
        old(clock).wf() ==> final(clock).wf(),
{
    if let Some(o) = clock.snap {
        let ticks: i64 = low_i64(divide(product(ms, clock.freq), 1000));
        store_snap(
            clock,
            Snap {
                milli: o.milli,
                qa: o.qa,
                qv: sum(o.qv, ticks),
                t64a: o.t64a,
                t64v: sum(o.t64v, ms),
                ta: o.ta,
                tv: sum(o.tv, ms),
                ma: o.ma,
                mv: sum(o.mv, ms),
            },
        );
        clock.active = true;
    }
}

/// The value that the `QueryPerformanceCounter` hook leaves behind, given the result code of the
/// real call and the value that it wrote.
pub fn hk_qpc(clock: &Clock, code: i32, out: i64) -> (r: i64)
    ensures
        code != 0 ==> r == clock.counter(out),
        code == 0 ==> r == out,
{
    if code != 0 && clock.active {
        if let Some(s) = clock.snap {
            return scale(out, s.qa, s.qv, s.milli);
        }
    }
    out
}

/// The value that the `GetTickCount64` hook returns.
pub fn hk_gtc64(clock: &Clock, now: u64) -> (r: u64)
    ensures
        r == clock.tick64(now),
{
    if !clock.active {
        return now;
    }
    match clock.snap {
        Some(s) => i64_as_u64(scale(u64_as_i64(now), s.t64a, s.t64v, s.milli)),
        None => now,
    }
}

/// The value that the `GetTickCount` hook returns.
pub fn hk_gtc(clock: &Clock, now: u32) -> (r: u32)
    ensures
        r == clock.tick32(now),
{
    if !clock.active {
        return now;
    }
    match clock.snap {
        Some(s) => low_u32(scale(now as i64, s.ta, s.tv, s.milli)),
        None => now,
    }
}

/// The value that the `timeGetTime` hook returns.
pub fn hk_mm(clock: &Clock, now: u32) -> (r: u32)
    ensures
        r == clock.multimedia(now),
{
    if !clock.active {
        return now;
    }
    match clock.snap {
        Some(s) => low_u32(scale(now as i64, s.ma, s.mv, s.milli)),
        None => now,
    }
}

/// Milliseconds that the real counter value `qpc` stands for; zero while the frequency is unknown.
pub open spec fn millis(freq: int, qpc: int) -> int {
    if freq == 0 {
        0
    } else {
        wrap_i64(quotient(qpc * 1000, freq))
    }
}

/// The real time in milliseconds, from the counter's frequency and its value.
pub fn now_ms(freq: i64, qpc: i64) -> (r: i64)
    ensures
        r == millis(freq as int, qpc as int),
{
    if freq == 0 {
        return 0;
    }
    low_i64(divide(qpc as i128 * 1000, freq as i128))
}

/// How far a virtual anchor is ahead of its real one, before wrapping.
pub open spec fn offset(a: i64, v: i64) -> int {
    v - a
}

impl Clock {
    /// How far the performance counter is ahead of the real one.
    pub open spec fn counter_offset(self) -> int {
        match self.snap {
            Some(s) => offset(s.qa, s.qv),
            None => 0,
        }
    }

    /// How far the 64-bit tick count is ahead of the real one.
    pub open spec fn tick64_offset(self) -> int {
        match self.snap {
            Some(s) => offset(s.t64a, s.t64v),
            None => 0,
        }
    }

    /// How far the 32-bit tick count is ahead of the real one.
    pub open spec fn tick32_offset(self) -> int {
        match self.snap {
            Some(s) => offset(s.ta, s.tv),
            None => 0,
        }
    }

    /// How far the multimedia timer is ahead of the real one.
    pub open spec fn multimedia_offset(self) -> int {
        match self.snap {
            Some(s) => offset(s.ma, s.mv),
            None => 0,
        }
    }
}

/// At 1x a virtual reading is the real one plus the offset of the anchors, modulo 2^64.
pub proof fn law_normal_rate_is_an_offset(now: int, a: i64, v: i64)
    ensures
        scaled(now, a as int, v as int, 1000) == wrap_i64(now + offset(a, v)),
{
    lemma_quotient_cancels(wrap_i64(now - a), 1000);
    lemma_wrap_i64_sum(0, wrap_i64(now - a));
    lemma_wrap_i64_sum(0, now - a);
    lemma_wrap_i64_sum(v as int, now - a);
    assert(v + (now - a) == now + offset(a, v));
}

/// A well-formed clock reports the real time plus a constant, on each timer.
pub proof fn law_readings_are_offsets(clock: Clock, q: i64, t: u64, s: u32)
    requires
        clock.wf(),
    ensures
        clock.counter(q) == wrap_i64(q + clock.counter_offset()),
        clock.tick64(t) == wrap_u64(t + clock.tick64_offset()),
        clock.tick32(s) == wrap_u32(s + clock.tick32_offset()),
        clock.multimedia(s) == wrap_u32(s + clock.multimedia_offset()),
{
    if clock.shifts() {
        let n = clock.snap->0;
        law_normal_rate_is_an_offset(q as int, n.qa, n.qv);
        law_normal_rate_is_an_offset(wrap_i64(t as int), n.t64a, n.t64v);
        law_normal_rate_is_an_offset(s as int, n.ta, n.tv);
        law_normal_rate_is_an_offset(s as int, n.ma, n.mv);
        let o = clock.tick64_offset();
        lemma_wrap_u64_sum(0, wrap_i64(t as int) + o);
        lemma_wrap_u64_sum(o, t as int);
        lemma_wrap_u32_sum(0, s + clock.tick32_offset());
        lemma_wrap_u32_sum(0, s + clock.multimedia_offset());
    }
}

/// Before the first jump every timer reports the real time.
pub proof fn law_unshifted_clock_is_real(clock: Clock, q: i64, t: u64, s: u32)
    requires
        clock.wf(),
        !clock.active,
    ensures
        clock.counter(q) == q,
        clock.tick64(t) == t,
        clock.tick32(s) == s,
        clock.multimedia(s) == s,
{
}

/// A jump moves every timer forward by the same time: the three tick timers by `ms`, the counter
/// by as many ticks as it makes in `ms`.
pub proof fn law_jump_shifts_every_timer(clock: Clock, ms: i64, q: i64, t: u64, s: u32)
    requires
        clock.wf(),
        clock.snap is Some,
    ensures
        clock.jumped(ms as int).counter(q) == wrap_i64(
            clock.counter(q) + counter_ticks(ms as int, clock.freq as int),
        ),
        clock.jumped(ms as int).tick64(t) == wrap_u64(clock.tick64(t) + ms),
        clock.jumped(ms as int).tick32(s) == wrap_u32(clock.tick32(s) + ms),
        clock.jumped(ms as int).multimedia(s) == wrap_u32(clock.multimedia(s) + ms),
{
    let n = clock.snap->0;
    let ticks = counter_ticks(ms as int, clock.freq as int);
    law_readings_are_offsets(clock, q, t, s);
    law_readings_are_offsets(clock.jumped(ms as int), q, t, s);
    lemma_wrap_shift(q as int, n.qv as int, n.qa as int, ticks);
    lemma_wrap_shift(t as int, n.t64v as int, n.t64a as int, ms as int);
    lemma_wrap_shift(s as int, n.tv as int, n.ta as int, ms as int);
    lemma_wrap_shift(s as int, n.mv as int, n.ma as int, ms as int);
}

/// Between two readings of one clock as much virtual time passes as real time: frame deltas and
/// the rate of every timer are unaffected by the offset.
pub proof fn law_deltas_are_real(
    clock: Clock,
    q1: i64,
    q2: i64,
    t1: u64,
    t2: u64,
    s1: u32,
    s2: u32,
)
    requires
        clock.wf(),
    ensures
        wrap_i64(clock.counter(q2) - clock.counter(q1)) == wrap_i64(q2 - q1),
        wrap_u64(clock.tick64(t2) - clock.tick64(t1)) == wrap_u64(t2 - t1),
        wrap_u32(clock.tick32(s2) - clock.tick32(s1)) == wrap_u32(s2 - s1),
        wrap_u32(clock.multimedia(s2) - clock.multimedia(s1)) == wrap_u32(s2 - s1),
{
    law_readings_are_offsets(clock, q1, t1, s1);
    law_readings_are_offsets(clock, q2, t2, s2);
    lemma_wrap_delta(q2 as int, q1 as int, clock.counter_offset());
    lemma_wrap_delta(t2 as int, t1 as int, clock.tick64_offset());
    lemma_wrap_delta(s2 as int, s1 as int, clock.tick32_offset());
    lemma_wrap_delta(s2 as int, s1 as int, clock.multimedia_offset());
}

/// A wait that took its start before the jump and looks at a timer after it sees `ms` more than the
/// time that really passed.
pub proof fn law_jump_adds_to_elapsed(
    clock: Clock,
    ms: i64,
    q1: i64,
    q2: i64,
    t1: u64,
    t2: u64,
    s1: u32,
    s2: u32,
)
    requires
        clock.wf(),
        clock.snap is Some,
    ensures
        wrap_i64(clock.jumped(ms as int).counter(q2) - clock.counter(q1)) == wrap_i64(
            q2 - q1 + counter_ticks(ms as int, clock.freq as int),
        ),
        wrap_u64(clock.jumped(ms as int).tick64(t2) - clock.tick64(t1)) == wrap_u64(t2 - t1 + ms),
        wrap_u32(clock.jumped(ms as int).tick32(s2) - clock.tick32(s1)) == wrap_u32(s2 - s1 + ms),
        wrap_u32(clock.jumped(ms as int).multimedia(s2) - clock.multimedia(s1)) == wrap_u32(
            s2 - s1 + ms,
        ),
{
    let ticks = counter_ticks(ms as int, clock.freq as int);
    law_jump_shifts_every_timer(clock, ms, q2, t2, s2);
    law_readings_are_offsets(clock, q1, t1, s1);
    law_readings_are_offsets(clock, q2, t2, s2);
    lemma_elapsed(q2 as int, q1 as int, clock.counter_offset(), ticks);
    lemma_elapsed(t2 as int, t1 as int, clock.tick64_offset(), ms as int);
    lemma_elapsed(s2 as int, s1 as int, clock.tick32_offset(), ms as int);
    lemma_elapsed(s2 as int, s1 as int, clock.multimedia_offset(), ms as int);
}

proof fn lemma_elapsed(x: int, y: int, offset: int, ms: int)
    ensures
        wrap_i64(wrap_i64(wrap_i64(x + offset) + ms) - wrap_i64(y + offset)) == wrap_i64(
            x - y + ms,
        ),
        wrap_u64(wrap_u64(wrap_u64(x + offset) + ms) - wrap_u64(y + offset)) == wrap_u64(
            x - y + ms,
        ),
        wrap_u32(wrap_u32(wrap_u32(x + offset) + ms) - wrap_u32(y + offset)) == wrap_u32(
            x - y + ms,
        ),
{
    lemma_wrap_i64_sum(ms, x + offset);
    lemma_wrap_u64_sum(ms, x + offset);
    lemma_wrap_u32_sum(ms, x + offset);
    lemma_wrap_delta(x + ms, y, offset);
}

/// A wait that took its start before the jump ends at once if its deadline is at most `ms` away,
/// whichever timer it looks at, wherever the elapsed time fits in that timer.
pub proof fn law_jump_meets_deadline(
    clock: Clock,
    ms: i64,
    q1: i64,
    q2: i64,
    t1: u64,
    t2: u64,
    s1: u32,
    s2: u32,
)
    requires
        clock.wf(),
        clock.snap is Some,
        0 <= ms,
        0 <= counter_ticks(ms as int, clock.freq as int),
        q1 <= q2,
        t1 <= t2,
        s1 <= s2,
    ensures
        ({
            let ticks = counter_ticks(ms as int, clock.freq as int);
            q2 - q1 + ticks <= i64::MAX ==> wrap_i64(
                clock.jumped(ms as int).counter(q2) - clock.counter(q1),
            ) >= ticks
        }),
        t2 - t1 + ms <= u64::MAX ==> wrap_u64(
            clock.jumped(ms as int).tick64(t2) - clock.tick64(t1),
        ) >= ms,
        s2 - s1 + ms <= u32::MAX ==> wrap_u32(
            clock.jumped(ms as int).tick32(s2) - clock.tick32(s1),
        ) >= ms,
        s2 - s1 + ms <= u32::MAX ==> wrap_u32(
            clock.jumped(ms as int).multimedia(s2) - clock.multimedia(s1),
        ) >= ms,
{
    let next = clock.jumped(ms as int);
    let ticks = counter_ticks(ms as int, clock.freq as int);
    let (dq, dt, d32, dm) = (
        next.counter(q2) - clock.counter(q1),
        next.tick64(t2) - clock.tick64(t1),
        next.tick32(s2) - clock.tick32(s1),
        next.multimedia(s2) - clock.multimedia(s1),
    );
    law_jump_adds_to_elapsed(clock, ms, q1, q2, t1, t2, s1, s2);
    lemma_meets(dq, dt, d32, dm, q2 - q1, ticks, t2 - t1, s2 - s1, ms as int);
}

proof fn lemma_meets(
    dq: int,
    dt: int,
    d32: int,
    dm: int,
    q: int,
    ticks: int,
    t: int,
    s: int,
    ms: int,
)
    requires
        wrap_i64(dq) == wrap_i64(q + ticks),
        wrap_u64(dt) == wrap_u64(t + ms),
        wrap_u32(d32) == wrap_u32(s + ms),
        wrap_u32(dm) == wrap_u32(s + ms),
        0 <= q,
        0 <= ticks,
        0 <= t,
        0 <= s,
        0 <= ms,
    ensures
        q + ticks <= i64::MAX ==> wrap_i64(dq) >= ticks,
        t + ms <= u64::MAX ==> wrap_u64(dt) >= ms,
        s + ms <= u32::MAX ==> wrap_u32(d32) >= ms,
        s + ms <= u32::MAX ==> wrap_u32(dm) >= ms,
{
    lemma_wrap_fits(q + ticks);
    lemma_wrap_fits(t + ms);
    lemma_wrap_fits(s + ms);
}

/// Two jumps move the tick timers as far as one jump over the sum; the anchors of real time and the
/// rate never change.
pub proof fn law_jumps_add_up(clock: Clock, a: i64, b: i64)
    requires
        clock.snap is Some,
    ensures
        ({
            let one = clock.jumped(a + b).snap->0;
            let two = clock.jumped(a as int).jumped(b as int).snap->0;
            let start = clock.snap->0;
            &&& two.t64v == one.t64v
            &&& two.tv == one.tv
            &&& two.mv == one.mv
            &&& two.milli == start.milli
            &&& two.qa == start.qa
            &&& two.t64a == start.t64a
            &&& two.ta == start.ta
            &&& two.ma == start.ma
        }),
{
    let s = clock.snap->0;
    lemma_wrap_i64_sum(b as int, s.t64v + a);
    lemma_wrap_i64_sum(b as int, s.tv + a);
    lemma_wrap_i64_sum(b as int, s.mv + a);
    assert(b + (s.t64v + a) == s.t64v + (a + b));
    assert(b + (s.tv + a) == s.tv + (a + b));
    assert(b + (s.mv + a) == s.mv + (a + b));
}

/// A virtual reading is `v` plus the real time since `a`, `d`, times `milli` / 1000, rounded toward
/// zero; both steps modulo 2^64.
pub proof fn law_scaled(now: int, a: int, v: int, milli: int, d: int, q: int, r: int)
    requires
        i64::MIN <= d <= i64::MAX,
        (d - (now - a)) % 0x1_0000_0000_0000_0000 == 0,
        divides(d * milli, 1000, q, r),
    ensures
        i64::MIN <= scaled(now, a, v, milli) <= i64::MAX,
        (scaled(now, a, v, milli) - (v + q)) % 0x1_0000_0000_0000_0000 == 0,
{
    lemma_same_wrap(d, now - a);
    law_wrap(d);
    law_quotient(d * milli, 1000, q, r);
    lemma_wrap_i64_sum(v, q);
    law_wrap(v + q);
}

/// While the hooks apply the anchors, each timer is scaled with its own.
pub proof fn law_active_readings(clock: Clock, q: i64, t: u64, s: u32)
    requires
        clock.active,
        clock.snap is Some,
    ensures
        ({
            let n = clock.snap->0;
            let (m, c, t64, t32, mm) = (
                n.milli as int,
                clock.counter(q),
                clock.tick64(t),
                clock.tick32(s),
                clock.multimedia(s),
            );
            &&& c == scaled(q as int, n.qa as int, n.qv as int, m)
            &&& 0 <= t64 <= u64::MAX
            &&& (t64 - scaled(t as int, n.t64a as int, n.t64v as int, m)) % 0x1_0000_0000_0000_0000
                == 0
            &&& 0 <= t32 <= u32::MAX
            &&& (t32 - scaled(s as int, n.ta as int, n.tv as int, m)) % 0x1_0000_0000 == 0
            &&& 0 <= mm <= u32::MAX
            &&& (mm - scaled(s as int, n.ma as int, n.mv as int, m)) % 0x1_0000_0000 == 0
        }),
{
    let n = clock.snap->0;
    let w = wrap_i64(t as int);
    assert(scaled(w, n.t64a as int, n.t64v as int, n.milli as int) == scaled(
        t as int,
        n.t64a as int,
        n.t64v as int,
        n.milli as int,
    )) by {
        lemma_wrap_i64_sum(-n.t64a, t as int);
        assert(w - n.t64a == -n.t64a + w);
        assert(t - n.t64a == -n.t64a + t);
    }
    law_wrap(scaled(t as int, n.t64a as int, n.t64v as int, n.milli as int));
    law_wrap(scaled(s as int, n.ta as int, n.tv as int, n.milli as int));
    law_wrap(scaled(s as int, n.ma as int, n.mv as int, n.milli as int));
}

/// A well-formed clock reports on each timer the real time plus the distance of the timer's own
/// anchors, modulo the range of the timer; without anchors, the real time.
pub proof fn law_readings(clock: Clock, q: i64, t: u64, s: u32)
    requires
        clock.wf(),
    ensures
        i64::MIN <= clock.counter(q) <= i64::MAX,
        0 <= clock.tick64(t) <= u64::MAX,
        0 <= clock.tick32(s) <= u32::MAX,
        0 <= clock.multimedia(s) <= u32::MAX,
        match clock.snap {
            Some(n) => {
                &&& (clock.counter(q) - (q + n.qv - n.qa)) % 0x1_0000_0000_0000_0000 == 0
                &&& (clock.tick64(t) - (t + n.t64v - n.t64a)) % 0x1_0000_0000_0000_0000 == 0
                &&& (clock.tick32(s) - (s + n.tv - n.ta)) % 0x1_0000_0000 == 0
                &&& (clock.multimedia(s) - (s + n.mv - n.ma)) % 0x1_0000_0000 == 0
            },
            None => {
                &&& clock.counter(q) == q
                &&& clock.tick64(t) == t
                &&& clock.tick32(s) == s
                &&& clock.multimedia(s) == s
            },
        },
{
    law_readings_are_offsets(clock, q, t, s);
    law_wrap(q + clock.counter_offset());
    law_wrap(t + clock.tick64_offset());
    law_wrap(s + clock.tick32_offset());
    law_wrap(s + clock.multimedia_offset());
}

/// A jump by `ms` moves the virtual anchor of each tick timer by `ms` and that of the counter by
/// `q`, the ticks that it makes in `ms`: `ms * freq / 1000`, rounded toward zero. Nothing else of
/// the anchors changes, and from then on the hooks apply them.
pub proof fn law_jump(clock: Clock, ms: i64, q: int, r: int)
    requires
        clock.snap is Some,
        divides(ms * clock.freq, 1000, q, r),
    ensures
        ({
            let next = clock.jumped(ms as int);
            let (o, n) = (clock.snap->0, next.snap->0);
            &&& next.snap is Some
            &&& next.active
            &&& next.freq == clock.freq
            &&& n.milli == o.milli
            &&& n.qa == o.qa
            &&& n.t64a == o.t64a
            &&& n.ta == o.ta
            &&& n.ma == o.ma
            &&& (n.qv - (o.qv + q)) % 0x1_0000_0000_0000_0000 == 0
            &&& (n.t64v - (o.t64v + ms)) % 0x1_0000_0000_0000_0000 == 0
            &&& (n.tv - (o.tv + ms)) % 0x1_0000_0000_0000_0000 == 0
            &&& (n.mv - (o.mv + ms)) % 0x1_0000_0000_0000_0000 == 0
        }),
{
    let o = clock.snap->0;
    law_quotient(ms * clock.freq, 1000, q, r);
    lemma_wrap_i64_sum(o.qv as int, q);
    law_wrap(o.qv + q);
    law_wrap(o.t64v + ms);
    law_wrap(o.tv + ms);
    law_wrap(o.mv + ms);
}

/// Where nothing overflows, a jump by `ms` moves the counter's virtual anchor by exactly
/// `ms * freq / 1000` ticks, which is `ms * (freq / 1000)` for a whole number of ticks per
/// millisecond, and those of the tick timers by exactly `ms`: all timers by the same time.
pub proof fn law_jump_moves_all_timers_alike(clock: Clock, ms: i64)
    requires
        clock.snap is Some,
        0 <= ms,
        0 < clock.freq,
    ensures
        ({
            let (o, n) = (clock.snap->0, clock.jumped(ms as int).snap->0);
            let ticks = ms * clock.freq / 1000;
            &&& o.qv + ticks <= i64::MAX ==> n.qv - o.qv == ticks
            &&& o.qv + ticks <= i64::MAX && clock.freq % 1000 == 0 ==> n.qv - o.qv == ms * (
            clock.freq as int / 1000)
            &&& o.t64v + ms <= i64::MAX ==> n.t64v - o.t64v == ms
            &&& o.tv + ms <= i64::MAX ==> n.tv - o.tv == ms
            &&& o.mv + ms <= i64::MAX ==> n.mv - o.mv == ms
        }),
{
    let (o, n) = (clock.snap->0, clock.jumped(ms as int).snap->0);
    let p = ms * clock.freq;
    let ticks = p / 1000;
    assert(0 <= p) by (nonlinear_arith)
        requires
            0 <= ms,
            0 < clock.freq,
            p == ms * clock.freq,
    ;
    law_jump(clock, ms, ticks, p % 1000);
    law_wrap(o.qv + ticks);
    law_wrap(o.t64v + ms);
    law_wrap(o.tv + ms);
    law_wrap(o.mv + ms);
    lemma_same_wrap(n.qv as int, o.qv + ticks);
    law_wrap(n.qv as int);
    if clock.freq % 1000 == 0 {
        let k = clock.freq as int / 1000;
        assert(p == 1000 * (ms * k)) by (nonlinear_arith)
            requires
                p == ms * clock.freq,
                clock.freq == 1000 * k,
        ;
    }
}

/// Without anchors a jump changes nothing.
pub proof fn law_no_jump_without_anchors(clock: Clock, ms: int)
    requires
        clock.snap is None,
    ensures
        clock.jumped(ms) == clock,
{
}

/// After a jump the counter is further ahead by `ms * freq / 1000` ticks and each tick timer by
/// `ms`, at every reading, modulo the range of the timer.
pub proof fn law_jump_shows_in_every_reading(clock: Clock, ms: i64, q: i64, t: u64, s: u32)
    requires
        clock.wf(),
        clock.snap is Some,
        0 <= ms,
        0 < clock.freq,
    ensures
        ({
            let next = clock.jumped(ms as int);
            &&& (next.counter(q) - clock.counter(q) - ms * clock.freq / 1000)
                % 0x1_0000_0000_0000_0000 == 0
            &&& (next.tick64(t) - clock.tick64(t) - ms) % 0x1_0000_0000_0000_0000 == 0
            &&& (next.tick32(s) - clock.tick32(s) - ms) % 0x1_0000_0000 == 0
            &&& (next.multimedia(s) - clock.multimedia(s) - ms) % 0x1_0000_0000 == 0
        }),
{
    let p = ms * clock.freq;
    assert(0 <= p) by (nonlinear_arith)
        requires
            0 <= ms,
            0 < clock.freq,
            p == ms * clock.freq,
    ;
    law_quotient(p, 1000, p / 1000, p % 1000);
    lemma_wrap_i64_sum(clock.counter(q), p / 1000);
    law_jump_shifts_every_timer(clock, ms, q, t, s);
    law_wrap(clock.counter(q) + p / 1000);
    law_wrap(clock.tick64(t) + ms);
    law_wrap(clock.tick32(s) + ms);
    law_wrap(clock.multimedia(s) + ms);
    lemma_regroup(
        clock.jumped(ms as int).counter(q),
        clock.counter(q),
        p / 1000,
        0x1_0000_0000_0000_0000,
    );
    lemma_regroup(
        clock.jumped(ms as int).tick64(t),
        clock.tick64(t),
        ms as int,
        0x1_0000_0000_0000_0000,
    );
    lemma_regroup(clock.jumped(ms as int).tick32(s), clock.tick32(s), ms as int, 0x1_0000_0000);
    lemma_regroup(
        clock.jumped(ms as int).multimedia(s),
        clock.multimedia(s),
        ms as int,
        0x1_0000_0000,
    );
}

proof fn lemma_regroup(x: int, y: int, z: int, m: int)
    ensures
        (x - y - z) % m == (x - (y + z)) % m,
{
    assert(x - y - z == x - (y + z));
}

/// The time in milliseconds is a thousand times the counter divided by its frequency, rounded
/// toward zero, modulo 2^64; zero while the frequency is unknown.
pub proof fn law_millis(freq: int, qpc: int, q: int, r: int)
    requires
        freq != 0 ==> divides(qpc * 1000, freq, q, r),
    ensures
        freq == 0 ==> millis(freq, qpc) == 0,
        freq != 0 ==> (millis(freq, qpc) - q) % 0x1_0000_0000_0000_0000 == 0,
        i64::MIN <= millis(freq, qpc) <= i64::MAX,
        freq != 0 && i64::MIN <= q <= i64::MAX ==> millis(freq, qpc) == q,
{
    if freq != 0 {
        law_quotient(qpc * 1000, freq, q, r);
    }
    law_wrap(q);
}

/// A well-formed clock runs at 1x, is active only with anchors, and has equal anchors until then.
pub proof fn law_well_formed(clock: Clock)
    ensures
        clock.wf() <==> {
            &&& clock.active ==> clock.snap is Some
            &&& clock.snap is Some ==> clock.snap->0.milli == 1000
            &&& !clock.active && clock.snap is Some ==> {
                let s = clock.snap->0;
                s.qa == s.qv && s.t64a == s.t64v && s.ta == s.tv && s.ma == s.mv
            }
        },
{
}

/// Unless the hooks apply anchors, every timer reports the real time, whatever the anchors are.
pub proof fn law_inactive_readings(clock: Clock, q: i64, t: u64, s: u32)
    requires
        !clock.active || clock.snap is None,
    ensures
        clock.counter(q) == q,
        clock.tick64(t) == t,
        clock.tick32(s) == s,
        clock.multimedia(s) == s,
{
}

/// The anchors are equal where each virtual one is the real one, and the rate is normal at 1x.
pub proof fn law_anchors(s: Snap)
    ensures
        s.unshifted() <==> s.qa == s.qv && s.t64a == s.t64v && s.ta == s.tv && s.ma == s.mv,
        s.normal_rate() <==> s.milli == 1000,
{
}

} // verus!
