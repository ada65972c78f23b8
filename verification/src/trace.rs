//! What holds of the monitor, and of the clock that it moves, over whole runs.

use vstd::prelude::*;

#[allow(unused_imports)]
use crate::arith::{
    law_wrap, lemma_same_wrap, lemma_wrap_fits, lemma_wrap_i64_sum, wrap_i64, wrap_u64,
};
#[allow(unused_imports)]
use crate::clock::{counter_ticks, Clock};
#[allow(unused_imports)]
use crate::config::Settings;
#[allow(unused_imports)]
use crate::event::Event;
#[allow(unused_imports)]
use crate::monitor::{
    read_over_window, spin_multiple, with_read, GateAction, State, CALM_STOP, CAP, COOLDOWN_MS,
    GATE_MS, WATCH_MS,
};

verus! {

/// One step of the monitor.
pub ghost enum Step {
    Sample { t: i64, read: u64, counted: u64, intro_open: bool },
    Toggle { down: bool },
    Gate { intro_open: bool, intro_closed: bool },
    Spam,
}

impl State {
    /// After one step.
    pub open spec fn after(self, c: Settings, step: Step) -> State {
        match step {
            Step::Sample { t, read, counted, intro_open } => self.sampled(
                c,
                t,
                read,
                counted,
                intro_open,
            ),
            Step::Toggle { down } => self.toggled(down),
            Step::Gate { intro_open, intro_closed } => self.gated(c, intro_open, intro_closed),
            Step::Spam => self.spammed(c),
        }
    }

    /// After many steps, from the first to the last.
    pub open spec fn after_all(self, c: Settings, steps: Seq<Step>) -> State
        decreases steps.len(),
    {
        if steps.len() == 0 {
            self
        } else {
            self.after_all(c, steps.drop_last()).after(c, steps.last())
        }
    }

    /// The step moves the clock.
    pub open spec fn jumps_in(self, c: Settings, step: Step) -> bool {
        match step {
            Step::Gate { intro_open, intro_closed } => self.jumps_now(c, intro_open, intro_closed),
            _ => false,
        }
    }

    /// The step presses Enter.
    pub open spec fn presses_in(self, c: Settings, step: Step) -> bool {
        step is Spam && self.presses_now(c)
    }

    /// How often many steps press Enter.
    pub open spec fn presses(self, c: Settings, steps: Seq<Step>) -> nat
        decreases steps.len(),
    {
        if steps.len() == 0 {
            0
        } else {
            self.presses(c, steps.drop_last()) + if self.after_all(
                c,
                steps.drop_last(),
            ).presses_in(c, steps.last()) {
                1nat
            } else {
                0nat
            }
        }
    }

    /// The clock after many steps, each move of which is carried out.
    pub open spec fn clock_after(self, c: Settings, clock: Clock, steps: Seq<Step>) -> Clock
        decreases steps.len(),
    {
        if steps.len() == 0 {
            clock
        } else {
            let before = self.clock_after(c, clock, steps.drop_last());
            if self.after_all(c, steps.drop_last()).jumps_in(c, steps.last()) {
                before.jumped(c.jump_ms)
            } else {
                before
            }
        }
    }
}

/// Every step keeps the state well-formed.
pub proof fn law_runs_stay_well_formed(s: State, c: Settings, steps: Seq<Step>)
    requires
        s.wf(),
    ensures
        s.after_all(c, steps).wf(),
    decreases steps.len(),
{
    if steps.len() > 0 {
        law_runs_stay_well_formed(s, c, steps.drop_last());
    }
}

/// The clock is moved a limited number of times, each time by the same distance. So the total is
/// limited too, to the distance times that number.
pub proof fn law_total_is_limited(c: Settings, t0: i64, counted: u64, steps: Seq<Step>)
    ensures
        ({
            let s = State::fresh(c, t0, counted).after_all(c, steps);
            &&& s.jumps <= CAP
            &&& s.total == wrap_i64(s.jumps * c.jump_ms)
            &&& 0 <= c.jump_ms && CAP * c.jump_ms <= i64::MAX ==> 0 <= s.total <= CAP * c.jump_ms
        }),
    decreases steps.len(),
{
    let first = State::fresh(c, t0, counted);
    let s = first.after_all(c, steps);
    law_runs_stay_well_formed(first, c, steps);
    if steps.len() > 0 {
        law_total_is_limited(c, t0, counted, steps.drop_last());
        law_runs_stay_well_formed(first, c, steps.drop_last());
        lemma_step_total(first.after_all(c, steps.drop_last()), c, steps.last());
    } else {
        assert(s.jumps * c.jump_ms == 0) by (nonlinear_arith)
            requires
                s.jumps == 0,
        ;
    }
    assert(0 <= c.jump_ms ==> 0 <= s.jumps * c.jump_ms <= CAP * c.jump_ms) by (nonlinear_arith)
        requires
            0 <= s.jumps <= CAP,
    ;
    lemma_wrap_fits(s.jumps * c.jump_ms);
}

proof fn lemma_step_total(s: State, c: Settings, step: Step)
    requires
        s.wf(),
    ensures
        s.jumps_in(c, step) ==> s.after(c, step).jumps == s.jumps + 1,
        !s.jumps_in(c, step) ==> s.after(c, step).jumps == s.jumps && s.after(c, step).total
            == s.total,
        s.jumps_in(c, step) ==> s.after(c, step).total == wrap_i64(s.total + c.jump_ms),
        s.total == wrap_i64(s.jumps * c.jump_ms) ==> s.after(c, step).total == wrap_i64(
            s.after(c, step).jumps * c.jump_ms,
        ),
{
    lemma_wrap_i64_sum(c.jump_ms, s.jumps * c.jump_ms);
    assert(c.jump_ms + s.jumps * c.jump_ms == (s.jumps + 1) * c.jump_ms) by (nonlinear_arith);
}

/// The tick timers are ahead of the real time by the total that the monitor reports, and the
/// counter by the ticks of as many moves.
pub proof fn law_clock_is_ahead_by_total(
    c: Settings,
    t0: i64,
    counted: u64,
    clock: Clock,
    steps: Seq<Step>,
)
    requires
        clock.wf(),
        clock.snap is Some,
        clock.snap->0.unshifted(),
    ensures
        ({
            let s = State::fresh(c, t0, counted).after_all(c, steps);
            let later = State::fresh(c, t0, counted).clock_after(c, clock, steps);
            &&& later.freq == clock.freq
            &&& is_ahead(later, s.total as int, s.jumps as int, c.jump_ms)
        }),
    decreases steps.len(),
{
    let first = State::fresh(c, t0, counted);
    if steps.len() > 0 {
        law_clock_is_ahead_by_total(c, t0, counted, clock, steps.drop_last());
        law_runs_stay_well_formed(first, c, steps.drop_last());
        let before = first.after_all(c, steps.drop_last());
        let was = first.clock_after(c, clock, steps.drop_last());
        lemma_step_total(before, c, steps.last());
        if before.jumps_in(c, steps.last()) {
            lemma_clock_step(was, before.total as int, before.jumps as int, c.jump_ms);
        }
    } else {
        let ticks = counter_ticks(c.jump_ms, clock.freq as int);
        assert(0 * ticks == 0) by (nonlinear_arith);
        lemma_initial_anchors(clock);
    }
}

/// The anchors of a clock that was moved `jumps` times, by `total` in all.
pub open spec fn is_ahead(clock: Clock, total: int, jumps: int, ms: int) -> bool {
    let n = clock.snap->0;
    &&& clock.wf()
    &&& clock.snap is Some
    &&& n.t64v == wrap_i64(n.t64a + total)
    &&& n.tv == wrap_i64(n.ta + total)
    &&& n.mv == wrap_i64(n.ma + total)
    &&& n.qv == wrap_i64(n.qa + jumps * counter_ticks(ms, clock.freq as int))
}

proof fn lemma_initial_anchors(clock: Clock)
    requires
        clock.snap is Some,
        clock.snap->0.unshifted(),
    ensures
        ({
            let n = clock.snap->0;
            &&& n.t64v == wrap_i64(n.t64a as int)
            &&& n.tv == wrap_i64(n.ta as int)
            &&& n.mv == wrap_i64(n.ma as int)
            &&& n.qv == wrap_i64(n.qa as int)
        }),
{
}

proof fn lemma_clock_step(clock: Clock, total: int, jumps: int, ms: int)
    requires
        is_ahead(clock, total, jumps, ms),
    ensures
        is_ahead(clock.jumped(ms), wrap_i64(total + ms), jumps + 1, ms),
{
    let n = clock.snap->0;
    let ticks = counter_ticks(ms, clock.freq as int);
    lemma_moved(n.t64a as int, total, ms);
    lemma_moved(n.ta as int, total, ms);
    lemma_moved(n.ma as int, total, ms);
    lemma_wrap_i64_sum(ticks, n.qa + jumps * ticks);
    assert(ticks + (n.qa + jumps * ticks) == n.qa + (jumps + 1) * ticks) by (nonlinear_arith);
}

proof fn lemma_moved(a: int, total: int, ms: int)
    ensures
        wrap_i64(wrap_i64(a + total) + ms) == wrap_i64(a + wrap_i64(total + ms)),
{
    lemma_wrap_i64_sum(ms, a + total);
    lemma_wrap_i64_sum(a, total + ms);
    assert(ms + (a + total) == a + (total + ms));
}

/// Once the monitor is finished with the video it stays so, and never moves the clock again.
pub proof fn law_done_is_final(s: State, c: Settings, steps: Seq<Step>)
    requires
        s.done,
    ensures
        s.after_all(c, steps).done,
        s.after_all(c, steps).jumps == s.jumps,
        s.after_all(c, steps).total == s.total,
        s.after_all(c, steps).disarm_t == s.disarm_t,
        forall|step: Step| !(#[trigger] s.after_all(c, steps).jumps_in(c, step)),
    decreases steps.len(),
{
    if steps.len() > 0 {
        law_done_is_final(s, c, steps.drop_last());
    }
}

/// The clock is moved exactly while the video is open and not closed, the skip is not switched off,
/// the counter spins, the disk is quiet, the last move is long enough ago, and no limit is reached.
pub proof fn law_jump_is_for_the_hold(s: State, c: Settings, intro_open: bool, intro_closed: bool)
    ensures
        s.jumps_now(c, intro_open, intro_closed) <==> {
            &&& intro_open
            &&& !intro_closed
            &&& !s.done
            &&& !s.disabled
            &&& s.calls >= s.threshold
            &&& s.window_read < c.quiet_bytes
            &&& wrap_i64(s.t - s.last_jump) > COOLDOWN_MS
            &&& s.jumps < CAP
            &&& s.elapsed() <= GATE_MS
        },
{
}

/// A move that the monitor decides on is one jump of the clock by the distance of the settings.
pub proof fn law_jump_moves_the_clock(
    s: State,
    c: Settings,
    clock: Clock,
    intro_open: bool,
    intro_closed: bool,
)
    requires
        s.wf(),
        s.jumps_now(c, intro_open, intro_closed),
    ensures
        s.gated(c, intro_open, intro_closed).jumps == s.jumps + 1,
        s.clock_after(c, clock, seq![Step::Gate { intro_open, intro_closed }]) == clock.jumped(
            c.jump_ms,
        ),
        s.gate_action(c, intro_open, intro_closed) matches GateAction::Jump { ms, .. } && ms
            == c.jump_ms as i64,
{
    let steps = seq![Step::Gate { intro_open, intro_closed }];
    assert(steps.drop_last() == Seq::<Step>::empty());
    reveal_with_fuel(State::clock_after, 2);
    reveal_with_fuel(State::after_all, 2);
}

/// The number of calls that counts as a spin is at least what the settings ask for and at least a
/// multiple of the busiest poll before the video. Once the video is open, that poll stays the same.
pub proof fn law_threshold(
    s: State,
    c: Settings,
    t: i64,
    read: u64,
    counted: u64,
    intro_open: bool,
)
    requires
        0 <= c.qpc_spin_min <= u64::MAX,
    ensures
        ({
            let n = s.sampled(c, t, read, counted, intro_open);
            &&& n.threshold >= c.qpc_spin_min
            &&& n.threshold >= spin_multiple(n.baseline)
            &&& n.threshold == c.qpc_spin_min || n.threshold == spin_multiple(n.baseline)
            &&& n.baseline >= s.baseline
            &&& intro_open ==> n.baseline == s.baseline
            &&& !intro_open ==> n.baseline >= n.calls
        }),
{
}

/// While the skip is switched off, no step moves the clock or presses Enter.
pub proof fn law_disabled_does_nothing(s: State, c: Settings, step: Step)
    requires
        s.disabled,
    ensures
        !s.jumps_in(c, step),
        !s.presses_in(c, step),
        s.after(c, step).jumps == s.jumps,
        s.after(c, step).total == s.total,
        s.after(c, step).enters == s.enters,
{
}

/// Switching the skip off and on again leaves everything as it was.
pub proof fn law_toggle_twice(s: State)
    ensures
        s.toggled(true).toggled(true) == s,
{
}

/// The numbers of one poll.
pub ghost struct Reading {
    pub t: i64,
    pub read: u64,
    pub counted: u64,
}

impl State {
    /// After the numbers of a poll were taken while the video is open.
    pub open spec fn took(self, c: Settings, r: Reading) -> State {
        self.sampled(c, r.t, r.read, r.counted, true)
    }

    /// After a whole poll while the video is open.
    pub open spec fn polled(self, c: Settings, r: Reading) -> State {
        self.took(c, r).gated(c, true, false)
    }
}

/// After the clock was moved, as many polls without a spin in a row as [`CALM_STOP`] says finish
/// the job, however long the video goes on.
pub proof fn law_calm_finishes(s: State, c: Settings, r1: Reading, r2: Reading, r3: Reading)
    requires
        s.wf(),
        s.armed,
        !s.took(c, r1).spins(),
        !s.polled(c, r1).took(c, r2).spins(),
        !s.polled(c, r1).polled(c, r2).took(c, r3).spins(),
    ensures
        s.polled(c, r1).polled(c, r2).polled(c, r3).done,
{
}

/// The end of playback, the last allowed move and the time limit each finish the job.
pub proof fn law_limits_finish(s: State, c: Settings, intro_closed: bool)
    requires
        intro_closed || s.jumps >= CAP || s.elapsed() > GATE_MS,
    ensures
        s.gated(c, true, intro_closed).done,
        s.gated(c, true, intro_closed).jumps == s.jumps,
{
}

/// Between two moves of the clock at least the cooldown passes.
pub proof fn law_jumps_are_spaced(
    s: State,
    c: Settings,
    intro_open: bool,
    intro_closed: bool,
    steps: Seq<Step>,
    next: Step,
)
    requires
        s.wf(),
        s.jumps_now(c, intro_open, intro_closed),
        s.gated(c, intro_open, intro_closed).after_all(c, steps).jumps == s.jumps + 1,
        s.gated(c, intro_open, intro_closed).after_all(c, steps).jumps_in(c, next),
    ensures
        wrap_i64(s.gated(c, intro_open, intro_closed).after_all(c, steps).t - s.t) > COOLDOWN_MS,
{
    lemma_last_jump(s.gated(c, intro_open, intro_closed), c, steps);
}

proof fn lemma_last_jump(s: State, c: Settings, steps: Seq<Step>)
    requires
        s.wf(),
    ensures
        s.after_all(c, steps).jumps >= s.jumps,
        s.after_all(c, steps).jumps == s.jumps ==> s.after_all(c, steps).last_jump == s.last_jump,
    decreases steps.len(),
{
    if steps.len() > 0 {
        lemma_last_jump(s, c, steps.drop_last());
        law_runs_stay_well_formed(s, c, steps.drop_last());
    }
}

/// Between two presses of Enter at least the interval passes.
pub proof fn law_presses_are_spaced(s: State, c: Settings, steps: Seq<Step>)
    requires
        s.presses_now(c),
        s.spammed(c).presses(c, steps) == 0,
        s.spammed(c).after_all(c, steps).presses_now(c),
    ensures
        wrap_i64(s.spammed(c).after_all(c, steps).t - s.t) >= c.enter_interval_ms,
{
    lemma_presses(s.spammed(c), c, steps);
}

/// The number of presses that is reported is that of the presses, modulo 2^32.
pub proof fn law_presses_are_counted(s: State, c: Settings, steps: Seq<Step>)
    ensures
        s.after_all(c, steps).enters == (s.enters + s.presses(c, steps)) % 0x1_0000_0000,
    decreases steps.len(),
{
    if steps.len() > 0 {
        law_presses_are_counted(s, c, steps.drop_last());
    }
}

proof fn lemma_presses(s: State, c: Settings, steps: Seq<Step>)
    ensures
        s.presses(c, steps) == 0 ==> s.after_all(c, steps).last_enter_t == s.last_enter_t,
    decreases steps.len(),
{
    if steps.len() > 0 {
        lemma_presses(s, c, steps.drop_last());
    }
}

/// Enter is pressed only where the settings ask for it, after the job is done and not longer than
/// they allow.
pub proof fn law_press_needs_the_settings(s: State, c: Settings)
    requires
        s.presses_now(c),
    ensures
        c.enter_spammer,
        s.done,
        !s.disabled,
        wrap_i64(s.t - s.disarm_t) < c.enter_window_ms,
{
}

/// The samples that are kept after all of `reads` were taken.
pub open spec fn kept(reads: Seq<u64>, window: u32) -> Seq<u64>
    decreases reads.len(),
{
    if reads.len() == 0 {
        seq![]
    } else {
        with_read(kept(reads.drop_last(), window), window, reads.last())
    }
}

/// The samples that are kept are the last ones, as many as the window is long. So the bytes read
/// over the window are those since the sample that was taken that many polls ago.
pub proof fn law_window_is_rolling(reads: Seq<u64>, window: u32, read: u64)
    ensures
        kept(reads, window) == if reads.len() <= window {
            reads
        } else {
            reads.skip(reads.len() - window)
        },
        read_over_window(kept(reads, window), window, read) == if reads.len() < window {
            u64::MAX as int
        } else {
            wrap_u64(read - reads.push(read)[reads.len() - window])
        },
    decreases reads.len(),
{
    if reads.len() > 0 {
        law_window_is_rolling(reads.drop_last(), window, read);
        let prev = kept(reads.drop_last(), window);
        if reads.len() <= window {
            assert(prev.push(reads.last()) == reads);
        } else if window > 0 {
            assert(prev.drop_first().push(reads.last()) == reads.skip(reads.len() - window));
        } else {
            assert(prev == reads.skip(reads.len() as int));
        }
    }
}

/// `d` is `x - y`, modulo 2^64, as a signed number.
pub open spec fn is_distance(d: int, x: i64, y: i64) -> bool {
    &&& i64::MIN <= d <= i64::MAX
    &&& (d - (x - y)) % 0x1_0000_0000_0000_0000 == 0
}

proof fn lemma_distance(d: int, x: i64, y: i64)
    requires
        is_distance(d, x, y),
    ensures
        wrap_i64(x - y) == d,
{
    lemma_same_wrap(d, x - y);
    law_wrap(d);
}

/// The monitor starts with nothing seen and nothing done.
pub proof fn law_fresh(c: Settings, t0: i64, counted: u64)
    requires
        0 <= c.quiet_window_polls <= u32::MAX,
    ensures
        ({
            let s = State::fresh(c, t0, counted);
            &&& s.t0 == t0
            &&& s.counted == counted
            &&& s.window == c.quiet_window_polls
            &&& s.reads.len() == 0
            &&& s.t == t0
            &&& s.calls == 0
            &&& s.threshold == 0
            &&& s.window_read == 0xffff_ffff_ffff_ffff
            &&& s.baseline == 0
            &&& s.peak == 0
            &&& !s.disabled
            &&& !s.armed
            &&& s.calm == 0
            &&& s.jumps == 0
            &&& s.total == 0
            &&& s.last_jump == 0
            &&& !s.done
            &&& s.disarm_t == 0
            &&& s.last_enter_t == 0
            &&& s.enters == 0
            &&& !s.spam_over
        }),
{
}

/// What holds of every state of the monitor: it moves the clock six times at most, counts up to three
/// polls without a spin, and only once the clock was moved.
pub proof fn law_every_state(s: State)
    ensures
        s.wf() <==> {
            &&& s.reads.len() <= s.window
            &&& s.jumps <= 6
            &&& s.calm < 3 || s.calm == 3 && s.done
            &&& s.armed <==> s.jumps >= 1
            &&& s.jumps == 0 ==> s.calm == 0
        },
{
}

/// Opened files are watched for three minutes at most.
pub proof fn law_watching_ends(s: State, elapsed: int)
    requires
        is_distance(elapsed, s.t, s.t0),
    ensures
        s.elapsed() > WATCH_MS <==> elapsed > 180_000,
{
    lemma_distance(elapsed, s.t, s.t0);
}

/// A sample takes the calls since the one before and keeps the most calls before the video. A spin
/// is what reaches twice those calls and the minimum of the settings. Nothing that was decided
/// changes.
pub proof fn law_sample(
    s: State,
    c: Settings,
    t: i64,
    read: u64,
    counted: u64,
    intro_open: bool,
)
    requires
        0 <= c.qpc_spin_min <= u64::MAX,
    ensures
        ({
            let n = s.sampled(c, t, read, counted, intro_open);
            &&& n.t == t
            &&& n.counted == counted
            &&& counted >= s.counted ==> n.calls == counted - s.counted
            &&& counted < s.counted ==> n.calls == counted - s.counted + 0x1_0000_0000_0000_0000
            &&& intro_open || n.calls <= s.baseline ==> n.baseline == s.baseline
            &&& !intro_open && n.calls > s.baseline ==> n.baseline == n.calls
            &&& n.spins() <==> n.calls >= c.qpc_spin_min && (n.calls >= 2 * n.baseline || n.calls
                == 0xffff_ffff_ffff_ffff)
            &&& n.threshold >= c.qpc_spin_min
            &&& 2 * n.baseline <= 0xffff_ffff_ffff_ffff ==> n.threshold >= 2 * n.baseline
            &&& n.threshold == c.qpc_spin_min || n.threshold == 2 * n.baseline || n.threshold
                == 0xffff_ffff_ffff_ffff && 2 * n.baseline > 0xffff_ffff_ffff_ffff
            &&& n.calls > 200_000 && n.calls > s.peak ==> n.peak == n.calls
            &&& n.calls <= 200_000 || n.calls <= s.peak ==> n.peak == s.peak
            &&& n.t0 == s.t0
            &&& n.window == s.window
            &&& n.disabled == s.disabled
            &&& n.armed == s.armed
            &&& n.calm == s.calm
            &&& n.jumps == s.jumps
            &&& n.total == s.total
            &&& n.last_jump == s.last_jump
            &&& n.done == s.done
            &&& n.disarm_t == s.disarm_t
            &&& n.last_enter_t == s.last_enter_t
            &&& n.enters == s.enters
            &&& n.spam_over == s.spam_over
        }),
{
}

/// A new peak is seen exactly where the calls exceed both the last one and 200000.
pub proof fn law_peak(s: State, c: Settings, t: i64, read: u64, counted: u64, intro_open: bool)
    ensures
        s.measured(c, t, read, counted, intro_open).peaks() <==> s.sampled(
            c,
            t,
            read,
            counted,
            intro_open,
        ).peak > s.peak,
        s.measured(c, t, read, counted, intro_open).peaks() <==> s.sampled(
            c,
            t,
            read,
            counted,
            intro_open,
        ).calls > 200_000 && s.sampled(c, t, read, counted, intro_open).calls > s.peak,
{
}

/// A sample drops the oldest reading of a full window and keeps the others in their order, with the
/// new one behind them. The bytes read over the window are those since the reading that is dropped.
pub proof fn law_sample_rolls(
    s: State,
    c: Settings,
    t: i64,
    read: u64,
    counted: u64,
    intro_open: bool,
)
    requires
        s.reads.len() <= s.window,
    ensures
        ({
            let n = s.sampled(c, t, read, counted, intro_open);
            let all = s.reads.push(read);
            &&& s.reads.len() < s.window ==> n.reads == all && n.window_read
                == 0xffff_ffff_ffff_ffff
            &&& s.reads.len() == s.window ==> {
                &&& n.reads == all.skip(1)
                &&& read >= all[0] ==> n.window_read == read - all[0]
                &&& read < all[0] ==> n.window_read == read - all[0] + 0x1_0000_0000_0000_0000
            }
        }),
{
    let all = s.reads.push(read);
    if s.reads.len() == s.window {
        if s.window > 0 {
            assert(s.reads.drop_first().push(read) =~= all.skip(1));
        } else {
            assert(s.reads =~= all.skip(1));
        }
    }
}

/// The disk is quiet below the limit of the settings, and never before the window is full.
pub proof fn law_quiet(s: State, c: Settings)
    requires
        c.quiet_bytes <= u64::MAX,
    ensures
        s.quiet(c) <==> s.window_read < c.quiet_bytes,
        s.window_read == 0xffff_ffff_ffff_ffff ==> !s.quiet(c),
{
}

/// The key changes whether the skip is switched off, and nothing else.
pub proof fn law_toggle(s: State, down: bool)
    ensures
        s.toggled(down) == (State { disabled: s.disabled != down, ..s }),
{
}

/// Outside the video, and once the job is done, nothing changes and nothing is asked for.
pub proof fn law_nothing_outside_the_video(s: State, c: Settings, intro_open: bool, closed: bool)
    requires
        s.done || !intro_open,
    ensures
        s.gated(c, intro_open, closed) == s,
        s.gate_action(c, intro_open, closed) is Wait,
{
}

/// A poll with a spin sets the count of polls without one back to zero, whatever it was. A poll
/// without one adds to it, once the clock was moved.
pub proof fn law_spin_resets_calm(s: State, c: Settings, closed: bool)
    requires
        !s.done,
        s.calm < u32::MAX,
    ensures
        s.calls >= s.threshold ==> s.gated(c, true, closed).calm == 0,
        s.calls < s.threshold && s.armed ==> s.gated(c, true, closed).calm == s.calm + 1,
        s.calls < s.threshold && !s.armed ==> s.gated(c, true, closed).calm == s.calm,
{
}

/// Inside the video the job is finished exactly where playback is closed, the clock was moved six
/// times, 90 seconds have passed, or this is the third poll without a spin in a row.
pub proof fn law_finish(s: State, c: Settings, closed: bool, elapsed: int)
    requires
        !s.done,
        is_distance(elapsed, s.t, s.t0),
    ensures
        ({
            let n = s.gated(c, true, closed);
            let a = s.gate_action(c, true, closed);
            &&& n.done <==> closed || s.jumps >= 6 || elapsed > 90_000 || (s.armed && s.calls
                < s.threshold && s.calm >= 2)
            &&& n.done ==> n.disarm_t == s.t && n.jumps == s.jumps && n.total == s.total
            &&& !n.done ==> n.disarm_t == s.disarm_t
            &&& a is Finish <==> n.done
            &&& n.done ==> a->Finish_line == (Event::WindowDone {
                el: elapsed as i64,
                closed,
                calm: n.calm,
                jumps: s.jumps,
                total: s.total,
            })
            &&& n.done && !c.enter_spammer ==> a->spam is None
            &&& n.done && c.enter_spammer ==> a->spam == Some(
                Event::SpamStart {
                    el: elapsed as i64,
                    interval_ms: c.enter_interval_ms as i64,
                    window_ms: c.enter_window_ms as i64,
                },
            )
        }),
{
    lemma_distance(elapsed, s.t, s.t0);
}

/// Inside the video the clock is moved, by the distance of the settings, exactly where the job is not
/// finished, the skip is not switched off, the counter spins, the disk is quiet, and more than 400 ms
/// have passed since the last move.
pub proof fn law_move(s: State, c: Settings, closed: bool, elapsed: int, since: int)
    requires
        !s.done,
        i64::MIN <= c.jump_ms <= i64::MAX,
        is_distance(elapsed, s.t, s.t0),
        is_distance(since, s.t, s.last_jump),
    ensures
        ({
            let n = s.gated(c, true, closed);
            let a = s.gate_action(c, true, closed);
            let moves = {
                &&& !closed
                &&& s.jumps < 6
                &&& elapsed <= 90_000
                &&& !s.disabled
                &&& s.calls >= s.threshold
                &&& s.window_read < c.quiet_bytes
                &&& since > 400
            };
            &&& a is Jump <==> moves
            &&& moves ==> {
                &&& n.jumps == s.jumps + 1
                &&& n.armed
                &&& n.last_jump == s.t
                &&& (n.total - (s.total + c.jump_ms)) % 0x1_0000_0000_0000_0000 == 0
                &&& !n.done
                &&& a->ms == c.jump_ms
                &&& a->Jump_line == (Event::Gate {
                    el: elapsed as i64,
                    calls: s.calls,
                    threshold: s.threshold,
                    window: s.window_read,
                    jump_ms: c.jump_ms as i64,
                    total: n.total,
                    jumps: n.jumps,
                })
            }
            &&& !moves ==> {
                &&& n.jumps == s.jumps
                &&& n.armed == s.armed
                &&& n.last_jump == s.last_jump
                &&& n.total == s.total
            }
        }),
{
    lemma_distance(elapsed, s.t, s.t0);
    lemma_distance(since, s.t, s.last_jump);
    law_wrap(s.total + c.jump_ms);
}

/// The decision on a jump leaves the numbers of the poll, the switch and the presses of Enter alone.
pub proof fn law_gate_keeps(s: State, c: Settings, intro_open: bool, closed: bool)
    ensures
        ({
            let n = s.gated(c, intro_open, closed);
            &&& n.t0 == s.t0
            &&& n.counted == s.counted
            &&& n.window == s.window
            &&& n.reads == s.reads
            &&& n.t == s.t
            &&& n.calls == s.calls
            &&& n.threshold == s.threshold
            &&& n.window_read == s.window_read
            &&& n.baseline == s.baseline
            &&& n.peak == s.peak
            &&& n.disabled == s.disabled
            &&& n.last_enter_t == s.last_enter_t
            &&& n.enters == s.enters
            &&& n.spam_over == s.spam_over
        }),
{
}

/// Enter is pressed exactly where the settings ask for it, the job is done, the skip is not switched
/// off, the time for it is not over, and the last press is long enough ago. Each press is counted
/// and its time kept. The end is told once, when the time is over.
pub proof fn law_press(s: State, c: Settings, since_done: int, since_enter: int)
    requires
        is_distance(since_done, s.t, s.disarm_t),
        is_distance(since_enter, s.t, s.last_enter_t),
    ensures
        ({
            let n = s.spammed(c);
            let open = c.enter_spammer && s.done && !s.disabled;
            let press = open && since_done < c.enter_window_ms && since_enter
                >= c.enter_interval_ms;
            let end = open && since_done >= c.enter_window_ms && !s.spam_over;
            &&& s.presses_now(c) <==> press
            &&& s.ends_spam_now(c) <==> end
            &&& press ==> n.last_enter_t == s.t && (n.enters == s.enters + 1 || s.enters == u32::MAX
                && n.enters == 0)
            &&& !press ==> n.last_enter_t == s.last_enter_t && n.enters == s.enters
            &&& n.spam_over <==> s.spam_over || end
            &&& (State {
                last_enter_t: s.last_enter_t,
                enters: s.enters,
                spam_over: s.spam_over,
                ..n
            }) == s
        }),
{
    lemma_distance(since_done, s.t, s.disarm_t);
    lemma_distance(since_enter, s.t, s.last_enter_t);
}

/// The time on a line is that since the start, and the numbers are those of the poll.
pub proof fn law_poll_lines(s: State, elapsed: int)
    requires
        is_distance(elapsed, s.t, s.t0),
    ensures
        s.elapsed() == elapsed,
        s.poll_line() == (Event::Poll {
            el: elapsed as i64,
            calls: s.calls,
            threshold: s.threshold,
            window: s.window_read,
        }),
        s.peak_line() == (Event::SpinPeak {
            el: elapsed as i64,
            calls: s.calls,
            threshold: s.threshold,
            window: s.window_read,
        }),
{
    lemma_distance(elapsed, s.t, s.t0);
}

/// The step is a poll of the open video.
pub open spec fn looks(step: Step) -> bool {
    step matches Step::Gate { intro_open, .. } && intro_open
}

/// How many of the steps are polls of the open video.
pub open spec fn polls(steps: Seq<Step>) -> nat
    decreases steps.len(),
{
    if steps.len() == 0 {
        0
    } else {
        polls(steps.drop_last()) + if looks(steps.last()) {
            1nat
        } else {
            0nat
        }
    }
}

/// Step `j` of a run is a poll of the open video in which the counter spins.
pub open spec fn spins_at(s: State, c: Settings, steps: Seq<Step>, j: int) -> bool {
    &&& 0 <= j < steps.len()
    &&& looks(steps[j])
    &&& s.after_all(c, steps.take(j)).calls >= s.after_all(c, steps.take(j)).threshold
}

/// Where neither the end of playback nor a limit finishes the job, the last three polls of the video
/// were all without a spin: the current one is, and behind every poll with a spin there are at least
/// two others.
pub proof fn law_finish_needs_three_calm_polls(
    c: Settings,
    t0: i64,
    counted: u64,
    steps: Seq<Step>,
    elapsed: int,
)
    requires
        ({
            let s = State::fresh(c, t0, counted).after_all(c, steps);
            &&& !s.done
            &&& s.gated(c, true, false).done
            &&& s.jumps < 6
            &&& is_distance(elapsed, s.t, s.t0)
            &&& elapsed <= 90_000
        }),
    ensures
        ({
            let first = State::fresh(c, t0, counted);
            let s = first.after_all(c, steps);
            &&& s.calls < s.threshold
            &&& polls(steps) >= 2
            &&& forall|j: int| #[trigger]
                spins_at(first, c, steps, j) ==> polls(steps.skip(j + 1)) >= 2
        }),
{
    let first = State::fresh(c, t0, counted);
    let s = first.after_all(c, steps);
    law_runs_stay_well_formed(first, c, steps);
    law_finish(s, c, false, elapsed);
    assert(s.calm == 2);
    lemma_calm_is_recent(c, t0, counted, steps);
}

/// The count of polls without a spin is at most that of the polls since the last one with a spin.
proof fn lemma_calm_is_recent(c: Settings, t0: i64, counted: u64, steps: Seq<Step>)
    requires
        !State::fresh(c, t0, counted).after_all(c, steps).done,
    ensures
        ({
            let first = State::fresh(c, t0, counted);
            let s = first.after_all(c, steps);
            &&& s.calm <= polls(steps)
            &&& forall|j: int| #[trigger]
                spins_at(first, c, steps, j) ==> s.calm <= polls(steps.skip(j + 1))
        }),
    decreases steps.len(),
{
    let first = State::fresh(c, t0, counted);
    let s = first.after_all(c, steps);
    if steps.len() > 0 {
        let rest = steps.drop_last();
        let step = steps.last();
        let before = first.after_all(c, rest);
        if before.done {
            law_done_is_final(before, c, seq![step]);
            lemma_one_step(before, c, step);
        }
        law_runs_stay_well_formed(first, c, rest);
        lemma_calm_is_recent(c, t0, counted, rest);
        lemma_calm_step(before, c, step);
        assert forall|j: int| #[trigger] spins_at(first, c, steps, j) implies s.calm <= polls(
            steps.skip(j + 1),
        ) by {
            let k = steps.len() - 1;
            if j == k {
                assert(steps.take(k) =~= rest);
                assert(steps[k] == step);
            } else {
                assert(steps.take(j) =~= rest.take(j));
                assert(spins_at(first, c, rest, j));
                assert(steps.skip(j + 1).drop_last() =~= rest.skip(j + 1));
                assert(steps.skip(j + 1).last() == step);
            }
        }
    }
}

proof fn lemma_one_step(s: State, c: Settings, step: Step)
    ensures
        s.after_all(c, seq![step]) == s.after(c, step),
{
    let steps = seq![step];
    assert(steps.drop_last() =~= Seq::<Step>::empty());
    assert(steps.last() == step);
    reveal_with_fuel(State::after_all, 2);
}

proof fn lemma_calm_step(s: State, c: Settings, step: Step)
    requires
        s.wf(),
        !s.done,
    ensures
        looks(step) && s.calls >= s.threshold ==> s.after(c, step).calm == 0,
        looks(step) ==> s.after(c, step).calm <= s.calm + 1,
        !looks(step) ==> s.after(c, step).calm == s.calm,
{
}

} // verus!
