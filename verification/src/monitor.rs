//! Decides, poll by poll, when to move the clock and when to stop.
//!
//! The hold is a spin on the performance counter while the disk is quiet. Loading code calls the
//! counter too, and both scale with the processor, so a spin has to exceed a multiple of the
//! busiest poll before the startup video as well as a fixed minimum. Inside the window of the
//! video, each spin moves the clock once, until the spin is gone for some polls, playback is
//! closed, or a limit is reached.
//!
//! One poll is four steps, in this order: [`Monitor::sample`], [`Monitor::toggle`],
//! [`Monitor::gate`] and [`Monitor::spam`].

use std::collections::VecDeque;

use vstd::prelude::*;

use crate::arith::{difference, sum};
#[allow(unused_imports)]
use crate::arith::{wrap_i64, wrap_u64};
use crate::config::Config;
#[allow(unused_imports)]
use crate::config::Settings;
use crate::event::Event;

verus! {

/// How many times the busiest poll before the video the spin has to reach.
pub const SPIN_MULT: u64 = 2;

/// The clock is moved at most this often.
pub const CAP: u32 = 6;

/// The monitor stops once the spin has been gone for this many polls.
pub const CALM_STOP: u32 = 3;

/// The monitor stops this long after its start, in milliseconds.
pub const GATE_MS: i64 = 90_000;

/// Opened files are watched this long after the start, in milliseconds.
pub const WATCH_MS: i64 = 180_000;

/// Time that has to pass between two moves of the clock, in milliseconds.
pub const COOLDOWN_MS: i64 = 400;

/// Counter calls in one poll above which a new peak is logged.
pub const PEAK_MIN: u64 = 200_000;

/// What the monitor remembers from poll to poll.
pub struct Monitor {
    t0: i64,
    counted: u64,
    window: u32,
    reads: VecDeque<u64>,
    t: i64,
    calls: u64,
    threshold: u64,
    window_read: u64,
    baseline: u64,
    peak: u64,
    disabled: bool,
    armed: bool,
    calm: u32,
    jumps: u32,
    total: i64,
    last_jump: i64,
    done: bool,
    disarm_t: i64,
    last_enter_t: i64,
    enters: u32,
    spam_over: bool,
}

/// The state of the monitor.
pub ghost struct State {
    /// When the monitor started.
    pub t0: i64,
    /// Counter calls up to the last poll.
    pub counted: u64,
    /// Length of the rolling window, in polls.
    pub window: u32,
    /// Bytes read up to each of the last polls, the oldest first; as many as the window is long.
    pub reads: Seq<u64>,
    /// Time of the current poll.
    pub t: i64,
    /// Counter calls since the poll before.
    pub calls: u64,
    /// Calls that count as a spin.
    pub threshold: u64,
    /// Bytes read over the window; `u64::MAX` until the window is full.
    pub window_read: u64,
    /// Most calls in one poll before the video was opened.
    pub baseline: u64,
    /// Most calls in one poll that were logged.
    pub peak: u64,
    /// Switched off.
    pub disabled: bool,
    /// The clock was moved.
    pub armed: bool,
    /// Polls without a spin in a row, since the clock was moved.
    pub calm: u32,
    /// How often the clock was moved.
    pub jumps: u32,
    /// How far the clock was moved, in milliseconds.
    pub total: i64,
    /// When the clock was last moved.
    pub last_jump: i64,
    /// Finished with the video.
    pub done: bool,
    /// When the monitor finished with the video.
    pub disarm_t: i64,
    /// When Enter was last pressed.
    pub last_enter_t: i64,
    /// How often Enter was pressed.
    pub enters: u32,
    /// The end of pressing Enter was logged.
    pub spam_over: bool,
}

/// What comes of [`Monitor::sample`].
pub struct Sampled {
    /// Opened files need not be watched any more.
    pub stop_watching: bool,
    /// A line for this poll.
    pub poll: Option<Event>,
    /// A line for a new peak.
    pub peak: Option<Event>,
}

/// What comes of [`Monitor::gate`].
pub enum GateAction {
    /// Nothing is to be done.
    Wait,
    /// The clock is to be moved by `ms`, then the line is to be logged.
    Jump { ms: i64, line: Event },
    /// The monitor is finished with the video. Opened files need not be watched any more.
    Finish { line: Event, spam: Option<Event> },
}

/// What comes of [`Monitor::spam`].
pub enum SpamAction {
    /// Nothing is to be done.
    Wait,
    /// Enter is to be pressed.
    Press,
    /// Enter has been pressed for the last time.
    Over { line: Event },
}

/// `n` times [`SPIN_MULT`], or the largest number where that is larger.
pub open spec fn spin_multiple(n: u64) -> int {
    if n * SPIN_MULT > u64::MAX {
        u64::MAX as int
    } else {
        n * SPIN_MULT
    }
}

/// The larger of two numbers.
pub open spec fn larger(a: int, b: int) -> int {
    if a < b {
        b
    } else {
        a
    }
}

/// The last samples after one more.
pub open spec fn with_read(reads: Seq<u64>, window: u32, read: u64) -> Seq<u64> {
    if window == 0 {
        reads
    } else if reads.len() == window {
        reads.drop_first().push(read)
    } else {
        reads.push(read)
    }
}

/// Bytes read since the sample that is as old as the window is long; `u64::MAX` while there is
/// none.
pub open spec fn read_over_window(reads: Seq<u64>, window: u32, read: u64) -> int {
    if window == 0 {
        0
    } else if reads.len() == window {
        wrap_u64(read - reads.first())
    } else {
        u64::MAX as int
    }
}

impl State {
    /// What holds of every state that the monitor can be in.
    pub open spec fn wf(self) -> bool {
        &&& self.reads.len() <= self.window
        &&& self.jumps <= CAP
        &&& self.calm <= CALM_STOP
        &&& !self.done ==> self.calm < CALM_STOP
        &&& self.armed == (self.jumps > 0)
        &&& !self.armed ==> self.calm == 0
    }

    /// The state at the start.
    pub open spec fn fresh(c: Settings, t0: i64, counted: u64) -> State {
        State {
            t0,
            counted,
            window: c.quiet_window_polls as u32,
            reads: seq![],
            t: t0,
            calls: 0,
            threshold: 0,
            window_read: u64::MAX,
            baseline: 0,
            peak: 0,
            disabled: false,
            armed: false,
            calm: 0,
            jumps: 0,
            total: 0,
            last_jump: 0,
            done: false,
            disarm_t: 0,
            last_enter_t: 0,
            enters: 0,
            spam_over: false,
        }
    }

    /// The time since the start.
    pub open spec fn elapsed(self) -> int {
        wrap_i64(self.t - self.t0)
    }

    /// The counter is called as often as in the hold.
    pub open spec fn spins(self) -> bool {
        self.calls >= self.threshold
    }

    /// Little was read from the disk over the window.
    pub open spec fn quiet(self, c: Settings) -> bool {
        self.window_read < c.quiet_bytes
    }

    /// The calls since the poll before, if the counter has been called `counted` times.
    pub open spec fn calls_at(self, counted: u64) -> int {
        wrap_u64(counted - self.counted)
    }

    /// The busiest poll before the video, with the current one.
    pub open spec fn baseline_at(self, counted: u64, intro_open: bool) -> int {
        if intro_open {
            self.baseline as int
        } else {
            larger(self.baseline as int, self.calls_at(counted))
        }
    }

    /// The poll at `t`, before the peak is looked at.
    pub open spec fn measured(
        self,
        c: Settings,
        t: i64,
        read: u64,
        counted: u64,
        intro_open: bool,
    ) -> State {
        State {
            t,
            calls: self.calls_at(counted) as u64,
            counted,
            window_read: read_over_window(self.reads, self.window, read) as u64,
            reads: with_read(self.reads, self.window, read),
            baseline: self.baseline_at(counted, intro_open) as u64,
            threshold: larger(
                spin_multiple(self.baseline_at(counted, intro_open) as u64),
                c.qpc_spin_min,
            ) as u64,
            ..self
        }
    }

    /// There are more calls than ever before, and enough to be logged.
    pub open spec fn peaks(self) -> bool {
        self.calls > PEAK_MIN && self.calls > self.peak
    }

    /// After [`Monitor::sample`].
    pub open spec fn sampled(
        self,
        c: Settings,
        t: i64,
        read: u64,
        counted: u64,
        intro_open: bool,
    ) -> State {
        let s = self.measured(c, t, read, counted, intro_open);
        if s.peaks() {
            State { peak: s.calls, ..s }
        } else {
            s
        }
    }

    /// After [`Monitor::toggle`].
    pub open spec fn toggled(self, down: bool) -> State {
        if down {
            State { disabled: !self.disabled, ..self }
        } else {
            self
        }
    }

    /// The polls without a spin in a row, with the current one.
    pub open spec fn calm_now(self) -> int {
        if self.spins() {
            0
        } else if self.armed {
            self.calm + 1
        } else {
            self.calm as int
        }
    }

    /// The hold is over, or a limit is reached.
    pub open spec fn must_stop(self, intro_closed: bool) -> bool {
        ||| intro_closed
        ||| self.armed && self.calm_now() >= CALM_STOP
        ||| self.jumps >= CAP
        ||| self.elapsed() > GATE_MS
    }

    /// The hold is on, and the last move of the clock is long enough ago.
    pub open spec fn may_jump(self, c: Settings) -> bool {
        &&& !self.disabled
        &&& self.spins()
        &&& self.quiet(c)
        &&& wrap_i64(self.t - self.last_jump) > COOLDOWN_MS
    }

    /// A jump is possible: the video is open and the job not done.
    pub open spec fn gate_open(self, intro_open: bool) -> bool {
        !self.done && intro_open
    }

    /// The clock is moved in this poll.
    pub open spec fn jumps_now(self, c: Settings, intro_open: bool, intro_closed: bool) -> bool {
        self.gate_open(intro_open) && !self.must_stop(intro_closed) && self.may_jump(c)
    }

    /// After [`Monitor::gate`].
    pub open spec fn gated(self, c: Settings, intro_open: bool, intro_closed: bool) -> State {
        let s = State { calm: self.calm_now() as u32, ..self };
        if !self.gate_open(intro_open) {
            self
        } else if self.must_stop(intro_closed) {
            State { done: true, disarm_t: self.t, ..s }
        } else if self.may_jump(c) {
            State {
                jumps: (self.jumps + 1) as u32,
                total: wrap_i64(self.total + c.jump_ms) as i64,
                last_jump: self.t,
                armed: true,
                ..s
            }
        } else {
            s
        }
    }

    /// Enter may be pressed: the skip is over and not switched off.
    pub open spec fn spam_open(self, c: Settings) -> bool {
        c.enter_spammer && self.done && !self.disabled
    }

    /// Enter is still to be pressed from time to time.
    pub open spec fn in_spam_window(self, c: Settings) -> bool {
        wrap_i64(self.t - self.disarm_t) < c.enter_window_ms
    }

    /// Enter is pressed in this poll.
    pub open spec fn presses_now(self, c: Settings) -> bool {
        &&& self.spam_open(c)
        &&& self.in_spam_window(c)
        &&& wrap_i64(self.t - self.last_enter_t) >= c.enter_interval_ms
    }

    /// The end of pressing Enter is logged in this poll.
    pub open spec fn ends_spam_now(self, c: Settings) -> bool {
        self.spam_open(c) && !self.in_spam_window(c) && !self.spam_over
    }

    /// After [`Monitor::spam`].
    pub open spec fn spammed(self, c: Settings) -> State {
        if self.presses_now(c) {
            State {
                last_enter_t: self.t,
                enters: ((self.enters + 1) % 0x1_0000_0000) as u32,
                ..self
            }
        } else if self.ends_spam_now(c) {
            State { spam_over: true, ..self }
        } else {
            self
        }
    }

    /// The line for a poll.
    pub open spec fn poll_line(self) -> Event {
        Event::Poll {
            el: self.elapsed() as i64,
            calls: self.calls,
            threshold: self.threshold,
            window: self.window_read,
        }
    }

    /// The line for a new peak.
    pub open spec fn peak_line(self) -> Event {
        Event::SpinPeak {
            el: self.elapsed() as i64,
            calls: self.calls,
            threshold: self.threshold,
            window: self.window_read,
        }
    }

    /// What [`Monitor::gate`] asks for.
    pub open spec fn gate_action(
        self,
        c: Settings,
        intro_open: bool,
        intro_closed: bool,
    ) -> GateAction {
        let next = self.gated(c, intro_open, intro_closed);
        if !self.gate_open(intro_open) {
            GateAction::Wait
        } else if self.must_stop(intro_closed) {
            GateAction::Finish {
                line: Event::WindowDone {
                    el: self.elapsed() as i64,
                    closed: intro_closed,
                    calm: next.calm,
                    jumps: next.jumps,
                    total: next.total,
                },
                spam: if c.enter_spammer {
                    Some(
                        Event::SpamStart {
                            el: self.elapsed() as i64,
                            interval_ms: c.enter_interval_ms as i64,
                            window_ms: c.enter_window_ms as i64,
                        },
                    )
                } else {
                    None
                },
            }
        } else if self.may_jump(c) {
            GateAction::Jump {
                ms: c.jump_ms as i64,
                line: Event::Gate {
                    el: self.elapsed() as i64,
                    calls: self.calls,
                    threshold: self.threshold,
                    window: self.window_read,
                    jump_ms: c.jump_ms as i64,
                    total: next.total,
                    jumps: next.jumps,
                },
            }
        } else {
            GateAction::Wait
        }
    }
}

impl View for Monitor {
    type V = State;

    closed spec fn view(&self) -> State {
        State {
            t0: self.t0,
            counted: self.counted,
            window: self.window,
            reads: self.reads@,
            t: self.t,
            calls: self.calls,
            threshold: self.threshold,
            window_read: self.window_read,
            baseline: self.baseline,
            peak: self.peak,
            disabled: self.disabled,
            armed: self.armed,
            calm: self.calm,
            jumps: self.jumps,
            total: self.total,
            last_jump: self.last_jump,
            done: self.done,
            disarm_t: self.disarm_t,
            last_enter_t: self.last_enter_t,
            enters: self.enters,
            spam_over: self.spam_over,
        }
    }
}

/// The line with which the monitor starts.
pub fn banner(config: &Config) -> (r: Event)
    ensures
        r matches Event::Banner { video, jump_ms, poll_ms, spin_min } && video@
            == config.intro_video@ && jump_ms == config.jump_ms && poll_ms == config.poll_ms
            && spin_min == config.qpc_spin_min,
{
    Event::Banner {
        video: config.intro_video.clone(),
        jump_ms: config.jump_ms,
        poll_ms: config.poll_ms,
        spin_min: config.qpc_spin_min,
    }
}

/// Whether a key is down, from what the system reports of it: the top bit.
pub fn key_down(state: i16) -> (r: bool)
    ensures
        r == (state < 0),
{
    assert(state as u16 & 0x8000 != 0 <==> state < 0) by (bit_vector);
    (#[verifier::truncate]
    (state as u16)) & 0x8000 != 0
}

impl Monitor {
    /// Starts at the time `t0`, the counter having been called `counted` times.
    pub fn new(config: &Config, t0: i64, counted: u64) -> (m: Monitor)
        ensures
            m@ == State::fresh(config@, t0, counted),
            m@.wf(),
    {
        Monitor {
            t0,
            counted,
            window: config.quiet_window_polls,
            reads: VecDeque::new(),
            t: t0,
            calls: 0,
            threshold: 0,
            window_read: u64::MAX,
            baseline: 0,
            peak: 0,
            disabled: false,
            armed: false,
            calm: 0,
            jumps: 0,
            total: 0,
            last_jump: 0,
            done: false,
            disarm_t: 0,
            last_enter_t: 0,
            enters: 0,
            spam_over: false,
        }
    }

    /// Adds a sample of the bytes read and gives the bytes read over the window.
    fn push_read(&mut self, read: u64) -> (r: u64)
        requires
            old(self)@.reads.len() <= old(self)@.window,
        ensures
            r == read_over_window(old(self)@.reads, old(self)@.window, read),
            final(self)@ == (State {
                reads: with_read(old(self)@.reads, old(self)@.window, read),
                ..old(self)@
            }),
    {
        if self.window == 0 {
            return 0;
        }
        if self.reads.len() == self.window as usize {
            let ago: u64 = self.reads[0];
            let _ = self.reads.pop_front();
            self.reads.push_back(read);
            assert(self.reads@ == old(self).reads@.drop_first().push(read));
            read.wrapping_sub(ago)
        } else {
            self.reads.push_back(read);
            u64::MAX
        }
    }

    /// Looks at the numbers of a poll: the time, the bytes read so far, the calls of the counter
    /// so far, and whether the file of the video has been opened.
    pub fn sample(
        &mut self,
        config: &Config,
        t: i64,
        read: u64,
        counted: u64,
        intro_open: bool,
        watching: bool,
    ) -> (r: Sampled)
        requires
            old(self)@.wf(),
        ensures
            final(self)@ == old(self)@.sampled(config@, t, read, counted, intro_open),
            final(self)@.wf(),
            r.stop_watching == (watching && final(self)@.elapsed() > WATCH_MS),
            r.poll == if config.diag {
                Some(final(self)@.poll_line())
            } else {
                None
            },
            r.peak == if old(self)@.measured(config@, t, read, counted, intro_open).peaks() {
                Some(final(self)@.peak_line())
            } else {
                None
            },
    {
        let el: i64 = difference(t, self.t0);
        let calls: u64 = counted.wrapping_sub(self.counted);
        self.t = t;
        self.calls = calls;
        self.counted = counted;
        let window: u64 = self.push_read(read);
        self.window_read = window;
        if !intro_open && calls > self.baseline {
            self.baseline = calls;
        }
        let multiple: u64 = match self.baseline.checked_mul(SPIN_MULT) {
            Some(n) => n,
            None => u64::MAX,
        };
        let threshold: u64 = if multiple < config.qpc_spin_min {
            config.qpc_spin_min
        } else {
            multiple
        };
        self.threshold = threshold;
        let poll = if config.diag {
            Some(Event::Poll { el, calls, threshold, window })
        } else {
            None
        };
        let peak = if calls > PEAK_MIN && calls > self.peak {
            self.peak = calls;
            Some(Event::SpinPeak { el, calls, threshold, window })
        } else {
            None
        };
        Sampled { stop_watching: watching && el > WATCH_MS, poll, peak }
    }

    /// Looks at the key that switches the skip off and on. A line comes back where it is down.
    pub fn toggle(&mut self, key: i16) -> (r: Option<Event>)
        ensures
            final(self)@ == old(self)@.toggled(key < 0),
            old(self)@.wf() ==> final(self)@.wf(),
            r == if key < 0 {
                Some(
                    Event::Toggle {
                        el: old(self)@.elapsed() as i64,
                        off: final(self)@.disabled,
                    },
                )
            } else {
                None
            },
    {
        if key_down(key) {
            self.disabled = !self.disabled;
            Some(Event::Toggle { el: difference(self.t, self.t0), off: self.disabled })
        } else {
            None
        }
    }

    /// Decides on a jump: inside the window of the video, a spin on a quiet disk moves the clock.
    pub fn gate(&mut self, config: &Config, intro_open: bool, intro_closed: bool) -> (r: GateAction)
        requires
            old(self)@.wf(),
        ensures
            final(self)@ == old(self)@.gated(config@, intro_open, intro_closed),
            final(self)@.wf(),
            r == old(self)@.gate_action(config@, intro_open, intro_closed),
    {
        if self.done || !intro_open {
            return GateAction::Wait;
        }
        let el: i64 = difference(self.t, self.t0);
        let spin: bool = self.calls >= self.threshold;
        if spin {
            self.calm = 0;
        } else if self.armed {
            self.calm = self.calm + 1;
        }
        if intro_closed || (self.armed && self.calm >= CALM_STOP) || self.jumps >= CAP || el
            > GATE_MS {
            self.done = true;
            self.disarm_t = self.t;
            let spam = if config.enter_spammer {
                Some(
                    Event::SpamStart {
                        el,
                        interval_ms: config.enter_interval_ms,
                        window_ms: config.enter_window_ms,
                    },
                )
            } else {
                None
            };
            GateAction::Finish {
                line: Event::WindowDone {
                    el,
                    closed: intro_closed,
                    calm: self.calm,
                    jumps: self.jumps,
                    total: self.total,
                },
                spam,
            }
        } else if !self.disabled && spin && self.window_read < config.quiet_bytes && difference(
            self.t,
            self.last_jump,
        ) > COOLDOWN_MS {
            self.jumps = self.jumps + 1;
            self.total = sum(self.total, config.jump_ms);
            self.last_jump = self.t;
            self.armed = true;
            GateAction::Jump {
                ms: config.jump_ms,
                line: Event::Gate {
                    el,
                    calls: self.calls,
                    threshold: self.threshold,
                    window: self.window_read,
                    jump_ms: config.jump_ms,
                    total: self.total,
                    jumps: self.jumps,
                },
            }
        } else {
            GateAction::Wait
        }
    }

    /// Looks at whether Enter is to be pressed.
    pub fn spam(&mut self, config: &Config) -> (r: SpamAction)
        ensures
            final(self)@ == old(self)@.spammed(config@),
            old(self)@.wf() ==> final(self)@.wf(),
            r == if old(self)@.presses_now(config@) {
                SpamAction::Press
            } else if old(self)@.ends_spam_now(config@) {
                SpamAction::Over {
                    line: Event::SpamDone {
                        el: old(self)@.elapsed() as i64,
                        enters: old(self)@.enters,
                    },
                }
            } else {
                SpamAction::Wait
            },
    {
        if !config.enter_spammer || !self.done || self.disabled {
            return SpamAction::Wait;
        }
        if difference(self.t, self.disarm_t) < config.enter_window_ms {
            if difference(self.t, self.last_enter_t) >= config.enter_interval_ms {
                self.last_enter_t = self.t;
                self.enters = self.enters.wrapping_add(1);
                return SpamAction::Press;
            }
        } else if !self.spam_over {
            self.spam_over = true;
            return SpamAction::Over {
                line: Event::SpamDone { el: difference(self.t, self.t0), enters: self.enters },
            };
        }
        SpamAction::Wait
    }
}

} // verus!
