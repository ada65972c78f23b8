//! What is written to `fastboot.log`.

use vstd::prelude::*;

use crate::config::Config;
use crate::monitor::SPIN_MULT;
use crate::number::{push_handle, push_hex, push_i64, push_u64};
#[allow(unused_imports)]
use crate::number::{digits, handle_bits, prefixed_hex, signed};

verus! {

/// One line of the log. `el` is the time since the start, in milliseconds.
pub enum Event {
    /// The worker thread runs.
    WorkerStart,
    /// The hooks are in place.
    HooksEnabled,
    /// The monitor starts with these settings.
    Banner { video: String, jump_ms: i64, poll_ms: u32, spin_min: u64 },
    /// The file of the startup video was opened for the first time.
    IntroFile { el: i64, base: String },
    /// Another video file was opened.
    FileOpen { el: i64, base: String },
    /// Playback of the startup video was opened.
    IntroHandle { el: i64, handle: isize, flags: u32 },
    /// Playback of another video was opened.
    BinkOpen { el: i64, handle: isize, flags: u32 },
    /// A frame was decoded; `number` counts the lines of this kind.
    BinkFrame { el: i64, handle: isize, intro: bool, number: u64 },
    /// Playback was closed.
    BinkClose { el: i64, handle: isize, intro: bool },
    /// More counter calls than in any poll before.
    SpinPeak { el: i64, calls: u64, threshold: u64, window: u64 },
    /// A poll, where every poll is to be logged.
    Poll { el: i64, calls: u64, threshold: u64, window: u64 },
    /// The skip was switched off or on.
    Toggle { el: i64, off: bool },
    /// The clock was moved.
    Gate { el: i64, calls: u64, threshold: u64, window: u64, jump_ms: i64, total: i64, jumps: u32 },
    /// The monitor is done with the startup video.
    WindowDone { el: i64, closed: bool, calm: u32, jumps: u32, total: i64 },
    /// Enter is going to be pressed.
    SpamStart { el: i64, interval_ms: i64, window_ms: i64 },
    /// Enter is not pressed any more.
    SpamDone { el: i64, enters: u32 },
}

/// The time at the start of a line.
pub open spec fn stamp(el: i64) -> Seq<char> {
    "["@ + signed(el as int) + "ms] "@
}

/// The mark behind the handle of the startup video.
pub open spec fn intro_mark(intro: bool) -> Seq<char> {
    if intro {
        " <INTRO>"@
    } else {
        ""@
    }
}

/// The number of bytes to print; a window that is not full yet counts as zero.
pub open spec fn shown_window(window: u64) -> nat {
    if window == u64::MAX {
        0
    } else {
        window as nat
    }
}

impl Event {
    /// The line.
    pub open spec fn text(self) -> Seq<char> {
        match self {
            Event::WorkerStart => "[fastboot] worker start"@,
            Event::HooksEnabled => "[fastboot] hooks enabled"@,
            Event::Banner { video, jump_ms, poll_ms, spin_min } => "[fastboot] SKIP v1.3: intro='"@
                + video@ + "' jump="@ + signed(jump_ms as int) + "ms poll="@ + digits(
                poll_ms as nat,
                10,
            ) + "ms spin>=max(baseline*"@ + digits(SPIN_MULT as nat, 10) + ","@ + digits(
                spin_min as nat,
                10,
            ) + ")"@,
            Event::IntroFile { el, base } => stamp(el) + "intro file opened ("@ + base@
                + ") -> tagging next BinkOpen"@,
            Event::FileOpen { el, base } => stamp(el) + "OPEN "@ + base@,
            Event::IntroHandle { el, handle, flags } => stamp(el) + "BinkOpen -> intro handle "@
                + prefixed_hex(handle_bits(handle)) + " (flags="@ + prefixed_hex(flags as nat)
                + ")"@,
            Event::BinkOpen { el, handle, flags } => stamp(el) + "BinkOpen -> "@ + prefixed_hex(
                handle_bits(handle),
            ) + " (flags="@ + prefixed_hex(flags as nat) + ")"@,
            Event::BinkFrame { el, handle, intro, number } => stamp(el) + "BinkDoFrame "@
                + prefixed_hex(handle_bits(handle)) + intro_mark(intro) + " (#"@ + digits(
                number as nat,
                10,
            ) + ")"@,
            Event::BinkClose { el, handle, intro } => stamp(el) + "BinkClose "@ + prefixed_hex(
                handle_bits(handle),
            ) + intro_mark(intro),
            Event::SpinPeak { el, calls, threshold, window } => stamp(el) + "spin peak "@ + digits(
                calls as nat,
                10,
            ) + "/poll (thr="@ + digits(threshold as nat, 10) + ", window="@ + digits(
                shown_window(window),
                10,
            ) + "B)"@,
            Event::Poll { el, calls, threshold, window } => stamp(el) + "poll "@ + digits(
                calls as nat,
                10,
            ) + "/poll (thr="@ + digits(threshold as nat, 10) + ", window="@ + digits(
                shown_window(window),
                10,
            ) + "B)"@,
            Event::Toggle { el, off } => stamp(el) + "F8 -> skip "@ + if off {
                "OFF"@
            } else {
                "ON"@
            },
            Event::Gate { el, calls, threshold, window, jump_ms, total, jumps } => stamp(el)
                + "GATE dq "@ + digits(calls as nat, 10) + "/poll >= thr "@ + digits(
                threshold as nat,
                10,
            ) + " (intro window, window="@ + digits(window as nat, 10) + "B) -> clock +"@ + signed(
                jump_ms as int,
            ) + "ms (total +"@ + signed(total as int) + "ms, #"@ + digits(jumps as nat, 10) + ")"@,
            Event::WindowDone { el, closed, calm, jumps, total } => stamp(el)
                + "intro window done (closed="@ + digits(
                if closed {
                    1
                } else {
                    0
                },
                10,
            ) + ", calm="@ + digits(calm as nat, 10) + ", "@ + digits(jumps as nat, 10)
                + " jumps, total +"@ + signed(total as int) + "ms)"@,
            Event::SpamStart { el, interval_ms, window_ms } => stamp(el)
                + "enter_spammer: Enter every "@ + signed(interval_ms as int) + "ms for "@ + signed(
                window_ms as int,
            ) + "ms"@,
            Event::SpamDone { el, enters } => stamp(el) + "enter_spammer: done ("@ + digits(
                enters as nat,
                10,
            ) + " Enter sent)"@,
        }
    }

    /// Writes the line out.
    pub fn render(&self) -> (s: String)
        ensures
            s@ == self.text(),
    {
        match self {
            Event::WorkerStart => "[fastboot] worker start".to_owned(),
            Event::HooksEnabled => "[fastboot] hooks enabled".to_owned(),
            Event::Banner { video, jump_ms, poll_ms, spin_min } => {
                let mut s = "[fastboot] SKIP v1.3: intro='".to_owned();
                s.append(video.as_str());
                s.append("' jump=");
                push_i64(&mut s, *jump_ms);
                s.append("ms poll=");
                push_u64(&mut s, *poll_ms as u64);
                s.append("ms spin>=max(baseline*");
                push_u64(&mut s, SPIN_MULT);
                s.append(",");
                push_u64(&mut s, *spin_min);
                s.append(")");
                s
            },
            Event::IntroFile { el, base } => {
                let mut s = stamped(*el);
                s.append("intro file opened (");
                s.append(base.as_str());
                s.append(") -> tagging next BinkOpen");
                s
            },
            Event::FileOpen { el, base } => {
                let mut s = stamped(*el);
                s.append("OPEN ");
                s.append(base.as_str());
                s
            },
            Event::IntroHandle { el, handle, flags } => {
                let mut s = stamped(*el);
                s.append("BinkOpen -> intro handle ");
                push_handle(&mut s, *handle);
                s.append(" (flags=");
                push_hex(&mut s, *flags as u64);
                s.append(")");
                s
            },
            Event::BinkOpen { el, handle, flags } => {
                let mut s = stamped(*el);
                s.append("BinkOpen -> ");
                push_handle(&mut s, *handle);
                s.append(" (flags=");
                push_hex(&mut s, *flags as u64);
                s.append(")");
                s
            },
            Event::BinkFrame { el, handle, intro, number } => {
                let mut s = stamped(*el);
                s.append("BinkDoFrame ");
                push_handle(&mut s, *handle);
                push_mark(&mut s, *intro);
                s.append(" (#");
                push_u64(&mut s, *number);
                s.append(")");
                s
            },
            Event::BinkClose { el, handle, intro } => {
                let mut s = stamped(*el);
                s.append("BinkClose ");
                push_handle(&mut s, *handle);
                push_mark(&mut s, *intro);
                s
            },
            Event::SpinPeak { el, calls, threshold, window } => {
                let mut s = stamped(*el);
                s.append("spin peak ");
                push_u64(&mut s, *calls);
                s.append("/poll (thr=");
                push_u64(&mut s, *threshold);
                s.append(", window=");
                push_window(&mut s, *window);
                s.append("B)");
                s
            },
            Event::Poll { el, calls, threshold, window } => {
                let mut s = stamped(*el);
                s.append("poll ");
                push_u64(&mut s, *calls);
                s.append("/poll (thr=");
                push_u64(&mut s, *threshold);
                s.append(", window=");
                push_window(&mut s, *window);
                s.append("B)");
                s
            },
            Event::Toggle { el, off } => {
                let mut s = stamped(*el);
                s.append("F8 -> skip ");
                if *off {
                    s.append("OFF");
                } else {
                    s.append("ON");
                }
                s
            },
            Event::Gate { el, calls, threshold, window, jump_ms, total, jumps } => {
                let mut s = stamped(*el);
                s.append("GATE dq ");
                push_u64(&mut s, *calls);
                s.append("/poll >= thr ");
                push_u64(&mut s, *threshold);
                s.append(" (intro window, window=");
                push_u64(&mut s, *window);
                s.append("B) -> clock +");
                push_i64(&mut s, *jump_ms);
                s.append("ms (total +");
                push_i64(&mut s, *total);
                s.append("ms, #");
                push_u64(&mut s, *jumps as u64);
                s.append(")");
                s
            },
            Event::WindowDone { el, closed, calm, jumps, total } => {
                let mut s = stamped(*el);
                s.append("intro window done (closed=");
                push_u64(
                    &mut s,
                    if *closed {
                        1
                    } else {
                        0
                    },
                );
                s.append(", calm=");
                push_u64(&mut s, *calm as u64);
                s.append(", ");
                push_u64(&mut s, *jumps as u64);
                s.append(" jumps, total +");
                push_i64(&mut s, *total);
                s.append("ms)");
                s
            },
            Event::SpamStart { el, interval_ms, window_ms } => {
                let mut s = stamped(*el);
                s.append("enter_spammer: Enter every ");
                push_i64(&mut s, *interval_ms);
                s.append("ms for ");
                push_i64(&mut s, *window_ms);
                s.append("ms");
                s
            },
            Event::SpamDone { el, enters } => {
                let mut s = stamped(*el);
                s.append("enter_spammer: done (");
                push_u64(&mut s, *enters as u64);
                s.append(" Enter sent)");
                s
            },
        }
    }
}

/// Starts a line with its time.
pub fn stamped(el: i64) -> (s: String)
    ensures
        s@ == stamp(el),
{
    let mut s = "[".to_owned();
    push_i64(&mut s, el);
    s.append("ms] ");
    s
}

/// Appends the mark of the startup video.
pub fn push_mark(s: &mut String, intro: bool)
    ensures
        final(s)@ == old(s)@ + intro_mark(intro),
{
    if intro {
        s.append(" <INTRO>");
    } else {
        s.append("");
    }
}

/// Appends the number of bytes that the window holds.
pub fn push_window(s: &mut String, window: u64)
    ensures
        final(s)@ == old(s)@ + digits(shown_window(window), 10),
{
    push_u64(
        s,
        if window == u64::MAX {
            0
        } else {
            window
        },
    );
}

/// Logging is on unless the settings switch it off.
pub open spec fn logs(config: Option<&Config>) -> bool {
    match config {
        Some(c) => c.log,
        None => true,
    }
}

/// The line to write for an event; none where the log is switched off.
pub fn log_line(config: Option<&Config>, event: &Event) -> (r: Option<String>)
    ensures
        match r {
            Some(s) => logs(config) && s@ == event.text(),
            None => !logs(config),
        },
{
    if let Some(c) = config {
        if !c.log {
            return None;
        }
    }
    Some(event.render())
}

/// A line of the log: the time in brackets, then what happened.
pub open spec fn timed(el: i64, what: Seq<char>) -> Seq<char> {
    "["@ + signed(el as int) + "ms] "@ + what
}

/// The lines about the worker and the settings.
pub proof fn law_lines_at_the_start(video: String, jump_ms: i64, poll_ms: u32, spin_min: u64)
    ensures
        Event::WorkerStart.text() == "[fastboot] worker start"@,
        Event::HooksEnabled.text() == "[fastboot] hooks enabled"@,
        (Event::Banner { video, jump_ms, poll_ms, spin_min }).text()
            == "[fastboot] SKIP v1.3: intro='"@ + video@ + "' jump="@ + signed(jump_ms as int)
            + "ms poll="@ + digits(poll_ms as nat, 10) + "ms spin>=max(baseline*"@ + seq!['2']
            + ","@ + digits(spin_min as nat, 10) + ")"@,
{
    assert(digits(2, 10) =~= seq!['2']);
}

/// The lines about files and playback: the handle in hexadecimal, and the mark of the startup video.
pub proof fn law_lines_about_playback(
    el: i64,
    base: String,
    handle: isize,
    flags: u32,
    number: u64,
)
    ensures
        (Event::IntroFile { el, base }).text() == timed(
            el,
            "intro file opened ("@ + base@ + ") -> tagging next BinkOpen"@,
        ),
        (Event::FileOpen { el, base }).text() == timed(el, "OPEN "@ + base@),
        (Event::IntroHandle { el, handle, flags }).text() == timed(
            el,
            "BinkOpen -> intro handle "@ + prefixed_hex(handle_bits(handle)) + " (flags="@
                + prefixed_hex(flags as nat) + ")"@,
        ),
        (Event::BinkOpen { el, handle, flags }).text() == timed(
            el,
            "BinkOpen -> "@ + prefixed_hex(handle_bits(handle)) + " (flags="@ + prefixed_hex(
                flags as nat,
            ) + ")"@,
        ),
        (Event::BinkFrame { el, handle, intro: true, number }).text() == timed(
            el,
            "BinkDoFrame "@ + prefixed_hex(handle_bits(handle)) + " <INTRO>"@ + " (#"@ + digits(
                number as nat,
                10,
            ) + ")"@,
        ),
        (Event::BinkFrame { el, handle, intro: false, number }).text() == timed(
            el,
            "BinkDoFrame "@ + prefixed_hex(handle_bits(handle)) + " (#"@ + digits(number as nat, 10)
                + ")"@,
        ),
        (Event::BinkClose { el, handle, intro: true }).text() == timed(
            el,
            "BinkClose "@ + prefixed_hex(handle_bits(handle)) + " <INTRO>"@,
        ),
        (Event::BinkClose { el, handle, intro: false }).text() == timed(
            el,
            "BinkClose "@ + prefixed_hex(handle_bits(handle)),
        ),
{
    reveal_strlit("");
    assert(""@ =~= Seq::<char>::empty());
    let h = prefixed_hex(handle_bits(handle));
    let f = prefixed_hex(flags as nat);
    let n = digits(number as nat, 10);
    let t = stamp(el);
    assert(t + "intro file opened ("@ + base@ + ") -> tagging next BinkOpen"@ =~= t + (
    "intro file opened ("@ + base@ + ") -> tagging next BinkOpen"@));
    assert(t + "OPEN "@ + base@ =~= t + ("OPEN "@ + base@));
    assert(t + "BinkOpen -> intro handle "@ + h + " (flags="@ + f + ")"@ =~= t + (
    "BinkOpen -> intro handle "@ + h + " (flags="@ + f + ")"@));
    assert(t + "BinkOpen -> "@ + h + " (flags="@ + f + ")"@ =~= t + ("BinkOpen -> "@ + h
        + " (flags="@ + f + ")"@));
    assert(t + "BinkDoFrame "@ + h + " <INTRO>"@ + " (#"@ + n + ")"@ =~= t + ("BinkDoFrame "@ + h
        + " <INTRO>"@ + " (#"@ + n + ")"@));
    assert(t + "BinkDoFrame "@ + h + ""@ + " (#"@ + n + ")"@ =~= t + ("BinkDoFrame "@ + h + " (#"@
        + n + ")"@));
    assert(t + "BinkClose "@ + h + " <INTRO>"@ =~= t + ("BinkClose "@ + h + " <INTRO>"@));
    assert(t + "BinkClose "@ + h + ""@ =~= t + ("BinkClose "@ + h));
}

/// The lines about a poll. A window that is not full is printed as zero bytes.
pub proof fn law_lines_about_polls(el: i64, calls: u64, threshold: u64, window: u64)
    ensures
        ({
            let bytes = digits(
                if window == 0xffff_ffff_ffff_ffff {
                    0
                } else {
                    window as nat
                },
                10,
            );
            let tail = digits(calls as nat, 10) + "/poll (thr="@ + digits(threshold as nat, 10)
                + ", window="@ + bytes + "B)"@;
            &&& (Event::SpinPeak { el, calls, threshold, window }).text() == timed(
                el,
                "spin peak "@ + tail,
            )
            &&& (Event::Poll { el, calls, threshold, window }).text() == timed(el, "poll "@ + tail)
        }),
        (Event::Toggle { el, off: true }).text() == timed(el, "F8 -> skip "@ + "OFF"@),
        (Event::Toggle { el, off: false }).text() == timed(el, "F8 -> skip "@ + "ON"@),
{
    let t = stamp(el);
    let (c, d, b) = (
        digits(calls as nat, 10),
        digits(threshold as nat, 10),
        digits(shown_window(window), 10),
    );
    assert(t + "spin peak "@ + c + "/poll (thr="@ + d + ", window="@ + b + "B)"@ =~= t + (
    "spin peak "@ + (c + "/poll (thr="@ + d + ", window="@ + b + "B)"@)));
    assert(t + "poll "@ + c + "/poll (thr="@ + d + ", window="@ + b + "B)"@ =~= t + ("poll "@ + (c
        + "/poll (thr="@ + d + ", window="@ + b + "B)"@)));
    assert(t + "F8 -> skip "@ + "OFF"@ =~= t + ("F8 -> skip "@ + "OFF"@));
    assert(t + "F8 -> skip "@ + "ON"@ =~= t + ("F8 -> skip "@ + "ON"@));
}

/// The lines about a move of the clock and about the end of the job.
pub proof fn law_lines_about_jumps(
    el: i64,
    calls: u64,
    threshold: u64,
    window: u64,
    jump_ms: i64,
    total: i64,
    jumps: u32,
    calm: u32,
)
    ensures
        (Event::Gate { el, calls, threshold, window, jump_ms, total, jumps }).text() == timed(
            el,
            "GATE dq "@ + digits(calls as nat, 10) + "/poll >= thr "@ + digits(threshold as nat, 10)
                + " (intro window, window="@ + digits(window as nat, 10) + "B) -> clock +"@
                + signed(jump_ms as int) + "ms (total +"@ + signed(total as int) + "ms, #"@
                + digits(jumps as nat, 10) + ")"@,
        ),
        (Event::WindowDone { el, closed: true, calm, jumps, total }).text() == timed(
            el,
            "intro window done (closed="@ + seq!['1'] + ", calm="@ + digits(calm as nat, 10) + ", "@
                + digits(jumps as nat, 10) + " jumps, total +"@ + signed(total as int) + "ms)"@,
        ),
        (Event::WindowDone { el, closed: false, calm, jumps, total }).text() == timed(
            el,
            "intro window done (closed="@ + seq!['0'] + ", calm="@ + digits(calm as nat, 10) + ", "@
                + digits(jumps as nat, 10) + " jumps, total +"@ + signed(total as int) + "ms)"@,
        ),
{
    let t = stamp(el);
    let (c, d, w, n, k) = (
        digits(calls as nat, 10),
        digits(threshold as nat, 10),
        digits(window as nat, 10),
        digits(jumps as nat, 10),
        digits(calm as nat, 10),
    );
    let (j, s) = (signed(jump_ms as int), signed(total as int));
    assert(digits(1, 10) =~= seq!['1']);
    assert(digits(0, 10) =~= seq!['0']);
    assert(t + "GATE dq "@ + c + "/poll >= thr "@ + d + " (intro window, window="@ + w
        + "B) -> clock +"@ + j + "ms (total +"@ + s + "ms, #"@ + n + ")"@ =~= t + ("GATE dq "@ + c
        + "/poll >= thr "@ + d + " (intro window, window="@ + w + "B) -> clock +"@ + j
        + "ms (total +"@ + s + "ms, #"@ + n + ")"@));
    assert(t + "intro window done (closed="@ + seq!['1'] + ", calm="@ + k + ", "@ + n
        + " jumps, total +"@ + s + "ms)"@ =~= t + ("intro window done (closed="@ + seq!['1']
        + ", calm="@ + k + ", "@ + n + " jumps, total +"@ + s + "ms)"@));
    assert(t + "intro window done (closed="@ + seq!['0'] + ", calm="@ + k + ", "@ + n
        + " jumps, total +"@ + s + "ms)"@ =~= t + ("intro window done (closed="@ + seq!['0']
        + ", calm="@ + k + ", "@ + n + " jumps, total +"@ + s + "ms)"@));
}

/// The lines about Enter.
pub proof fn law_lines_about_enter(el: i64, interval_ms: i64, window_ms: i64, enters: u32)
    ensures
        (Event::SpamStart { el, interval_ms, window_ms }).text() == timed(
            el,
            "enter_spammer: Enter every "@ + signed(interval_ms as int) + "ms for "@ + signed(
                window_ms as int,
            ) + "ms"@,
        ),
        (Event::SpamDone { el, enters }).text() == timed(
            el,
            "enter_spammer: done ("@ + digits(enters as nat, 10) + " Enter sent)"@,
        ),
{
    let t = stamp(el);
    let (i, w, n) = (
        signed(interval_ms as int),
        signed(window_ms as int),
        digits(enters as nat, 10),
    );
    assert(t + "enter_spammer: Enter every "@ + i + "ms for "@ + w + "ms"@ =~= t + (
    "enter_spammer: Enter every "@ + i + "ms for "@ + w + "ms"@));
    assert(t + "enter_spammer: done ("@ + n + " Enter sent)"@ =~= t + ("enter_spammer: done ("@ + n
        + " Enter sent)"@));
}

/// The log is written unless the settings are there and switch it off.
pub proof fn law_logs(config: Option<&Config>)
    ensures
        !logs(config) <==> config is Some && !config->0.log,
{
}

} // verus!
