//! Settings, and the `fastboot.ini` file that they are read from.
//!
//! The file holds one `key = value` per line. Blank lines, lines that start with `#`, `;` or `[`,
//! lines without `=` and unknown keys are skipped. A number that cannot be read leaves the setting
//! as it was. Where a key occurs more than once, the last readable value holds.

use vstd::prelude::*;
use vstd::slice::slice_subrange;

use crate::number::{parse_i64, parse_u32, parse_u64};
#[allow(unused_imports)]
use crate::number::{parsed_i64, parsed_unsigned};
use crate::text::{chars_of, find, same_ignore_case, same_text, string_of, trimmed};
#[allow(unused_imports)]
use crate::text::{
    blank, is_space, law_position, law_trim, law_trim_splits, lemma_position, lower, position,
    tight, trim, trim_end, trim_start,
};

verus! {

/// The settings.
pub struct Config {
    /// How far to fast-forward for each detected hold, in milliseconds.
    pub jump_ms: i64,
    /// Interval between two polls of the monitor, in milliseconds.
    pub poll_ms: u32,
    /// Counter calls per poll that count as the spin of the hold, at the least.
    pub qpc_spin_min: u64,
    /// The disk counts as quiet below this many bytes read over the window.
    pub quiet_bytes: u64,
    /// Length of the rolling window over which reads are added up, in polls.
    pub quiet_window_polls: u32,
    /// Part of the file name of the startup video. The switches for playback act only on the
    /// handle of that video.
    pub intro_video: String,
    /// Report that the next frame is due at once, so that playback rushes to its end.
    pub bink_wait0: bool,
    /// Report that every frame is to be dropped.
    pub bink_shouldskip: bool,
    /// Write a line to the log for every poll.
    pub diag: bool,
    /// Write the log at all.
    pub log: bool,
    /// After the skip, press Enter through the prompts that follow.
    pub enter_spammer: bool,
    /// Time between two presses of Enter, in milliseconds.
    pub enter_interval_ms: i64,
    /// Stop pressing Enter this long after the skip, in milliseconds.
    pub enter_window_ms: i64,
}

/// A key of the file.
#[derive(Clone, Copy, Debug, PartialEq, Eq, Structural)]
pub enum Key {
    JumpMs,
    PollMs,
    QpcSpinMin,
    QuietBytes,
    QuietWindowPolls,
    IntroVideo,
    BinkWait0,
    BinkShouldskip,
    Diag,
    Log,
    EnterSpammer,
    EnterIntervalMs,
    EnterWindowMs,
}

/// The settings as plain values.
pub ghost struct Settings {
    pub jump_ms: int,
    pub poll_ms: int,
    pub qpc_spin_min: int,
    pub quiet_bytes: int,
    pub quiet_window_polls: int,
    pub intro_video: Seq<char>,
    pub bink_wait0: bool,
    pub bink_shouldskip: bool,
    pub diag: bool,
    pub log: bool,
    pub enter_spammer: bool,
    pub enter_interval_ms: int,
    pub enter_window_ms: int,
}

impl View for Config {
    type V = Settings;

    open spec fn view(&self) -> Settings {
        Settings {
            jump_ms: self.jump_ms as int,
            poll_ms: self.poll_ms as int,
            qpc_spin_min: self.qpc_spin_min as int,
            quiet_bytes: self.quiet_bytes as int,
            quiet_window_polls: self.quiet_window_polls as int,
            intro_video: self.intro_video@,
            bink_wait0: self.bink_wait0,
            bink_shouldskip: self.bink_shouldskip,
            diag: self.diag,
            log: self.log,
            enter_spammer: self.enter_spammer,
            enter_interval_ms: self.enter_interval_ms as int,
            enter_window_ms: self.enter_window_ms as int,
        }
    }
}

/// The settings without a file.
pub open spec fn defaults() -> Settings {
    Settings {
        jump_ms: 30_000,
        poll_ms: 80,
        qpc_spin_min: 500_000,
        quiet_bytes: 6_000_000,
        quiet_window_polls: 12,
        intro_video: "T10_MS_Combined"@,
        bink_wait0: false,
        bink_shouldskip: false,
        diag: false,
        log: true,
        enter_spammer: false,
        enter_interval_ms: 120,
        enter_window_ms: 12_000,
    }
}

/// What a switch is set to: everything but `0` and `false` switches it on.
pub open spec fn is_on(v: Seq<char>) -> bool {
    v != "0"@ && lower(v) != lower("false"@)
}

/// The number that was read, or what was there before.
pub open spec fn read_or(read: Option<int>, before: int) -> int {
    match read {
        Some(n) => n,
        None => before,
    }
}

/// The key with the given name.
pub open spec fn key_of(k: Seq<char>) -> Option<Key> {
    if k == "jump_ms"@ {
        Some(Key::JumpMs)
    } else if k == "poll_ms"@ {
        Some(Key::PollMs)
    } else if k == "qpc_spin_min"@ {
        Some(Key::QpcSpinMin)
    } else if k == "quiet_bytes"@ {
        Some(Key::QuietBytes)
    } else if k == "quiet_window_polls"@ {
        Some(Key::QuietWindowPolls)
    } else if k == "intro_video"@ {
        Some(Key::IntroVideo)
    } else if k == "bink_wait0"@ {
        Some(Key::BinkWait0)
    } else if k == "bink_shouldskip"@ {
        Some(Key::BinkShouldskip)
    } else if k == "diag"@ {
        Some(Key::Diag)
    } else if k == "log"@ {
        Some(Key::Log)
    } else if k == "enter_spammer"@ {
        Some(Key::EnterSpammer)
    } else if k == "enter_interval_ms"@ {
        Some(Key::EnterIntervalMs)
    } else if k == "enter_window_ms"@ {
        Some(Key::EnterWindowMs)
    } else {
        None
    }
}

/// The settings after `v` was given for the key.
pub open spec fn with_setting(c: Settings, key: Key, v: Seq<char>) -> Settings {
    match key {
        Key::JumpMs => Settings { jump_ms: read_or(parsed_i64(v), c.jump_ms), ..c },
        Key::PollMs => Settings { poll_ms: read_or(parsed_unsigned(v, u32::MAX as int), c.poll_ms), ..c },
        Key::QpcSpinMin => Settings { qpc_spin_min: read_or(parsed_unsigned(v, u64::MAX as int), c.qpc_spin_min), ..c },
        Key::QuietBytes => Settings { quiet_bytes: read_or(parsed_unsigned(v, u64::MAX as int), c.quiet_bytes), ..c },
        Key::QuietWindowPolls => Settings { quiet_window_polls: read_or(parsed_unsigned(v, u32::MAX as int), c.quiet_window_polls), ..c },
        Key::IntroVideo => Settings { intro_video: v, ..c },
        Key::BinkWait0 => Settings { bink_wait0: is_on(v), ..c },
        Key::BinkShouldskip => Settings { bink_shouldskip: is_on(v), ..c },
        Key::Diag => Settings { diag: is_on(v), ..c },
        Key::Log => Settings { log: is_on(v), ..c },
        Key::EnterSpammer => Settings { enter_spammer: is_on(v), ..c },
        Key::EnterIntervalMs => Settings { enter_interval_ms: read_or(parsed_i64(v), c.enter_interval_ms), ..c },
        Key::EnterWindowMs => Settings { enter_window_ms: read_or(parsed_i64(v), c.enter_window_ms), ..c },
    }
}

/// The settings after `k = v`. A name that is no key changes nothing.
pub open spec fn with_key(c: Settings, k: Seq<char>, v: Seq<char>) -> Settings {
    match key_of(k) {
        Some(key) => with_setting(c, key, v),
        None => c,
    }
}

/// Is skipped, once trimmed: blank, a comment or a section header.
pub open spec fn is_skipped(line: Seq<char>) -> bool {
    ||| line.len() == 0
    ||| line.first() == '#'
    ||| line.first() == ';'
    ||| line.first() == '['
}

/// The settings after one line of the file.
pub open spec fn with_line(c: Settings, line: Seq<char>) -> Settings {
    let line = trim(line);
    let eq = position(line, '=');
    if is_skipped(line) || eq == line.len() {
        c
    } else {
        with_key(c, trim(line.take(eq)), trim(line.skip(eq + 1)))
    }
}

/// The settings after the lines of the file, from the first to the last.
pub open spec fn with_text(c: Settings, text: Seq<char>) -> Settings
    decreases text.len(),
{
    let end = position(text, '\n');
    if end == text.len() {
        with_line(c, text)
    } else {
        proof {
            lemma_position(text, '\n');
        }
        with_text(with_line(c, text.take(end)), text.skip(end + 1))
    }
}

/// Whether a switch is set.
pub fn on(v: &[char]) -> (r: bool)
    ensures
        r == is_on(v@),
{
    !same_text(v, "0") && !same_ignore_case(v, "false")
}

/// The key with the given name.
pub fn find_key(k: &[char]) -> (r: Option<Key>)
    ensures
        r == key_of(k@),
{
    if same_text(k, "jump_ms") {
        Some(Key::JumpMs)
    } else if same_text(k, "poll_ms") {
        Some(Key::PollMs)
    } else if same_text(k, "qpc_spin_min") {
        Some(Key::QpcSpinMin)
    } else if same_text(k, "quiet_bytes") {
        Some(Key::QuietBytes)
    } else if same_text(k, "quiet_window_polls") {
        Some(Key::QuietWindowPolls)
    } else if same_text(k, "intro_video") {
        Some(Key::IntroVideo)
    } else if same_text(k, "bink_wait0") {
        Some(Key::BinkWait0)
    } else if same_text(k, "bink_shouldskip") {
        Some(Key::BinkShouldskip)
    } else if same_text(k, "diag") {
        Some(Key::Diag)
    } else if same_text(k, "log") {
        Some(Key::Log)
    } else if same_text(k, "enter_spammer") {
        Some(Key::EnterSpammer)
    } else if same_text(k, "enter_interval_ms") {
        Some(Key::EnterIntervalMs)
    } else if same_text(k, "enter_window_ms") {
        Some(Key::EnterWindowMs)
    } else {
        None
    }
}

impl Config {
    /// The settings without a file.
    pub fn standard() -> (c: Config)
        ensures
            c@ == defaults(),
    {
        Config {
            jump_ms: 30_000,
            poll_ms: 80,
            qpc_spin_min: 500_000,
            quiet_bytes: 6_000_000,
            quiet_window_polls: 12,
            intro_video: "T10_MS_Combined".to_owned(),
            bink_wait0: false,
            bink_shouldskip: false,
            diag: false,
            log: true,
            enter_spammer: false,
            enter_interval_ms: 120,
            enter_window_ms: 12_000,
        }
    }

    /// Sets one key.
    pub fn set(&mut self, key: Key, v: &[char])
        ensures
            final(self)@ == with_setting(old(self)@, key, v@),
    {
        match key {
            Key::JumpMs => {
                if let Some(x) = parse_i64(v) {
                    self.jump_ms = x;
                }
            },
            Key::PollMs => {
                if let Some(x) = parse_u32(v) {
                    self.poll_ms = x;
                }
            },
            Key::QpcSpinMin => {
                if let Some(x) = parse_u64(v) {
                    self.qpc_spin_min = x;
                }
            },
            Key::QuietBytes => {
                if let Some(x) = parse_u64(v) {
                    self.quiet_bytes = x;
                }
            },
            Key::QuietWindowPolls => {
                if let Some(x) = parse_u32(v) {
                    self.quiet_window_polls = x;
                }
            },
            Key::IntroVideo => {
                self.intro_video = string_of(v);
            },
            Key::BinkWait0 => {
                self.bink_wait0 = on(v);
            },
            Key::BinkShouldskip => {
                self.bink_shouldskip = on(v);
            },
            Key::Diag => {
                self.diag = on(v);
            },
            Key::Log => {
                self.log = on(v);
            },
            Key::EnterSpammer => {
                self.enter_spammer = on(v);
            },
            Key::EnterIntervalMs => {
                if let Some(x) = parse_i64(v) {
                    self.enter_interval_ms = x;
                }
            },
            Key::EnterWindowMs => {
                if let Some(x) = parse_i64(v) {
                    self.enter_window_ms = x;
                }
            },
        }
    }

    /// Reads one line of the file.
    pub fn set_line(&mut self, line: &[char])
        ensures
            final(self)@ == with_line(old(self)@, line@),
    {
        let line = trimmed(line);
        if line.len() == 0 || line[0] == '#' || line[0] == ';' || line[0] == '[' {
            return ;
        }
        let eq: usize = find(line, '=');
        if eq < line.len() {
            let k = slice_subrange(line, 0, eq);
            let v = slice_subrange(line, eq + 1, line.len());
            assert(k@ == line@.take(eq as int));
            assert(v@ == line@.skip(eq + 1));
            if let Some(key) = find_key(trimmed(k)) {
                self.set(key, trimmed(v));
            }
        }
    }
}

/// The settings that the text of `fastboot.ini` gives; those without a file where it could not be
/// read.
pub fn load_config(text: Option<&str>) -> (c: Config)
    ensures
        c@ == match text {
            Some(t) => with_text(defaults(), t@),
            None => defaults(),
        },
{
    let mut c = Config::standard();
    if let Some(t) = text {
        let chars = chars_of(t);
        let all = chars.as_slice();
        let mut start: usize = 0;
        assert(all@.skip(0) == all@);
        loop
            invariant
                start <= all.len(),
                with_text(defaults(), all@) == with_text(c@, all@.skip(start as int)),
            ensures
                c@ == with_text(defaults(), all@),
            decreases all.len() - start,
        {
            let rest = slice_subrange(all, start, all.len());
            assert(rest@ == all@.skip(start as int));
            let end: usize = find(rest, '\n');
            let line = slice_subrange(rest, 0, end);
            assert(line@ == rest@.take(end as int));
            c.set_line(line);
            if end == rest.len() {
                assert(line@ == rest@);
                break ;
            }
            assert(rest@.skip(end + 1) == all@.skip(start + end + 1));
            start = start + end + 1;
        }
    }
    c
}

/// Reading one file after another is reading them as one, with a line break between them: later
/// lines apply to what the earlier ones left.
pub proof fn law_texts_append(c: Settings, a: Seq<char>, b: Seq<char>)
    ensures
        with_text(c, a.push('\n') + b) == with_text(with_text(c, a), b),
    decreases a.len(),
{
    let all = a.push('\n') + b;
    lemma_position(a, '\n');
    lemma_position(all, '\n');
    let end = position(a, '\n');
    if end < a.len() {
        assert(all[end] == '\n');
        assert(position(all, '\n') == end) by {
            if position(all, '\n') < end {
                assert(all[position(all, '\n')] == a[position(all, '\n')]);
            }
        }
        assert(all.take(end) == a.take(end));
        assert(all.skip(end + 1) == a.skip(end + 1).push('\n') + b);
        law_texts_append(with_line(c, a.take(end)), a.skip(end + 1), b);
    } else {
        assert(all[a.len() as int] == '\n');
        assert(position(all, '\n') == a.len()) by {
            if position(all, '\n') < a.len() {
                assert(all[position(all, '\n')] == a[position(all, '\n')]);
            }
        }
        assert(all.take(a.len() as int) == a);
        assert(all.skip(a.len() as int + 1) == b);
    }
}

/// Blank lines, comments, section headers and lines without `=` change nothing.
pub proof fn law_skipped_lines(c: Settings, line: Seq<char>)
    requires
        is_skipped(trim(line)) || !trim(line).contains('='),
    ensures
        with_line(c, line) == c,
{
    lemma_position(trim(line), '=');
}

/// The value can be read as what the key asks for.
pub open spec fn is_readable(key: Key, v: Seq<char>) -> bool {
    match key {
        Key::JumpMs | Key::EnterIntervalMs | Key::EnterWindowMs => parsed_i64(v) is Some,
        Key::PollMs | Key::QuietWindowPolls => parsed_unsigned(v, u32::MAX as int) is Some,
        Key::QpcSpinMin | Key::QuietBytes => parsed_unsigned(v, u64::MAX as int) is Some,
        _ => true,
    }
}

/// A number that cannot be read leaves the settings as they were.
pub proof fn law_unreadable_number(c: Settings, key: Key, v: Seq<char>)
    requires
        !is_readable(key, v),
    ensures
        with_setting(c, key, v) == c,
{
}

/// A line sets its own key and no other.
pub proof fn law_other_keys_kept(c: Settings, key: Key, v: Seq<char>)
    ensures
        key != Key::JumpMs ==> with_setting(c, key, v).jump_ms == c.jump_ms,
        key != Key::PollMs ==> with_setting(c, key, v).poll_ms == c.poll_ms,
        key != Key::QpcSpinMin ==> with_setting(c, key, v).qpc_spin_min == c.qpc_spin_min,
        key != Key::QuietBytes ==> with_setting(c, key, v).quiet_bytes == c.quiet_bytes,
        key != Key::QuietWindowPolls ==> with_setting(c, key, v).quiet_window_polls == c.quiet_window_polls,
        key != Key::IntroVideo ==> with_setting(c, key, v).intro_video == c.intro_video,
        key != Key::BinkWait0 ==> with_setting(c, key, v).bink_wait0 == c.bink_wait0,
        key != Key::BinkShouldskip ==> with_setting(c, key, v).bink_shouldskip == c.bink_shouldskip,
        key != Key::Diag ==> with_setting(c, key, v).diag == c.diag,
        key != Key::Log ==> with_setting(c, key, v).log == c.log,
        key != Key::EnterSpammer ==> with_setting(c, key, v).enter_spammer == c.enter_spammer,
        key != Key::EnterIntervalMs ==> with_setting(c, key, v).enter_interval_ms == c.enter_interval_ms,
        key != Key::EnterWindowMs ==> with_setting(c, key, v).enter_window_ms == c.enter_window_ms,
{
}

/// Where a key is set twice, the last readable value holds.
pub proof fn law_last_value_holds(c: Settings, key: Key, v1: Seq<char>, v2: Seq<char>)
    requires
        is_readable(key, v2),
    ensures
        with_setting(with_setting(c, key, v1), key, v2) == with_setting(c, key, v2),
{
}

/// A carriage return before the line break makes no difference.
pub proof fn law_carriage_return(c: Settings, line: Seq<char>)
    ensures
        with_line(c, line.push('\r')) == with_line(c, line),
{
    lemma_trim_push(line, '\r');
}

proof fn lemma_trim_push(s: Seq<char>, c: char)
    requires
        is_space(c),
    ensures
        trim(s.push(c)) == trim(s),
    decreases s.len(),
{
    let p = s.push(c);
    if s.len() == 0 {
        assert(p.drop_first() == s);
    } else if is_space(s.first()) {
        assert(p.drop_first() == s.drop_first().push(c));
        lemma_trim_push(s.drop_first(), c);
    } else {
        assert(p.drop_last() == s);
    }
}

/// Each name is that of its own key, and no other name is that of a key.
pub proof fn law_key_names(k: Seq<char>)
    ensures
        key_of("jump_ms"@) == Some(Key::JumpMs),
        key_of("poll_ms"@) == Some(Key::PollMs),
        key_of("qpc_spin_min"@) == Some(Key::QpcSpinMin),
        key_of("quiet_bytes"@) == Some(Key::QuietBytes),
        key_of("quiet_window_polls"@) == Some(Key::QuietWindowPolls),
        key_of("intro_video"@) == Some(Key::IntroVideo),
        key_of("bink_wait0"@) == Some(Key::BinkWait0),
        key_of("bink_shouldskip"@) == Some(Key::BinkShouldskip),
        key_of("diag"@) == Some(Key::Diag),
        key_of("log"@) == Some(Key::Log),
        key_of("enter_spammer"@) == Some(Key::EnterSpammer),
        key_of("enter_interval_ms"@) == Some(Key::EnterIntervalMs),
        key_of("enter_window_ms"@) == Some(Key::EnterWindowMs),
        ({
            &&& k != "jump_ms"@
            &&& k != "poll_ms"@
            &&& k != "qpc_spin_min"@
            &&& k != "quiet_bytes"@
            &&& k != "quiet_window_polls"@
            &&& k != "intro_video"@
            &&& k != "bink_wait0"@
            &&& k != "bink_shouldskip"@
            &&& k != "diag"@
            &&& k != "log"@
            &&& k != "enter_spammer"@
            &&& k != "enter_interval_ms"@
            &&& k != "enter_window_ms"@
        }) ==> key_of(k) is None,
{
    reveal_strlit("jump_ms");
    reveal_strlit("poll_ms");
    reveal_strlit("qpc_spin_min");
    reveal_strlit("quiet_bytes");
    reveal_strlit("quiet_window_polls");
    reveal_strlit("intro_video");
    reveal_strlit("bink_wait0");
    reveal_strlit("bink_shouldskip");
    reveal_strlit("diag");
    reveal_strlit("log");
    reveal_strlit("enter_spammer");
    reveal_strlit("enter_interval_ms");
    reveal_strlit("enter_window_ms");
    assert("jump_ms"@.len() == 7);
    assert("poll_ms"@.len() == 7);
    assert("qpc_spin_min"@.len() == 12);
    assert("quiet_bytes"@.len() == 11);
    assert("quiet_window_polls"@.len() == 18);
    assert("intro_video"@.len() == 11);
    assert("bink_wait0"@.len() == 10);
    assert("bink_shouldskip"@.len() == 15);
    assert("diag"@.len() == 4);
    assert("log"@.len() == 3);
    assert("enter_spammer"@.len() == 13);
    assert("enter_interval_ms"@.len() == 17);
    assert("enter_window_ms"@.len() == 15);
    assert("jump_ms"@[0] != "poll_ms"@[0]);
    assert("quiet_bytes"@[0] != "intro_video"@[0]);
    assert("bink_shouldskip"@[0] != "enter_window_ms"@[0]);
}

/// A number is set to what its text stands for, if that is a number of its type. A switch is off for
/// `0` and for `false` in any case, else on. The name of the video is taken as it is.
pub proof fn law_settings(c: Settings, v: Seq<char>)
    ensures
        with_setting(c, Key::JumpMs, v).jump_ms == (match parsed_i64(v) {
            Some(n) => n,
            None => c.jump_ms,
        }),
        with_setting(c, Key::PollMs, v).poll_ms == (match parsed_unsigned(v, 0xffff_ffff) {
            Some(n) => n,
            None => c.poll_ms,
        }),
        with_setting(c, Key::QpcSpinMin, v).qpc_spin_min == (match parsed_unsigned(v, 0xffff_ffff_ffff_ffff) {
            Some(n) => n,
            None => c.qpc_spin_min,
        }),
        with_setting(c, Key::QuietBytes, v).quiet_bytes == (match parsed_unsigned(v, 0xffff_ffff_ffff_ffff) {
            Some(n) => n,
            None => c.quiet_bytes,
        }),
        with_setting(c, Key::QuietWindowPolls, v).quiet_window_polls == (match parsed_unsigned(v, 0xffff_ffff) {
            Some(n) => n,
            None => c.quiet_window_polls,
        }),
        with_setting(c, Key::IntroVideo, v).intro_video == v,
        with_setting(c, Key::BinkWait0, v).bink_wait0 == !(v == seq!['0'] || lower(v) == seq!['f', 'a', 'l', 's', 'e']),
        with_setting(c, Key::BinkShouldskip, v).bink_shouldskip == !(v == seq!['0'] || lower(v) == seq!['f', 'a', 'l', 's', 'e']),
        with_setting(c, Key::Diag, v).diag == !(v == seq!['0'] || lower(v) == seq!['f', 'a', 'l', 's', 'e']),
        with_setting(c, Key::Log, v).log == !(v == seq!['0'] || lower(v) == seq!['f', 'a', 'l', 's', 'e']),
        with_setting(c, Key::EnterSpammer, v).enter_spammer == !(v == seq!['0'] || lower(v) == seq!['f', 'a', 'l', 's', 'e']),
        with_setting(c, Key::EnterIntervalMs, v).enter_interval_ms == (match parsed_i64(v) {
            Some(n) => n,
            None => c.enter_interval_ms,
        }),
        with_setting(c, Key::EnterWindowMs, v).enter_window_ms == (match parsed_i64(v) {
            Some(n) => n,
            None => c.enter_window_ms,
        }),
{
    reveal_strlit("0");
    reveal_strlit("false");
    assert("0"@ =~= seq!['0']);
    assert("false"@ =~= seq!['f', 'a', 'l', 's', 'e']);
    assert(lower("false"@) =~= "false"@);
}

/// The settings without a file.
pub proof fn law_defaults()
    ensures
        defaults().jump_ms == 30000,
        defaults().poll_ms == 80,
        defaults().qpc_spin_min == 500000,
        defaults().quiet_bytes == 6000000,
        defaults().quiet_window_polls == 12,
        defaults().intro_video == "T10_MS_Combined"@,
        !defaults().bink_wait0,
        !defaults().bink_shouldskip,
        !defaults().diag,
        defaults().log,
        !defaults().enter_spammer,
        defaults().enter_interval_ms == 120,
        defaults().enter_window_ms == 12000,
{
}

/// A line with a key and a value, with white space around either, sets that key to that value.
pub proof fn law_key_line(
    c: Settings,
    a: Seq<char>,
    k: Seq<char>,
    before: Seq<char>,
    after: Seq<char>,
    v: Seq<char>,
    e: Seq<char>,
)
    requires
        blank(a),
        blank(before),
        blank(after),
        blank(e),
        tight(k),
        tight(v),
        k.len() > 0,
        k[0] != '#',
        k[0] != ';',
        k[0] != '[',
        !k.contains('='),
    ensures
        with_line(c, a + k + before + seq!['='] + after + v + e) == with_key(c, k, v),
{
    let line = a + k + before + seq!['='] + after + v + e;
    let head = k + before;
    let empty = Seq::<char>::empty();
    assert(!head.contains('=')) by {
        if head.contains('=') {
            let i = choose|i: int| 0 <= i < head.len() && head[i] == '=';
            if i < k.len() {
                assert(k[i] == '=');
            } else {
                assert(before[i - k.len()] == '=');
            }
        }
    }
    let inner = if v.len() == 0 {
        head.push('=')
    } else {
        head.push('=') + (after + v)
    };
    if v.len() == 0 {
        assert(blank(after + e)) by {
            assert forall|i: int| 0 <= i < (after + e).len() implies is_space(
                #[trigger] (after + e)[i],
            ) by {
                if i < after.len() {
                    assert((after + e)[i] == after[i]);
                } else {
                    assert((after + e)[i] == e[i - after.len()]);
                }
            }
        }
        assert(line =~= a + inner + (after + e));
        assert(tight(inner));
        law_trim(a, inner, after + e);
        assert(inner =~= head.push('=') + empty);
        law_position(head, '=', empty);
        assert(inner.skip(head.len() as int + 1) =~= v);
        law_trim(empty, v, empty);
        assert(empty + v + empty =~= v);
    } else {
        assert(line =~= a + inner + e);
        assert(inner[inner.len() - 1] == v[v.len() - 1]);
        assert(tight(inner));
        law_trim(a, inner, e);
        law_position(head, '=', after + v);
        assert(inner.skip(head.len() as int + 1) =~= after + v + empty);
        law_trim(after, v, empty);
    }
    assert(inner[0] == k[0]);
    assert(inner.take(head.len() as int) =~= empty + k + before);
    law_trim(empty, k, before);
}

/// A text without a line break is one line; behind a line break the next line begins.
pub proof fn law_lines(c: Settings, line: Seq<char>, rest: Seq<char>)
    requires
        !line.contains('\n'),
    ensures
        with_text(c, line) == with_line(c, line),
        with_text(c, line.push('\n') + rest) == with_text(with_line(c, line), rest),
{
    law_position(line, '\n', rest);
    let all = line.push('\n') + rest;
    assert(all.take(line.len() as int) =~= line);
    assert(all.skip(line.len() as int + 1) =~= rest);
}

/// The settings are the values of the fields.
pub proof fn law_view(c: Config)
    ensures
        c@.jump_ms == c.jump_ms,
        c@.poll_ms == c.poll_ms,
        c@.qpc_spin_min == c.qpc_spin_min,
        c@.quiet_bytes == c.quiet_bytes,
        c@.quiet_window_polls == c.quiet_window_polls,
        c@.intro_video == c.intro_video@,
        c@.bink_wait0 == c.bink_wait0,
        c@.bink_shouldskip == c.bink_shouldskip,
        c@.diag == c.diag,
        c@.log == c.log,
        c@.enter_spammer == c.enter_spammer,
        c@.enter_interval_ms == c.enter_interval_ms,
        c@.enter_window_ms == c.enter_window_ms,
{
}

/// A switch is off for `0` and for `false` in any case, and on for everything else, the empty text too.
pub proof fn law_is_on(v: Seq<char>)
    ensures
        !is_on(v) <==> v == seq!['0'] || lower(v) == seq!['f', 'a', 'l', 's', 'e'],
{
    reveal_strlit("0");
    reveal_strlit("false");
    assert("0"@ =~= seq!['0']);
    assert("false"@ =~= seq!['f', 'a', 'l', 's', 'e']);
    assert(lower("false"@) =~= "false"@);
}

/// A name that is that of a key sets it, and any other changes nothing.
pub proof fn law_with_key(c: Settings, key: Key, k: Seq<char>, v: Seq<char>)
    ensures
        key_of(k) == Some(key) ==> with_key(c, k, v) == with_setting(c, key, v),
        key_of(k) is None ==> with_key(c, k, v) == c,
{
}

/// A line that is blank, or whose first character but white space is `#`, `;`, `[` or `=`, changes
/// nothing, whatever follows.
pub proof fn law_ignored_lines(c: Settings, a: Seq<char>, first: char, rest: Seq<char>)
    requires
        blank(a),
        first == '#' || first == ';' || first == '[' || first == '=',
    ensures
        with_line(c, a) == c,
        with_line(c, a + seq![first] + rest) == c,
{
    let empty = Seq::<char>::empty();
    assert(a + empty + empty =~= a);
    law_trim(a, empty, empty);
    let s = seq![first] + rest;
    let (p, e) = law_trim_splits(s);
    let t = trim(s);
    assert(s[0] == first);
    if p.len() > 0 {
        assert(p[0] == s[0]);
        assert(is_space(p[0]));
    }
    if t.len() == 0 {
        assert(s =~= e);
        assert(is_space(e[0]));
    }
    assert(s =~= t + e);
    assert(t[0] == s[0]);
    assert(a + seq![first] + rest =~= a + s);
    assert(a + (t + e) =~= a + t + e);
    law_trim(a, t, e);
    if first == '=' {
        law_position(empty, '=', t.skip(1));
        assert(empty.push('=') + t.skip(1) =~= t);
        assert(t.take(0) =~= empty);
        assert(empty + empty + empty =~= empty);
        law_trim(empty, empty, empty);
        lemma_no_empty_key();
    }
}

proof fn lemma_no_empty_key()
    ensures
        key_of(Seq::<char>::empty()) is None,
{
    let empty = Seq::<char>::empty();
    reveal_strlit("jump_ms");
    reveal_strlit("poll_ms");
    reveal_strlit("qpc_spin_min");
    reveal_strlit("quiet_bytes");
    reveal_strlit("quiet_window_polls");
    reveal_strlit("intro_video");
    reveal_strlit("bink_wait0");
    reveal_strlit("bink_shouldskip");
    reveal_strlit("diag");
    reveal_strlit("log");
    reveal_strlit("enter_spammer");
    reveal_strlit("enter_interval_ms");
    reveal_strlit("enter_window_ms");
    assert("jump_ms"@.len() > 0 && "poll_ms"@.len() > 0 && "qpc_spin_min"@.len() > 0
        && "quiet_bytes"@.len() > 0 && "quiet_window_polls"@.len() > 0 && "intro_video"@.len() > 0
        && "bink_wait0"@.len() > 0 && "bink_shouldskip"@.len() > 0 && "diag"@.len() > 0
        && "log"@.len() > 0 && "enter_spammer"@.len() > 0 && "enter_interval_ms"@.len() > 0
        && "enter_window_ms"@.len() > 0);
}

/// A line without `=` changes nothing.
pub proof fn law_line_without_value(c: Settings, line: Seq<char>)
    requires
        !line.contains('='),
    ensures
        with_line(c, line) == c,
{
    let (a, b) = law_trim_splits(line);
    let t = trim(line);
    if t.contains('=') {
        let i = choose|i: int| 0 <= i < t.len() && t[i] == '=';
        assert(line[a.len() + i] == '=');
    }
    law_position(t, '=', Seq::empty());
}

} // verus!
