//! Follows the startup video from the opening of its file to the end of its playback.
//!
//! Playback is opened from memory, without a file name. So the opening of the file marks the next
//! playback handle as that of the startup video.

use vstd::prelude::*;

use crate::arith::difference;
#[allow(unused_imports)]
use crate::arith::{law_wrap, lemma_same_wrap, wrap_i64};
use crate::config::Config;
use crate::event::Event;
use crate::text::{base_of, chars_of, mentions, string_of, to_lower};
#[allow(unused_imports)]
use crate::text::{base_name, contains, law_contains, law_contains_splits, law_lower, lower};

verus! {

/// How long after the start playback is watched, in milliseconds.
pub const BOOT_MS: i64 = 120_000;

/// How many decoded frames are logged.
pub const MAX_FRAMES: u64 = 16;

/// What is known of the startup video.
#[derive(Clone, Copy, Debug, PartialEq, Eq, Structural)]
pub struct Probe {
    /// When watching began, in milliseconds.
    pub start_ms: i64,
    /// The file was opened.
    pub intro_open: bool,
    /// The file was opened and no playback since.
    pub file_pending: bool,
    /// The playback handle; zero until it is known.
    pub intro_handle: isize,
    /// Playback was closed.
    pub intro_closed: bool,
    /// How many decoded frames have been logged.
    pub frames_logged: u64,
}

/// The name is that of a video file.
pub open spec fn is_video(name: Seq<char>) -> bool {
    contains(lower(name), ".bk2"@)
}

/// The name contains that of the startup video, without regard to case.
pub open spec fn is_intro(config: Option<&Config>, name: Seq<char>) -> bool {
    match config {
        Some(c) => c.intro_video@.len() > 0 && contains(lower(name), lower(c.intro_video@)),
        None => false,
    }
}

/// The time from `start` to `now` is within the boot window.
pub open spec fn in_boot_window(now: int, start: int) -> bool {
    wrap_i64(now - start) < BOOT_MS
}

impl Probe {
    /// At the start nothing is known.
    pub open spec fn fresh(start_ms: i64) -> Probe {
        Probe {
            start_ms,
            intro_open: false,
            file_pending: false,
            intro_handle: 0,
            intro_closed: false,
            frames_logged: 0,
        }
    }

    /// Playback is watched at the time `now`.
    pub open spec fn watches(self, now: i64) -> bool {
        in_boot_window(now as int, self.start_ms as int)
    }

    /// The next playback handle is that of the startup video.
    pub open spec fn tags_next(self) -> bool {
        self.file_pending && self.intro_handle == 0
    }

    /// A decoded frame is logged at the time `now`.
    pub open spec fn logs_frame(self, now: i64) -> bool {
        self.frames_logged < MAX_FRAMES && self.watches(now)
    }

    /// After the file of the startup video was opened.
    pub open spec fn after_intro_file(self) -> Probe {
        Probe { file_pending: true, intro_open: true, ..self }
    }

    /// After playback was opened with the handle `h`.
    pub open spec fn after_open(self, now: i64, h: isize) -> Probe {
        if !self.watches(now) {
            self
        } else if self.tags_next() {
            Probe { file_pending: false, intro_handle: h, ..self }
        } else {
            Probe { file_pending: false, ..self }
        }
    }

    /// After a frame was decoded.
    pub open spec fn after_frame(self, now: i64) -> Probe {
        if self.logs_frame(now) {
            Probe { frames_logged: (self.frames_logged + 1) as u64, ..self }
        } else {
            self
        }
    }

    /// After the playback handle `b` was closed.
    pub open spec fn after_close(self, b: isize) -> Probe {
        if b == self.intro_handle {
            Probe { intro_closed: true, ..self }
        } else {
            self
        }
    }

    /// Starts watching.
    pub fn new(start_ms: i64) -> (p: Probe)
        ensures
            p == Probe::fresh(start_ms),
    {
        Probe {
            start_ms,
            intro_open: false,
            file_pending: false,
            intro_handle: 0,
            intro_closed: false,
            frames_logged: 0,
        }
    }
}

/// Whether `now` is within the boot window.
pub fn boot_window(now: i64, start: i64) -> (r: bool)
    ensures
        r == in_boot_window(now as int, start as int),
{
    difference(now, start) < BOOT_MS
}

/// Takes note of an opened file. Names that are not those of a video are ignored.
pub fn note_bk2(probe: &mut Probe, config: Option<&Config>, now: i64, name: &str) -> (r: Option<
    Event,
>)
    ensures
        *final(probe) == if is_video(name@) && is_intro(config, name@) {
            old(probe).after_intro_file()
        } else {
            *old(probe)
        },
        match r {
            None => !is_video(name@) || (is_intro(config, name@) && old(probe).intro_open),
            Some(Event::IntroFile { el, base }) => {
                &&& is_video(name@)
                &&& is_intro(config, name@)
                &&& !old(probe).intro_open
                &&& el == wrap_i64(now - old(probe).start_ms)
                &&& base@ == base_name(name@)
            },
            Some(Event::FileOpen { el, base }) => {
                &&& is_video(name@)
                &&& !is_intro(config, name@)
                &&& el == wrap_i64(now - old(probe).start_ms)
                &&& base@ == base_name(name@)
            },
            _ => false,
        },
{
    let chars = chars_of(name);
    let small = to_lower(chars.as_slice());
    let ending = chars_of(".bk2");
    if !mentions(small.as_slice(), ending.as_slice()) {
        return None;
    }
    let el: i64 = difference(now, probe.start_ms);
    let base = string_of(base_of(chars.as_slice()));
    if let Some(c) = config {
        let needle = to_lower(chars_of(c.intro_video.as_str()).as_slice());
        if needle.len() > 0 && mentions(small.as_slice(), needle.as_slice()) {
            probe.file_pending = true;
            let was_open: bool = probe.intro_open;
            probe.intro_open = true;
            if was_open {
                return None;
            }
            return Some(Event::IntroFile { el, base });
        }
    }
    Some(Event::FileOpen { el, base })
}

/// Takes note of a playback handle. The first one after the file of the startup video is its own.
pub fn hk_bkopen(probe: &mut Probe, now: i64, h: isize, flags: u32) -> (r: Option<Event>)
    ensures
        *final(probe) == old(probe).after_open(now, h),
        r == if !old(probe).watches(now) {
            None
        } else if old(probe).tags_next() {
            Some(
                Event::IntroHandle {
                    el: wrap_i64(now - old(probe).start_ms) as i64,
                    handle: h,
                    flags,
                },
            )
        } else {
            Some(
                Event::BinkOpen {
                    el: wrap_i64(now - old(probe).start_ms) as i64,
                    handle: h,
                    flags,
                },
            )
        },
{
    if !boot_window(now, probe.start_ms) {
        return None;
    }
    let el: i64 = difference(now, probe.start_ms);
    let pending: bool = probe.file_pending;
    probe.file_pending = false;
    if pending && probe.intro_handle == 0 {
        probe.intro_handle = h;
        Some(Event::IntroHandle { el, handle: h, flags })
    } else {
        Some(Event::BinkOpen { el, handle: h, flags })
    }
}

/// Takes note of a decoded frame.
pub fn hk_bkdof(probe: &mut Probe, now: i64, b: isize) -> (r: Option<Event>)
    ensures
        *final(probe) == old(probe).after_frame(now),
        r == if old(probe).logs_frame(now) {
            Some(
                Event::BinkFrame {
                    el: wrap_i64(now - old(probe).start_ms) as i64,
                    handle: b,
                    intro: b == old(probe).intro_handle,
                    number: (old(probe).frames_logged + 1) as u64,
                },
            )
        } else {
            None
        },
{
    if probe.frames_logged < MAX_FRAMES && boot_window(now, probe.start_ms) {
        probe.frames_logged = probe.frames_logged + 1;
        Some(
            Event::BinkFrame {
                el: difference(now, probe.start_ms),
                handle: b,
                intro: b == probe.intro_handle,
                number: probe.frames_logged,
            },
        )
    } else {
        None
    }
}

/// What the wait for the next frame is answered with, in place of the real answer: that the frame
/// is due, for the startup video and where the settings ask for it.
pub fn hk_bkwait(probe: &Probe, config: Option<&Config>, b: isize) -> (r: Option<i32>)
    ensures
        r == if b == probe.intro_handle && (config matches Some(c) && c.bink_wait0) {
            Some(0i32)
        } else {
            None
        },
{
    if let Some(c) = config {
        if b == probe.intro_handle && c.bink_wait0 {
            return Some(0);
        }
    }
    None
}

/// What the question whether to drop the frame is answered with, in place of the real answer: yes,
/// for the startup video and where the settings ask for it.
pub fn hk_bkshould(probe: &Probe, config: Option<&Config>, b: isize) -> (r: Option<i32>)
    ensures
        r == if b == probe.intro_handle && (config matches Some(c) && c.bink_shouldskip) {
            Some(1i32)
        } else {
            None
        },
{
    if let Some(c) = config {
        if b == probe.intro_handle && c.bink_shouldskip {
            return Some(1);
        }
    }
    None
}

/// Takes note of the end of playback.
pub fn hk_bkclose(probe: &mut Probe, now: i64, b: isize) -> (r: Option<Event>)
    ensures
        *final(probe) == old(probe).after_close(b),
        r == if old(probe).watches(now) {
            Some(
                Event::BinkClose {
                    el: wrap_i64(now - old(probe).start_ms) as i64,
                    handle: b,
                    intro: b == old(probe).intro_handle,
                },
            )
        } else {
            None
        },
{
    let intro: bool = b == probe.intro_handle;
    if intro {
        probe.intro_closed = true;
    }
    if boot_window(now, probe.start_ms) {
        Some(Event::BinkClose { el: difference(now, probe.start_ms), handle: b, intro })
    } else {
        None
    }
}

/// Which file is that of a video, and of the startup video, does not depend on the case of ASCII
/// letters.
pub proof fn law_case_does_not_matter(config: Option<&Config>, a: Seq<char>, b: Seq<char>)
    requires
        lower(a) == lower(b),
    ensures
        is_video(a) == is_video(b),
        is_intro(config, a) == is_intro(config, b),
{
}

/// Something that the probe sees.
pub ghost enum Sight {
    IntroFile,
    Open { now: i64, handle: isize },
    Frame { now: i64 },
    Close { handle: isize },
}

impl Probe {
    /// After one sight.
    pub open spec fn after(self, sight: Sight) -> Probe {
        match sight {
            Sight::IntroFile => self.after_intro_file(),
            Sight::Open { now, handle } => self.after_open(now, handle),
            Sight::Frame { now } => self.after_frame(now),
            Sight::Close { handle } => self.after_close(handle),
        }
    }

    /// After many sights, from the first to the last.
    pub open spec fn after_all(self, sights: Seq<Sight>) -> Probe
        decreases sights.len(),
    {
        if sights.len() == 0 {
            self
        } else {
            self.after_all(sights.drop_last()).after(sights.last())
        }
    }
}

/// What is known stays known: the start, the handle once there is one, that the file was opened and
/// that playback was closed. No more frames are logged than allowed.
pub proof fn law_knowledge_lasts(probe: Probe, sights: Seq<Sight>)
    ensures
        ({
            let later = probe.after_all(sights);
            &&& later.start_ms == probe.start_ms
            &&& probe.intro_handle != 0 ==> later.intro_handle == probe.intro_handle
            &&& probe.intro_open ==> later.intro_open
            &&& probe.intro_closed ==> later.intro_closed
            &&& probe.frames_logged <= later.frames_logged
            &&& probe.frames_logged <= MAX_FRAMES ==> later.frames_logged <= MAX_FRAMES
        }),
    decreases sights.len(),
{
    if sights.len() > 0 {
        law_knowledge_lasts(probe, sights.drop_last());
    }
}

/// No handle is taken for that of the startup video before its file was opened.
pub proof fn law_no_handle_without_file(start_ms: i64, sights: Seq<Sight>)
    requires
        forall|i: int| 0 <= i < sights.len() ==> !(#[trigger] sights[i] is IntroFile),
    ensures
        ({
            let later = Probe::fresh(start_ms).after_all(sights);
            &&& later.intro_handle == 0
            &&& !later.intro_open
            &&& !later.file_pending
        }),
    decreases sights.len(),
{
    if sights.len() > 0 {
        law_no_handle_without_file(start_ms, sights.drop_last());
        assert(!(sights[sights.len() - 1] is IntroFile));
    }
}

/// While no handle is known, the first playback within the boot window after the file was opened
/// is that of the startup video, and no later one is.
pub proof fn law_first_playback_is_tagged(probe: Probe, now: i64, h: isize, sights: Seq<Sight>)
    requires
        probe.intro_handle == 0,
        h != 0,
        probe.watches(now),
    ensures
        probe.after_intro_file().after_open(now, h).after_all(sights).intro_handle == h,
{
    law_knowledge_lasts(probe.after_intro_file().after_open(now, h), sights);
}

/// A file is that of the startup video if the setting stands anywhere in its name, whatever the case
/// of ASCII letters.
pub proof fn law_intro_is_part_of_the_name(
    config: Config,
    a: Seq<char>,
    b: Seq<char>,
    name: Seq<char>,
)
    requires
        config.intro_video@.len() > 0,
        lower(name) == lower(a + config.intro_video@ + b),
    ensures
        is_intro(Some(&config), name),
{
    let n = config.intro_video@;
    law_lower(a + n, ' ', b);
    law_lower(a, ' ', n);
    law_contains(lower(a), lower(n), lower(b));
}

/// No other file is that of the startup video: its name can be split around the setting, and the
/// setting is not empty.
pub proof fn law_intro_splits_the_name(config: Option<&Config>, name: Seq<char>)
    requires
        is_intro(config, name),
    ensures
        config is Some,
        config->0.intro_video@.len() > 0,
        exists|a: Seq<char>, b: Seq<char>|
            lower(name) == #[trigger] (a + lower(config->0.intro_video@) + b),
{
    law_contains_splits(lower(name), lower(config->0.intro_video@));
}

/// A file is that of a video if `.bk2` stands anywhere in its name, whatever the case.
pub proof fn law_video_is_part_of_the_name(a: Seq<char>, b: Seq<char>, name: Seq<char>)
    requires
        lower(name) == a + seq!['.', 'b', 'k', '2'] + b,
    ensures
        is_video(name),
{
    reveal_strlit(".bk2");
    assert(".bk2"@ =~= seq!['.', 'b', 'k', '2']);
    law_contains(a, ".bk2"@, b);
}

/// No other file is that of a video.
pub proof fn law_video_splits_the_name(name: Seq<char>)
    requires
        is_video(name),
    ensures
        exists|a: Seq<char>, b: Seq<char>|
            lower(name) == #[trigger] (a + ".bk2"@ + b),
{
    law_contains_splits(lower(name), ".bk2"@);
}

/// The boot window lasts for two minutes from the start.
pub proof fn law_boot_window(now: int, start: int, elapsed: int)
    requires
        i64::MIN <= elapsed <= i64::MAX,
        (elapsed - (now - start)) % 0x1_0000_0000_0000_0000 == 0,
    ensures
        in_boot_window(now, start) <==> elapsed < 120_000,
{
    lemma_same_wrap(elapsed, now - start);
    law_wrap(elapsed);
}

/// Watching begins at the given time, with nothing seen.
pub proof fn law_fresh(start_ms: i64)
    ensures
        Probe::fresh(start_ms).start_ms == start_ms,
        Probe::fresh(start_ms).frames_logged == 0,
        Probe::fresh(start_ms).intro_handle == 0,
        !Probe::fresh(start_ms).intro_open,
        !Probe::fresh(start_ms).file_pending,
        !Probe::fresh(start_ms).intro_closed,
{
}

/// The file of the startup video is remembered, and nothing else changes.
pub proof fn law_file_is_remembered(p: Probe)
    ensures
        p.after_intro_file().intro_open,
        p.after_intro_file().file_pending,
        p.after_intro_file().start_ms == p.start_ms,
        p.after_intro_file().intro_handle == p.intro_handle,
        p.after_intro_file().intro_closed == p.intro_closed,
        p.after_intro_file().frames_logged == p.frames_logged,
{
}

/// Playback within the boot window takes the mark of the file away, and with the mark its handle
/// becomes that of the startup video, unless there is one. Outside the boot window it changes
/// nothing.
pub proof fn law_open(p: Probe, now: i64, h: isize, elapsed: int)
    requires
        i64::MIN <= elapsed <= i64::MAX,
        (elapsed - (now - p.start_ms)) % 0x1_0000_0000_0000_0000 == 0,
    ensures
        ({
            let n = p.after_open(now, h);
            &&& elapsed >= 120_000 ==> n == p
            &&& elapsed < 120_000 ==> !n.file_pending
            &&& elapsed < 120_000 && p.file_pending && p.intro_handle == 0 ==> n.intro_handle == h
            &&& !p.file_pending || p.intro_handle != 0 ==> n.intro_handle == p.intro_handle
            &&& n.start_ms == p.start_ms
            &&& n.intro_open == p.intro_open
            &&& n.intro_closed == p.intro_closed
            &&& n.frames_logged == p.frames_logged
        }),
{
    law_boot_window(now as int, p.start_ms as int, elapsed);
}

/// The first 16 frames within the boot window are counted, and nothing else changes.
pub proof fn law_frame(p: Probe, now: i64, elapsed: int)
    requires
        i64::MIN <= elapsed <= i64::MAX,
        (elapsed - (now - p.start_ms)) % 0x1_0000_0000_0000_0000 == 0,
    ensures
        ({
            let n = p.after_frame(now);
            &&& elapsed < 120_000 && p.frames_logged < 16 ==> n.frames_logged == p.frames_logged + 1
            &&& elapsed >= 120_000 || p.frames_logged >= 16 ==> n == p
            &&& n.start_ms == p.start_ms
            &&& n.intro_open == p.intro_open
            &&& n.file_pending == p.file_pending
            &&& n.intro_handle == p.intro_handle
            &&& n.intro_closed == p.intro_closed
        }),
{
    law_boot_window(now as int, p.start_ms as int, elapsed);
}

/// The end of playback counts for the handle of the startup video only, and changes nothing but
/// that playback was closed.
pub proof fn law_close(p: Probe, b: isize)
    ensures
        ({
            let n = p.after_close(b);
            &&& b != p.intro_handle ==> n == p
            &&& b == p.intro_handle ==> n.intro_closed
            &&& n.start_ms == p.start_ms
            &&& n.intro_open == p.intro_open
            &&& n.file_pending == p.file_pending
            &&& n.intro_handle == p.intro_handle
            &&& n.frames_logged == p.frames_logged
        }),
{
}

/// Playback of the startup video is taken for closed only where a handle was closed that was its
/// own at that time.
pub proof fn law_closed_by_its_own_handle(start_ms: i64, sights: Seq<Sight>)
    requires
        Probe::fresh(start_ms).after_all(sights).intro_closed,
    ensures
        exists|i: int|
            0 <= i < sights.len() && #[trigger] sights[i] == (Sight::Close {
                handle: Probe::fresh(start_ms).after_all(sights.take(i)).intro_handle,
            }),
    decreases sights.len(),
{
    let p = Probe::fresh(start_ms);
    if sights.len() > 0 {
        let rest = sights.drop_last();
        let last = sights.len() - 1;
        if p.after_all(rest).intro_closed {
            law_closed_by_its_own_handle(start_ms, rest);
            let i = choose|i: int|
                0 <= i < rest.len() && #[trigger] rest[i] == (Sight::Close {
                    handle: p.after_all(rest.take(i)).intro_handle,
                });
            assert(rest.take(i) =~= sights.take(i));
            assert(sights[i] == rest[i]);
        } else {
            assert(sights.take(last) =~= rest);
            assert(sights[last] == (Sight::Close {
                handle: p.after_all(sights.take(last)).intro_handle,
            }));
        }
    }
}

/// A handle is taken for that of the startup video only where playback was opened with it, the file
/// having been opened before and no playback since.
pub proof fn law_handle_by_playback(start_ms: i64, sights: Seq<Sight>)
    requires
        Probe::fresh(start_ms).after_all(sights).intro_handle != 0,
    ensures
        exists|i: int|
            #![trigger sights[i]]
            0 <= i < sights.len() && sights[i] is Open && sights[i]->Open_handle == Probe::fresh(
                start_ms,
            ).after_all(sights).intro_handle && Probe::fresh(start_ms).after_all(
                sights.take(i),
            ).file_pending,
    decreases sights.len(),
{
    let p = Probe::fresh(start_ms);
    if sights.len() > 0 {
        let rest = sights.drop_last();
        let last = sights.len() - 1;
        if p.after_all(rest).intro_handle != 0 {
            law_handle_by_playback(start_ms, rest);
            law_knowledge_lasts(p.after_all(rest), seq![sights.last()]);
            let i = choose|i: int|
                #![trigger rest[i]]
                0 <= i < rest.len() && rest[i] is Open && rest[i]->Open_handle == p.after_all(
                    rest,
                ).intro_handle && p.after_all(rest.take(i)).file_pending;
            assert(rest.take(i) =~= sights.take(i));
            assert(sights[i] == rest[i]);
        } else {
            assert(sights.take(last) =~= rest);
            assert(sights[last] is Open);
        }
    }
}

/// The video is taken for open exactly if its file was opened.
pub proof fn law_open_by_its_file(start_ms: i64, sights: Seq<Sight>)
    ensures
        Probe::fresh(start_ms).after_all(sights).intro_open <==> exists|i: int|
            0 <= i < sights.len() && #[trigger] sights[i] is IntroFile,
    decreases sights.len(),
{
    if sights.len() > 0 {
        let rest = sights.drop_last();
        let last = sights.len() - 1;
        law_open_by_its_file(start_ms, rest);
        assert forall|i: int| 0 <= i < rest.len() implies rest[i] == #[trigger] sights[i] by {}
        if exists|i: int| 0 <= i < rest.len() && #[trigger] rest[i] is IntroFile {
            let i = choose|i: int| 0 <= i < rest.len() && #[trigger] rest[i] is IntroFile;
            assert(sights[i] is IntroFile);
        } else if sights[last] is IntroFile {
        } else {
            assert forall|i: int| 0 <= i < sights.len() implies !(#[trigger] sights[i] is IntroFile) by {
                if i < last {
                    assert(rest[i] == sights[i]);
                }
            }
        }
    }
}

/// Playback is watched for two minutes. In that time the first 16 frames are logged, and the handle
/// of the next playback is that of the startup video where its file was opened and there is none.
pub proof fn law_watching(p: Probe, now: i64, elapsed: int)
    requires
        i64::MIN <= elapsed <= i64::MAX,
        (elapsed - (now - p.start_ms)) % 0x1_0000_0000_0000_0000 == 0,
    ensures
        p.watches(now) <==> elapsed < 120_000,
        p.logs_frame(now) <==> elapsed < 120_000 && p.frames_logged < 16,
        p.tags_next() <==> p.file_pending && p.intro_handle == 0,
{
    law_boot_window(now as int, p.start_ms as int, elapsed);
}

} // verus!
