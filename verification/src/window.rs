//! Finding the game's window and pressing a key in it.
//!
//! The game ignores injected input but honours window messages, so a key press is a pair of
//! messages that are posted to its window.

use vstd::prelude::*;

verus! {

/// The message for a key that goes down.
pub const WM_KEYDOWN: u32 = 0x0100;

/// The message for a key that comes up.
pub const WM_KEYUP: u32 = 0x0101;

/// The Enter key.
pub const VK_RETURN: u16 = 0x0d;

/// The key that switches the skip off and on.
pub const VK_F8: i32 = 0x77;

/// The bits that go along with a key that goes down: it is pressed once.
pub const DOWN_BITS: u32 = 0x0000_0001;

/// The bits that go along with a key that comes up: it was down, and is released.
pub const UP_BITS: u32 = 0xc000_0001;

/// A search for the window of a process.
#[derive(Clone, Copy, Debug, PartialEq, Eq, Structural)]
pub struct WindowSearch {
    /// The process whose window is wanted.
    pub process: u32,
    /// The window; zero until it is found.
    pub found: isize,
}

/// A window that the system enumerates.
#[derive(Clone, Copy, Debug, PartialEq, Eq, Structural)]
pub struct Window {
    pub handle: isize,
    pub process: u32,
    /// Zero where it is not visible.
    pub visible: i32,
}

impl WindowSearch {
    /// Starts a search.
    pub fn new(process: u32) -> (s: WindowSearch)
        ensures
            s == (WindowSearch { process, found: 0 }),
    {
        WindowSearch { process, found: 0 }
    }

    /// The window is the wanted one: of the process, and visible.
    pub open spec fn wants(self, w: Window) -> bool {
        w.process == self.process && w.visible != 0
    }

    /// The first wanted window of a list; zero where there is none.
    pub open spec fn first_wanted(self, windows: Seq<Window>) -> isize
        decreases windows.len(),
    {
        if windows.len() == 0 {
            0
        } else if self.wants(windows.first()) {
            windows.first().handle
        } else {
            self.first_wanted(windows.drop_first())
        }
    }

    /// Looks at one window. Tells whether the search goes on.
    pub fn visit(&mut self, w: Window) -> (more: bool)
        ensures
            more == !old(self).wants(w),
            *final(self) == if old(self).wants(w) {
                WindowSearch { process: old(self).process, found: w.handle }
            } else {
                *old(self)
            },
    {
        if w.process == self.process && w.visible != 0 {
            self.found = w.handle;
            false
        } else {
            true
        }
    }
}

/// The window of a process: the first visible one, in the order of the list.
pub fn game_window(process: u32, windows: &[Window]) -> (r: isize)
    ensures
        r == (WindowSearch { process, found: 0 }).first_wanted(windows@),
{
    let mut search = WindowSearch::new(process);
    let mut i: usize = 0;
    let ghost start = search;
    assert(windows@.skip(0) == windows@);
    while i < windows.len()
        invariant
            i <= windows.len(),
            search == start,
            start == (WindowSearch { process, found: 0 }),
            start.first_wanted(windows@) == start.first_wanted(windows@.skip(i as int)),
        decreases windows.len() - i,
    {
        let ghost rest = windows@.skip(i as int);
        assert(rest.first() == windows@[i as int]);
        assert(rest.drop_first() == windows@.skip(i + 1));
        if !search.visit(windows[i]) {
            return search.found;
        }
        i += 1;
    }
    search.found
}

/// A message for a window.
#[derive(Clone, Copy, Debug, PartialEq, Eq, Structural)]
pub struct KeyMessage {
    pub window: isize,
    pub message: u32,
    pub key: u16,
    pub bits: u32,
}

/// The messages that press and release a key in a window; none without a window.
pub fn post_key(window: isize, key: u16) -> (r: Option<(KeyMessage, KeyMessage)>)
    ensures
        r == if window == 0 {
            None
        } else {
            Some(
                (
                    KeyMessage { window, message: WM_KEYDOWN, key, bits: DOWN_BITS },
                    KeyMessage { window, message: WM_KEYUP, key, bits: UP_BITS },
                ),
            )
        },
{
    if window == 0 {
        return None;
    }
    Some(
        (
            KeyMessage { window, message: WM_KEYDOWN, key, bits: DOWN_BITS },
            KeyMessage { window, message: WM_KEYUP, key, bits: UP_BITS },
        ),
    )
}

/// The window is of the process, and visible.
pub open spec fn shows(w: Window, process: u32) -> bool {
    w.visible != 0 && w.process == process
}

/// The window of a process is the first visible one of it: what stands before it in the list is not of
/// the process or not visible, and what stands behind it does not matter.
pub proof fn law_first_window(
    process: u32,
    found: isize,
    before: Seq<Window>,
    w: Window,
    after: Seq<Window>,
)
    requires
        forall|i: int| 0 <= i < before.len() ==> !shows(#[trigger] before[i], process),
        w.visible != 0,
        w.process == process,
    ensures
        (WindowSearch { process, found }).first_wanted(before + seq![w] + after) == w.handle,
    decreases before.len(),
{
    let all = before + seq![w] + after;
    if before.len() == 0 {
        assert(all.first() == w);
    } else {
        assert(all.first() == before[0]);
        assert(!shows(before[0], process));
        let rest = before.drop_first();
        assert(all.drop_first() =~= rest + seq![w] + after);
        assert forall|i: int| 0 <= i < rest.len() implies !shows(#[trigger] rest[i], process) by {
            assert(rest[i] == before[i + 1]);
        }
        law_first_window(process, found, rest, w, after);
    }
}

/// Without a visible window of the process there is none to be found.
pub proof fn law_no_window(process: u32, found: isize, windows: Seq<Window>)
    requires
        forall|i: int| 0 <= i < windows.len() ==> !shows(#[trigger] windows[i], process),
    ensures
        (WindowSearch { process, found }).first_wanted(windows) == 0,
    decreases windows.len(),
{
    if windows.len() > 0 {
        assert(!shows(windows[0], process));
        let rest = windows.drop_first();
        assert forall|i: int| 0 <= i < rest.len() implies !shows(#[trigger] rest[i], process) by {
            assert(rest[i] == windows[i + 1]);
        }
        law_no_window(process, found, rest);
    }
}

/// A window is wanted exactly where it is of the process and visible, whatever was found before.
pub proof fn law_wanted(process: u32, found: isize, w: Window)
    ensures
        (WindowSearch { process, found }).wants(w) <==> w.process == process && w.visible != 0,
{
}

/// The numbers by which the system knows the messages and the keys. The message for a key that comes up
/// follows that for one that goes down, and its bits have the top two set as well.
pub proof fn law_key_numbers()
    ensures
        WM_KEYDOWN == 256,
        WM_KEYUP == WM_KEYDOWN + 1,
        VK_RETURN == 13,
        VK_F8 == 119,
        DOWN_BITS == 1,
        UP_BITS == DOWN_BITS + 0x8000_0000 + 0x4000_0000,
{
}

} // verus!
