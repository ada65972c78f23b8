//! Which libraries and functions are looked up, and in what order.
//!
//! Every export of the proxied library is forwarded: to another modification that was put in its
//! place, if there is one and it has that export, else to the library of the system. The functions
//! to hook are looked up in one library, or in two that are tried in turn.

use vstd::prelude::*;
use vstd::slice::slice_subrange;
#[allow(unused_imports)]
use vstd::utf8::encode_utf8;

#[allow(unused_imports)]
use crate::wide::{decoded, encoded};
use crate::wide::{push_encoded, text_of};

verus! {

/// Why the system calls the library: it has been loaded into the process.
pub const DLL_PROCESS_ATTACH: u32 = 1;

/// Whether the library has just been loaded, for the given reason of a call.
pub fn attaches(reason: u32) -> (r: bool)
    ensures
        r == (reason == DLL_PROCESS_ATTACH),
{
    reason == DLL_PROCESS_ATTACH
}

/// The name of another modification that the proxied library's exports are forwarded to.
pub fn chain_dll() -> (r: &'static str)
    ensures
        r@ == "version_orig.dll"@,
{
    "version_orig.dll"
}

/// The full path of the system's library, from the system directory: the first `n` units of `buf`.
/// With a full path the loader does not come back to this library.
pub fn system_dll(buf: &[u16], n: usize) -> (r: Vec<u16>)
    requires
        n <= buf.len(),
    ensures
        r@ == buf@.take(n as int) + encoded("\\version.dll"@) + seq![0u16],
{
    let mut r: Vec<u16> = Vec::new();
    for i in 0..n
        invariant
            n <= buf.len(),
            r@ == buf@.take(i as int),
    {
        r.push(buf[i]);
        assert(buf@.take(i + 1) == buf@.take(i as int).push(buf@[i as int]));
    }
    push_encoded(&mut r, "\\version.dll");
    r.push(0);
    assert(r@ == buf@.take(n as int) + encoded("\\version.dll"@) + seq![0u16]);
    r
}

/// The path of the program, as the system wrote it: the first `n` units of `buf`.
pub fn exe_path(buf: &[u16], n: usize) -> (r: String)
    requires
        n <= buf.len(),
    ensures
        r@ == decoded(buf@.take(n as int)),
{
    let units = slice_subrange(buf, 0, n);
    assert(units@ == buf@.take(n as int));
    text_of(units)
}

/// The name of a function as the system takes it: its bytes, ended by a zero.
pub fn symbol(name: &str) -> (r: Vec<u8>)
    ensures
        r@ == encode_utf8(name@).push(0),
{
    let bytes = name.as_bytes();
    let mut r: Vec<u8> = Vec::new();
    for i in 0..bytes.len()
        invariant
            r@ == bytes@.take(i as int),
    {
        r.push(bytes[i]);
        assert(bytes@.take(i + 1) == bytes@.take(i as int).push(bytes@[i as int]));
    }
    assert(bytes@.take(bytes@.len() as int) == bytes@);
    r.push(0);
    r
}

/// What is to be done next about one export.
#[derive(Clone, Copy, Debug, PartialEq, Eq, Structural)]
pub enum Lookup {
    /// Look it up in the other modification.
    Chain,
    /// Look it up in the system's library.
    System,
    /// Forward it to this address; zero where there is none.
    Found(usize),
}

/// What is left where the other modification has no such export.
pub open spec fn system_lookup(sys: isize) -> Lookup {
    if sys != 0 {
        Lookup::System
    } else {
        Lookup::Found(0)
    }
}

/// Starts on an export. A handle of zero stands for a library that is not there.
pub fn lookup_first(chain: isize, sys: isize) -> (r: Lookup)
    ensures
        r == if chain != 0 {
            Lookup::Chain
        } else {
            system_lookup(sys)
        },
{
    if chain != 0 {
        Lookup::Chain
    } else if sys != 0 {
        Lookup::System
    } else {
        Lookup::Found(0)
    }
}

/// Goes on with an export, given the address that was looked up last; zero where there is none.
pub fn lookup_next(lookup: Lookup, sys: isize, address: usize) -> (r: Lookup)
    ensures
        r == lookup_after(lookup, sys, address),
{
    match lookup {
        Lookup::Chain => if address != 0 {
            Lookup::Found(address)
        } else if sys != 0 {
            Lookup::System
        } else {
            Lookup::Found(0)
        },
        Lookup::System => Lookup::Found(address),
        Lookup::Found(found) => Lookup::Found(found),
    }
}

/// The lookup after an answer.
pub open spec fn lookup_after(lookup: Lookup, sys: isize, address: usize) -> Lookup {
    match lookup {
        Lookup::Chain => if address != 0 {
            Lookup::Found(address)
        } else {
            system_lookup(sys)
        },
        Lookup::System => Lookup::Found(address),
        Lookup::Found(found) => Lookup::Found(found),
    }
}

/// The lookup after every answer that it asks for.
pub open spec fn looked_up(chain: isize, sys: isize, in_chain: usize, in_system: usize) -> Lookup {
    let first = if chain != 0 {
        lookup_after(Lookup::Chain, sys, in_chain)
    } else {
        system_lookup(sys)
    };
    if first == Lookup::System {
        lookup_after(first, sys, in_system)
    } else {
        first
    }
}

/// An export goes to the other modification where that one has it, else to the system's library.
pub proof fn law_chain_goes_first(chain: isize, sys: isize, in_chain: usize, in_system: usize)
    ensures
        looked_up(chain, sys, in_chain, in_system) == Lookup::Found(
            if chain != 0 && in_chain != 0 {
                in_chain
            } else if sys != 0 {
                in_system
            } else {
                0
            },
        ),
{
}

/// What is to be done next to find a function in a library.
#[derive(Clone, Copy, Debug, PartialEq, Eq, Structural)]
pub enum Resolve {
    /// Ask for the handle of the library, if it is loaded.
    Handle,
    /// Load the library.
    Load,
    /// Ask the library with this handle for the function.
    Function(isize),
    /// The address of the function, if it was found.
    Done(Option<usize>),
}

/// The search after a handle came back: zero where there is no such library.
pub open spec fn resolve_after_handle(step: Resolve, handle: isize) -> Resolve {
    match step {
        Resolve::Handle => if handle == 0 {
            Resolve::Load
        } else {
            Resolve::Function(handle)
        },
        Resolve::Load => if handle == 0 {
            Resolve::Done(None)
        } else {
            Resolve::Function(handle)
        },
        _ => step,
    }
}

/// The search after an address came back: zero where there is no such function.
pub open spec fn resolve_after_address(step: Resolve, address: usize) -> Resolve {
    match step {
        Resolve::Function(_) => Resolve::Done(
            if address == 0 {
                None
            } else {
                Some(address)
            },
        ),
        _ => step,
    }
}

/// Goes on with the search for a function, given a handle.
pub fn resolve_handle(step: Resolve, handle: isize) -> (r: Resolve)
    ensures
        r == resolve_after_handle(step, handle),
{
    match step {
        Resolve::Handle => if handle == 0 {
            Resolve::Load
        } else {
            Resolve::Function(handle)
        },
        Resolve::Load => if handle == 0 {
            Resolve::Done(None)
        } else {
            Resolve::Function(handle)
        },
        _ => step,
    }
}

/// Goes on with the search for a function, given an address.
pub fn resolve_address(step: Resolve, address: usize) -> (r: Resolve)
    ensures
        r == resolve_after_address(step, address),
{
    match step {
        Resolve::Function(_) => if address == 0 {
            Resolve::Done(None)
        } else {
            Resolve::Done(Some(address))
        },
        _ => step,
    }
}

/// A function is found where the library is loaded or can be loaded, and has it.
pub proof fn law_resolve(loaded: isize, load: isize, address: usize)
    ensures
        ({
            let a = resolve_after_handle(Resolve::Handle, loaded);
            let b = if a == Resolve::Load {
                resolve_after_handle(a, load)
            } else {
                a
            };
            let end = resolve_after_address(b, address);
            end == Resolve::Done(
                if (loaded != 0 || load != 0) && address != 0 {
                    Some(address)
                } else {
                    None
                },
            )
        }),
{
}

/// A function that is hooked.
#[derive(Clone, Copy, Debug, PartialEq, Eq, Structural)]
pub enum Target {
    Qpc,
    TickCount64,
    TickCount,
    TimeGetTime,
    CreateFileW,
    CreateFileA,
    BinkOpen,
    BinkDoFrame,
    BinkWait,
    BinkShouldSkip,
    BinkClose,
}

/// The functions to hook, in the order in which the hooks are made and enabled.
pub open spec fn hooked() -> Seq<Target> {
    seq![
        Target::Qpc,
        Target::TickCount64,
        Target::TickCount,
        Target::TimeGetTime,
        Target::CreateFileW,
        Target::CreateFileA,
        Target::BinkOpen,
        Target::BinkDoFrame,
        Target::BinkWait,
        Target::BinkShouldSkip,
        Target::BinkClose,
    ]
}

/// The functions to hook, in the order in which the hooks are made and enabled.
pub fn targets() -> (r: Vec<Target>)
    ensures
        r@ == hooked(),
{
    vec![
        Target::Qpc,
        Target::TickCount64,
        Target::TickCount,
        Target::TimeGetTime,
        Target::CreateFileW,
        Target::CreateFileA,
        Target::BinkOpen,
        Target::BinkDoFrame,
        Target::BinkWait,
        Target::BinkShouldSkip,
        Target::BinkClose,
    ]
}

/// Every function is hooked, and none twice.
pub proof fn law_each_target_is_hooked_once(target: Target, i: int, j: int)
    requires
        0 <= i < hooked().len(),
        0 <= j < hooked().len(),
    ensures
        hooked().contains(target),
        hooked()[i] == hooked()[j] ==> i == j,
{
    let h = hooked();
    assert(h[0] == Target::Qpc && h[1] == Target::TickCount64 && h[2] == Target::TickCount && h[3]
        == Target::TimeGetTime && h[4] == Target::CreateFileW && h[5] == Target::CreateFileA && h[6]
        == Target::BinkOpen && h[7] == Target::BinkDoFrame && h[8] == Target::BinkWait && h[9]
        == Target::BinkShouldSkip && h[10] == Target::BinkClose);
}

impl Target {
    /// The name of the function.
    pub open spec fn name(self) -> Seq<char> {
        match self {
            Target::Qpc => "QueryPerformanceCounter"@,
            Target::TickCount64 => "GetTickCount64"@,
            Target::TickCount => "GetTickCount"@,
            Target::TimeGetTime => "timeGetTime"@,
            Target::CreateFileW => "CreateFileW"@,
            Target::CreateFileA => "CreateFileA"@,
            Target::BinkOpen => "BinkOpen"@,
            Target::BinkDoFrame => "BinkDoFrame"@,
            Target::BinkWait => "BinkWait"@,
            Target::BinkShouldSkip => "BinkShouldSkip"@,
            Target::BinkClose => "BinkClose"@,
        }
    }

    /// The libraries that are searched, in this order.
    pub open spec fn libraries(self) -> Seq<Seq<char>> {
        match self {
            Target::TimeGetTime => seq!["winmm.dll"@],
            Target::BinkOpen
            | Target::BinkDoFrame
            | Target::BinkWait
            | Target::BinkShouldSkip
            | Target::BinkClose => seq!["bink2w64.dll"@],
            _ => seq!["kernelbase.dll"@, "kernel32.dll"@],
        }
    }

    /// The name of the function.
    pub fn function(self) -> (r: &'static str)
        ensures
            r@ == self.name(),
    {
        match self {
            Target::Qpc => "QueryPerformanceCounter",
            Target::TickCount64 => "GetTickCount64",
            Target::TickCount => "GetTickCount",
            Target::TimeGetTime => "timeGetTime",
            Target::CreateFileW => "CreateFileW",
            Target::CreateFileA => "CreateFileA",
            Target::BinkOpen => "BinkOpen",
            Target::BinkDoFrame => "BinkDoFrame",
            Target::BinkWait => "BinkWait",
            Target::BinkShouldSkip => "BinkShouldSkip",
            Target::BinkClose => "BinkClose",
        }
    }

    /// The library to search after `tried` others, if there is one left.
    pub fn library(self, tried: usize) -> (r: Option<&'static str>)
        ensures
            match r {
                Some(name) => tried < self.libraries().len() && name@ == self.libraries()[tried as int],
                None => tried >= self.libraries().len(),
            },
    {
        match self {
            Target::TimeGetTime => if tried == 0 {
                Some("winmm.dll")
            } else {
                None
            },
            Target::BinkOpen
            | Target::BinkDoFrame
            | Target::BinkWait
            | Target::BinkShouldSkip
            | Target::BinkClose => if tried == 0 {
                Some("bink2w64.dll")
            } else {
                None
            },
            _ => if tried == 0 {
                Some("kernelbase.dll")
            } else if tried == 1 {
                Some("kernel32.dll")
            } else {
                None
            },
        }
    }
}

/// Only the reason with the number one says that the library has just been loaded.
pub proof fn law_attach(reason: u32)
    ensures
        reason == DLL_PROCESS_ATTACH <==> reason == 1,
{
}

/// An answer of the other modification that is no address leads to the system's library, and to no
/// address where that one is not there. Any answer of the system's library is the end, and the end
/// does not change.
pub proof fn law_lookup_steps(sys: isize, address: usize, other: usize)
    ensures
        address != 0 ==> lookup_after(Lookup::Chain, sys, address) == Lookup::Found(address),
        sys != 0 ==> lookup_after(Lookup::Chain, sys, 0) == Lookup::System,
        lookup_after(Lookup::Chain, 0, 0) == Lookup::Found(0),
        lookup_after(Lookup::System, sys, address) == Lookup::Found(address),
        lookup_after(Lookup::Found(other), sys, address) == Lookup::Found(other),
        system_lookup(sys) == lookup_after(Lookup::Chain, sys, 0),
{
}

/// The library that is asked is the loaded one, else the one that is loaded for it. A search that is
/// over, or that waits for another answer, does not change.
pub proof fn law_resolve_asks_the_library(loaded: isize, load: isize, address: usize)
    ensures
        loaded != 0 ==> resolve_after_handle(Resolve::Handle, loaded) == Resolve::Function(loaded),
        resolve_after_handle(Resolve::Handle, 0) == Resolve::Load,
        load != 0 ==> resolve_after_handle(Resolve::Load, load) == Resolve::Function(load),
        resolve_after_handle(Resolve::Load, 0) == Resolve::Done(None),
        forall|f: Option<usize>| #[trigger]
            resolve_after_handle(Resolve::Done(f), load) == Resolve::Done(f),
        forall|f: Option<usize>| #[trigger]
            resolve_after_address(Resolve::Done(f), address) == Resolve::Done(f),
        resolve_after_handle(Resolve::Function(loaded), load) == Resolve::Function(loaded),
        resolve_after_address(Resolve::Handle, address) == Resolve::Handle,
        resolve_after_address(Resolve::Load, address) == Resolve::Load,
{
}

/// The hooks are made in this order of the functions.
pub proof fn law_order_of_hooks()
    ensures
        hooked().len() == 11,
        hooked()[0].name() == "QueryPerformanceCounter"@,
        hooked()[1].name() == "GetTickCount64"@,
        hooked()[2].name() == "GetTickCount"@,
        hooked()[3].name() == "timeGetTime"@,
        hooked()[4].name() == "CreateFileW"@,
        hooked()[5].name() == "CreateFileA"@,
        hooked()[6].name() == "BinkOpen"@,
        hooked()[7].name() == "BinkDoFrame"@,
        hooked()[8].name() == "BinkWait"@,
        hooked()[9].name() == "BinkShouldSkip"@,
        hooked()[10].name() == "BinkClose"@,
{
}

/// A function of playback is looked for in the library of playback alone, the multimedia timer in the
/// multimedia library alone, and every other function in the two libraries of the kernel, in turn.
pub proof fn law_libraries(target: Target)
    ensures
        ({
            let name = target.name();
            let found_in = target.libraries();
            &&& "Bink"@.is_prefix_of(name) <==> found_in.contains("bink2w64.dll"@)
            &&& name == "timeGetTime"@ <==> found_in.contains("winmm.dll"@)
            &&& "Bink"@.is_prefix_of(name) || name == "timeGetTime"@ ==> found_in.len() == 1
            &&& !"Bink"@.is_prefix_of(name) && name != "timeGetTime"@ ==> {
                &&& found_in.len() == 2
                &&& found_in[0] == "kernelbase.dll"@
                &&& found_in[1] == "kernel32.dll"@
            }
        }),
{
    lemma_names();
    lemma_library_names();
    let found_in = target.libraries();
    if found_in.len() == 1 {
        assert(found_in.contains(found_in[0]));
    }
}

proof fn lemma_library_names()
    ensures
        "bink2w64.dll"@ != "winmm.dll"@,
        "bink2w64.dll"@ != "kernelbase.dll"@,
        "bink2w64.dll"@ != "kernel32.dll"@,
        "winmm.dll"@ != "kernelbase.dll"@,
        "winmm.dll"@ != "kernel32.dll"@,
{
    reveal_strlit("bink2w64.dll");
    reveal_strlit("winmm.dll");
    reveal_strlit("kernelbase.dll");
    reveal_strlit("kernel32.dll");
    assert("bink2w64.dll"@[0] == 'b' && "winmm.dll"@[0] == 'w' && "kernelbase.dll"@[0] == 'k'
        && "kernel32.dll"@[0] == 'k');
}

/// The names of the functions of playback begin alike, and no others do.
proof fn lemma_names()
    ensures
        !"Bink"@.is_prefix_of("QueryPerformanceCounter"@),
        !"Bink"@.is_prefix_of("GetTickCount64"@),
        !"Bink"@.is_prefix_of("GetTickCount"@),
        !"Bink"@.is_prefix_of("timeGetTime"@),
        !"Bink"@.is_prefix_of("CreateFileW"@),
        !"Bink"@.is_prefix_of("CreateFileA"@),
        "Bink"@.is_prefix_of("BinkOpen"@),
        "Bink"@.is_prefix_of("BinkDoFrame"@),
        "Bink"@.is_prefix_of("BinkWait"@),
        "Bink"@.is_prefix_of("BinkShouldSkip"@),
        "Bink"@.is_prefix_of("BinkClose"@),
        "QueryPerformanceCounter"@ != "timeGetTime"@,
        "GetTickCount64"@ != "timeGetTime"@,
        "GetTickCount"@ != "timeGetTime"@,
        "CreateFileW"@ != "timeGetTime"@,
        "CreateFileA"@ != "timeGetTime"@,
{
    reveal_strlit("Bink");
    reveal_strlit("QueryPerformanceCounter");
    reveal_strlit("GetTickCount64");
    reveal_strlit("GetTickCount");
    reveal_strlit("timeGetTime");
    reveal_strlit("CreateFileW");
    reveal_strlit("CreateFileA");
    reveal_strlit("BinkOpen");
    reveal_strlit("BinkDoFrame");
    reveal_strlit("BinkWait");
    reveal_strlit("BinkShouldSkip");
    reveal_strlit("BinkClose");
    let bink = "Bink"@;
    assert(bink.len() == 4 && bink[0] == 'B');
    assert("QueryPerformanceCounter"@[0] == 'Q');
    assert("GetTickCount64"@[0] == 'G');
    assert("GetTickCount"@[0] == 'G');
    assert("timeGetTime"@[0] == 't');
    assert("CreateFileW"@[0] == 'C');
    assert("CreateFileA"@[0] == 'C');
    assert("BinkOpen"@.subrange(0, 4) =~= bink);
    assert("BinkDoFrame"@.subrange(0, 4) =~= bink);
    assert("BinkWait"@.subrange(0, 4) =~= bink);
    assert("BinkShouldSkip"@.subrange(0, 4) =~= bink);
    assert("BinkClose"@.subrange(0, 4) =~= bink);
}

} // verus!
