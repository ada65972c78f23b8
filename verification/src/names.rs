//! The names of opened files, read unit by unit from the memory of the process.
//!
//! A name ends at the first zero. No more than [`MAX_NAME`] units are read, so that a name
//! without an end does no harm.

use vstd::prelude::*;
#[allow(unused_imports)]
use vstd::utf8::{char_is_scalar, decode_utf8, valid_utf8};

verus! {

/// The most units that are read of one name.
pub const MAX_NAME: usize = 1024;

/// The units before the first zero, at most `max` of them.
pub open spec fn wide_prefix(memory: Seq<u16>, max: nat) -> Seq<u16>
    decreases max,
{
    if max == 0 || memory.len() == 0 || memory.first() == 0 {
        seq![]
    } else {
        seq![memory.first()] + wide_prefix(memory.drop_first(), (max - 1) as nat)
    }
}

/// The bytes before the first zero, at most `max` of them.
pub open spec fn ansi_prefix(memory: Seq<u8>, max: nat) -> Seq<u8>
    decreases max,
{
    if max == 0 || memory.len() == 0 || memory.first() == 0 {
        seq![]
    } else {
        seq![memory.first()] + ansi_prefix(memory.drop_first(), (max - 1) as nat)
    }
}

/// The character for one wide unit. Each unit is read on its own, and one that is half of a pair
/// becomes a question mark.
pub open spec fn unit_char(u: u16) -> char {
    if 0xd800 <= u <= 0xdfff {
        '?'
    } else {
        u as char
    }
}

/// The text for wide units.
pub open spec fn unit_text(units: Seq<u16>) -> Seq<char> {
    units.map_values(|u: u16| unit_char(u))
}

/// A wide name as far as it has been read.
pub struct WideName {
    text: String,
    count: usize,
}

impl View for WideName {
    type V = Seq<char>;

    closed spec fn view(&self) -> Seq<char> {
        self.text@
    }
}

impl WideName {
    /// The count is that of the characters.
    pub closed spec fn wf(self) -> bool {
        self.count == self@.len() <= MAX_NAME
    }

    /// Nothing has been read.
    pub fn new() -> (r: WideName)
        ensures
            r.wf(),
            r@ == Seq::<char>::empty(),
    {
        WideName { text: String::new(), count: 0 }
    }

    /// Whether there is room for another unit.
    pub fn wants_more(&self) -> (r: bool)
        requires
            self.wf(),
        ensures
            r == (self@.len() < MAX_NAME),
    {
        self.count < MAX_NAME
    }

    /// Takes the next unit. Tells whether the name goes on: a zero ends it.
    pub fn take(&mut self, unit: u16) -> (more: bool)
        requires
            old(self).wf(),
            old(self)@.len() < MAX_NAME,
        ensures
            final(self).wf(),
            more == (unit != 0),
            unit != 0 ==> final(self)@ == old(self)@.push(unit_char(unit)),
            unit == 0 ==> final(self)@ == old(self)@,
    {
        if unit == 0 {
            return false;
        }
        let c: char = match char::from_u32(unit as u32) {
            Some(c) => c,
            None => '?',
        };
        assert(c == unit_char(unit));
        self.text.push(c);
        self.count += 1;
        true
    }

    /// The text that has been read.
    pub fn into_text(self) -> (r: String)
        ensures
            r@ == self@,
    {
        self.text
    }
}

/// The wide name at the start of `memory`.
pub fn wide_name(memory: &[u16]) -> (r: String)
    ensures
        r@ == unit_text(wide_prefix(memory@, MAX_NAME as nat)),
{
    let mut name = WideName::new();
    let mut i: usize = 0;
    let ghost whole = wide_prefix(memory@, MAX_NAME as nat);
    assert(memory@.skip(0) == memory@);
    assert(unit_text(whole) == name@ + unit_text(whole));
    while i < memory.len() && name.wants_more()
        invariant
            name.wf(),
            i <= memory.len(),
            i == name@.len(),
            i <= MAX_NAME,
            whole == wide_prefix(memory@, MAX_NAME as nat),
            unit_text(whole) == name@ + unit_text(
                wide_prefix(memory@.skip(i as int), (MAX_NAME - i) as nat),
            ),
        decreases memory.len() - i,
    {
        let ghost rest = memory@.skip(i as int);
        let ghost before = name@;
        assert(rest.first() == memory@[i as int]);
        if !name.take(memory[i]) {
            assert(unit_text(wide_prefix(rest, (MAX_NAME - i) as nat)) == Seq::<char>::empty());
            assert(name@ + Seq::<char>::empty() == name@);
            return name.into_text();
        }
        proof {
            let tail = wide_prefix(rest.drop_first(), (MAX_NAME - i - 1) as nat);
            assert(rest.drop_first() == memory@.skip(i + 1));
            assert(unit_text(seq![rest.first()] + tail) == seq![unit_char(rest.first())]
                + unit_text(tail));
            assert(before + (seq![unit_char(rest.first())] + unit_text(tail)) == name@ + unit_text(
                tail,
            ));
        }
        i += 1;
    }
    assert(unit_text(wide_prefix(memory@.skip(i as int), (MAX_NAME - i) as nat)) == Seq::<
        char,
    >::empty());
    assert(name@ + Seq::<char>::empty() == name@);
    name.into_text()
}

/// What [`String::from_utf8_lossy`] makes of bytes.
pub uninterp spec fn utf8_lossy(bytes: Seq<u8>) -> Seq<char>;

/// [`String::from_utf8_lossy`]: reads bytes as UTF-8 and replaces what is not valid. The result is
/// named, and it is the text itself where the bytes are valid; which replacements are made
/// elsewhere is not stated.
#[verifier::external_body]
fn lossy_text(bytes: &[u8]) -> (r: String)
    ensures
        r@ == utf8_lossy(bytes@),
        valid_utf8(bytes@) ==> r@ == decode_utf8(bytes@),
{
    String::from_utf8_lossy(bytes).into_owned()
}

/// A narrow name as far as it has been read.
pub struct AnsiName {
    bytes: Vec<u8>,
}

impl View for AnsiName {
    type V = Seq<u8>;

    closed spec fn view(&self) -> Seq<u8> {
        self.bytes@
    }
}

impl AnsiName {
    /// Nothing has been read.
    pub fn new() -> (r: AnsiName)
        ensures
            r@ == Seq::<u8>::empty(),
    {
        AnsiName { bytes: Vec::new() }
    }

    /// Whether there is room for another byte.
    pub fn wants_more(&self) -> (r: bool)
        ensures
            r == (self@.len() < MAX_NAME),
    {
        self.bytes.len() < MAX_NAME
    }

    /// Takes the next byte. Tells whether the name goes on: a zero ends it.
    pub fn take(&mut self, byte: u8) -> (more: bool)
        ensures
            more == (byte != 0),
            byte != 0 ==> final(self)@ == old(self)@.push(byte),
            byte == 0 ==> final(self)@ == old(self)@,
    {
        if byte == 0 {
            return false;
        }
        self.bytes.push(byte);
        true
    }

    /// The text that the bytes stand for.
    pub fn into_text(self) -> (r: String)
        ensures
            r@ == utf8_lossy(self@),
            valid_utf8(self@) ==> r@ == decode_utf8(self@),
    {
        lossy_text(self.bytes.as_slice())
    }
}

/// The narrow name at the start of `memory`.
pub fn ansi_name(memory: &[u8]) -> (r: String)
    ensures
        r@ == utf8_lossy(ansi_prefix(memory@, MAX_NAME as nat)),
        valid_utf8(ansi_prefix(memory@, MAX_NAME as nat)) ==> r@ == decode_utf8(
            ansi_prefix(memory@, MAX_NAME as nat),
        ),
{
    let mut name = AnsiName::new();
    let mut i: usize = 0;
    let ghost whole = ansi_prefix(memory@, MAX_NAME as nat);
    assert(memory@.skip(0) == memory@);
    assert(whole == name@ + whole);
    while i < memory.len() && name.wants_more()
        invariant
            i <= memory.len(),
            i == name@.len(),
            i <= MAX_NAME,
            whole == ansi_prefix(memory@, MAX_NAME as nat),
            whole == name@ + ansi_prefix(memory@.skip(i as int), (MAX_NAME - i) as nat),
        decreases memory.len() - i,
    {
        let ghost rest = memory@.skip(i as int);
        let ghost before = name@;
        assert(rest.first() == memory@[i as int]);
        if !name.take(memory[i]) {
            assert(name@ + Seq::<u8>::empty() == name@);
            return name.into_text();
        }
        proof {
            let tail = ansi_prefix(rest.drop_first(), (MAX_NAME - i - 1) as nat);
            assert(rest.drop_first() == memory@.skip(i + 1));
            assert(before + (seq![rest.first()] + tail) == name@ + tail);
        }
        i += 1;
    }
    assert(ansi_prefix(memory@.skip(i as int), (MAX_NAME - i) as nat) == Seq::<u8>::empty());
    assert(name@ + Seq::<u8>::empty() == name@);
    name.into_text()
}

/// The wide name is the longest start of the memory that holds no zero and no more than `max` units.
pub proof fn law_wide_prefix(memory: Seq<u16>, max: nat)
    ensures
        ({
            let p = wide_prefix(memory, max);
            &&& p.len() <= max
            &&& p.len() <= memory.len()
            &&& p == memory.take(p.len() as int)
            &&& forall|i: int| 0 <= i < p.len() ==> #[trigger] p[i] != 0
            &&& p.len() < max && p.len() < memory.len() ==> memory[p.len() as int] == 0
        }),
    decreases max,
{
    let p = wide_prefix(memory, max);
    if max == 0 || memory.len() == 0 || memory.first() == 0 {
        assert(p =~= memory.take(0));
    } else {
        let rest = memory.drop_first();
        let q = wide_prefix(rest, (max - 1) as nat);
        law_wide_prefix(rest, (max - 1) as nat);
        assert(p =~= memory.take(p.len() as int)) by {
            assert forall|i: int| 0 <= i < p.len() implies p[i] == memory.take(p.len() as int)[i] by {
                if i > 0 {
                    assert(p[i] == q[i - 1]);
                    assert(q[i - 1] == rest.take(q.len() as int)[i - 1]);
                }
            }
        }
        assert forall|i: int| 0 <= i < p.len() implies #[trigger] p[i] != 0 by {
            if i > 0 {
                assert(p[i] == q[i - 1]);
            }
        }
    }
}

/// The narrow name is the longest start of the memory that holds no zero and no more than `max`
/// bytes.
pub proof fn law_ansi_prefix(memory: Seq<u8>, max: nat)
    ensures
        ({
            let p = ansi_prefix(memory, max);
            &&& p.len() <= max
            &&& p.len() <= memory.len()
            &&& p == memory.take(p.len() as int)
            &&& forall|i: int| 0 <= i < p.len() ==> #[trigger] p[i] != 0
            &&& p.len() < max && p.len() < memory.len() ==> memory[p.len() as int] == 0
        }),
    decreases max,
{
    let p = ansi_prefix(memory, max);
    if max == 0 || memory.len() == 0 || memory.first() == 0 {
        assert(p =~= memory.take(0));
    } else {
        let rest = memory.drop_first();
        let q = ansi_prefix(rest, (max - 1) as nat);
        law_ansi_prefix(rest, (max - 1) as nat);
        assert(p =~= memory.take(p.len() as int)) by {
            assert forall|i: int| 0 <= i < p.len() implies p[i] == memory.take(p.len() as int)[i] by {
                if i > 0 {
                    assert(p[i] == q[i - 1]);
                    assert(q[i - 1] == rest.take(q.len() as int)[i - 1]);
                }
            }
        }
        assert forall|i: int| 0 <= i < p.len() implies #[trigger] p[i] != 0 by {
            if i > 0 {
                assert(p[i] == q[i - 1]);
            }
        }
    }
}

/// Each unit of a wide name becomes one character: the one with its code, or a question mark for
/// half of a pair. Of no name more than 1024 units are read.
pub proof fn law_unit_text(units: Seq<u16>, i: int, c: char)
    requires
        0 <= i < units.len(),
    ensures
        unit_text(units).len() == units.len(),
        units[i] == c as u32 ==> unit_text(units)[i] == c,
        0xd800 <= units[i] < 0xe000 ==> unit_text(units)[i] == '?',
        MAX_NAME == 1024,
{
    char_is_scalar(c);
    if units[i] == c as u32 {
        assert(units[i] as char == c);
    }
}

} // verus!
