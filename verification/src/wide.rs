//! UTF-16 text, as the system's wide-character functions take and give it.

use vstd::prelude::*;
#[allow(unused_imports)]
use vstd::utf8::{char_is_scalar, char_u32_cast};

verus! {

broadcast use {char_is_scalar, char_u32_cast};

/// [`char::from_u32`]: the character with the given code. There is one for every code up to
/// 0x10ffff but the surrogates, and for no other.
pub assume_specification[ char::from_u32 ](i: u32) -> (r: Option<char>)
    ensures
        r is Some <==> i < 0xd800 || 0xe000 <= i <= 0x10ffff,
        r matches Some(c) ==> c == i as char,
;

/// The units of one character.
pub open spec fn encoded_char(c: char) -> Seq<u16> {
    let u = c as u32;
    if u < 0x10000 {
        seq![u as u16]
    } else {
        seq![
            (0xd800 + (u - 0x10000) / 0x400) as u16,
            (0xdc00 + (u - 0x10000) % 0x400) as u16,
        ]
    }
}

/// Text in UTF-16.
pub open spec fn encoded(s: Seq<char>) -> Seq<u16>
    decreases s.len(),
{
    if s.len() == 0 {
        seq![]
    } else {
        encoded_char(s.first()) + encoded(s.drop_first())
    }
}

/// Is the first unit of a pair.
pub open spec fn is_high(u: u16) -> bool {
    0xd800 <= u <= 0xdbff
}

/// Is the second unit of a pair.
pub open spec fn is_low(u: u16) -> bool {
    0xdc00 <= u <= 0xdfff
}

/// The character that a pair stands for.
pub open spec fn paired(high: u16, low: u16) -> char {
    (0x10000 + (high - 0xd800) * 0x400 + (low - 0xdc00)) as char
}

/// UTF-16 read as text, every unit of an incomplete pair being replaced by U+FFFD.
pub open spec fn decoded(units: Seq<u16>) -> Seq<char>
    decreases units.len(),
{
    if units.len() == 0 {
        seq![]
    } else if is_high(units[0]) && units.len() > 1 && is_low(units[1]) {
        seq![paired(units[0], units[1])] + decoded(units.skip(2))
    } else if is_high(units[0]) || is_low(units[0]) {
        seq!['\u{fffd}'] + decoded(units.skip(1))
    } else {
        seq![units[0] as char] + decoded(units.skip(1))
    }
}

/// Appends text in UTF-16.
pub fn push_encoded(out: &mut Vec<u16>, s: &str)
    ensures
        final(out)@ == old(out)@ + encoded(s@),
{
    let ghost before = out@;
    assert(s@.skip(0) == s@);
    assert(before + encoded(s@) == out@ + encoded(s@.skip(0)));
    for c in it: s.chars()
        invariant
            it.seq() == s@,
            before + encoded(s@) == out@ + encoded(s@.skip(it.index())),
    {
        let ghost rest = s@.skip(it.index());
        assert(rest.first() == c);
        assert(rest.drop_first() == s@.skip(it.index() + 1));
        let ghost sofar = out@;
        let u: u32 = c as u32;
        if u < 0x10000 {
            out.push(u as u16);
        } else {
            out.push((0xd800 + (u - 0x10000) / 0x400) as u16);
            out.push((0xdc00 + (u - 0x10000) % 0x400) as u16);
        }
        assert(out@ == sofar + encoded_char(c));
        assert(sofar + (encoded_char(c) + encoded(rest.drop_first())) == (sofar + encoded_char(c))
            + encoded(rest.drop_first()));
    }
    assert(s@.skip(s@.len() as int) == Seq::<char>::empty());
    assert(out@ + Seq::<u16>::empty() == out@);
}

/// A string as the system's wide-character functions take it: UTF-16, ended by a zero.
pub fn wide(s: &str) -> (r: Vec<u16>)
    ensures
        r@ == encoded(s@).push(0),
{
    let mut r: Vec<u16> = Vec::new();
    push_encoded(&mut r, s);
    assert(Seq::<u16>::empty() + encoded(s@) == encoded(s@));
    r.push(0);
    r
}

/// Reads UTF-16 as text, replacing what is not paired.
pub fn text_of(units: &[u16]) -> (r: String)
    ensures
        r@ == decoded(units@),
{
    let mut r: String = String::new();
    let mut i: usize = 0;
    assert(units@.skip(0) == units@);
    assert(r@ + decoded(units@) == decoded(units@));
    while i < units.len()
        invariant
            i <= units.len(),
            decoded(units@) == r@ + decoded(units@.skip(i as int)),
        decreases units.len() - i,
    {
        let ghost rest = units@.skip(i as int);
        let ghost sofar = r@;
        let u: u16 = units[i];
        assert(rest[0] == u);
        let high: bool = 0xd800 <= u && u <= 0xdbff;
        let low: bool = 0xdc00 <= u && u <= 0xdfff;
        if high && i + 1 < units.len() && 0xdc00 <= units[i + 1] && units[i + 1] <= 0xdfff {
            assert(rest[1] == units@[i + 1]);
            let code: u32 = 0x10000 + (u as u32 - 0xd800) * 0x400 + (units[i + 1] as u32 - 0xdc00);
            let c: char = char::from_u32(code).unwrap();
            assert(code == 0x10000 + (rest[0] - 0xd800) * 0x400 + (rest[1] - 0xdc00));
            assert(c == paired(rest[0], rest[1]));
            r.push(c);
            assert(rest.skip(2) == units@.skip(i + 2));
            assert(sofar + (seq![c] + decoded(rest.skip(2))) == sofar.push(c) + decoded(
                rest.skip(2),
            ));
            i += 2;
        } else {
            let c: char = if high || low {
                '\u{fffd}'
            } else {
                char::from_u32(u as u32).unwrap()
            };
            r.push(c);
            assert(rest.skip(1) == units@.skip(i + 1));
            assert(sofar + (seq![c] + decoded(rest.skip(1))) == sofar.push(c) + decoded(
                rest.skip(1),
            ));
            i += 1;
        }
    }
    assert(units@.skip(units@.len() as int) == Seq::<u16>::empty());
    assert(r@ + Seq::<char>::empty() == r@);
    r
}

/// Encoding loses nothing: reading back what [`wide`] writes, up to its final zero, gives the text.
pub proof fn law_decoded_encoded(s: Seq<char>)
    ensures
        decoded(encoded(s)) == s,
    decreases s.len(),
{
    if s.len() > 0 {
        law_decoded_encoded(s.drop_first());
        lemma_decodes_first(s.first(), encoded(s.drop_first()));
        assert(seq![s.first()] + s.drop_first() == s);
    } else {
        assert(s == Seq::<char>::empty());
    }
}

proof fn lemma_decodes_first(c: char, rest: Seq<u16>)
    ensures
        decoded(encoded_char(c) + rest) == seq![c] + decoded(rest),
{
    let all = encoded_char(c) + rest;
    let u = c as u32;
    if u < 0x10000 {
        assert(all[0] == u as u16);
        assert(all[0] as char == c);
        assert(all.skip(1) == rest);
    } else {
        assert(all[0] == 0xd800 + (u - 0x10000) / 0x400);
        assert(all[1] == 0xdc00 + (u - 0x10000) % 0x400);
        assert(0x10000 + (all[0] - 0xd800) * 0x400 + (all[1] - 0xdc00) == u);
        assert(all.skip(2) == rest);
    }
}

/// A character below 0x10000 is one unit, its own code. Any other is a pair that carries the upper
/// and the lower ten bits of what its code exceeds 0x10000 by.
pub proof fn law_encoded_char(c: char)
    ensures
        (c as u32) < 0x10000 ==> encoded_char(c).len() == 1 && encoded_char(c)[0] == c as u32,
        (c as u32) >= 0x10000 ==> {
            let e = encoded_char(c);
            &&& e.len() == 2
            &&& 0xd800 <= e[0] < 0xdc00
            &&& 0xdc00 <= e[1] < 0xe000
            &&& (e[0] - 0xd800) * 0x400 + (e[1] - 0xdc00) == c as u32 - 0x10000
        },
{
}

/// Text is encoded character by character.
pub proof fn law_encoded(a: Seq<char>, c: char, b: Seq<char>)
    ensures
        encoded(Seq::<char>::empty()) == Seq::<u16>::empty(),
        encoded(seq![c]) == encoded_char(c),
        encoded(a + b) == encoded(a) + encoded(b),
    decreases a.len(),
{
    let one = seq![c];
    assert(one.drop_first() =~= Seq::<char>::empty());
    assert(one.first() == c);
    assert(encoded(one.drop_first()) == Seq::<u16>::empty());
    assert(encoded(one) == encoded_char(c) + Seq::<u16>::empty());
    assert(encoded_char(c) + Seq::<u16>::empty() =~= encoded_char(c));
    if a.len() == 0 {
        assert(a + b =~= b);
        assert(encoded(a) + encoded(b) =~= encoded(b));
    } else {
        law_encoded(a.drop_first(), c, b);
        assert((a + b).drop_first() =~= a.drop_first() + b);
        assert((a + b).first() == a.first());
        assert(encoded_char(a.first()) + (encoded(a.drop_first()) + encoded(b)) =~= (encoded_char(
            a.first(),
        ) + encoded(a.drop_first())) + encoded(b));
    }
}

/// A unit that is not half of a pair is read as the character with its code, a pair as the character
/// that it was made from, and a half without its other half as U+FFFD.
pub proof fn law_decoded(u: u16, v: u16, c: char, rest: Seq<u16>)
    ensures
        decoded(Seq::<u16>::empty()) == Seq::<char>::empty(),
        u == c as u32 ==> decoded(seq![u] + rest) == seq![c] + decoded(rest),
        0xd800 <= u < 0xdc00 && 0xdc00 <= v < 0xe000 && (c as u32) == 0x10000 + (u - 0xd800) * 0x400
            + (v - 0xdc00) ==> decoded(seq![u, v] + rest) == seq![c] + decoded(rest),
        0xd800 <= u < 0xdc00 && (rest.len() == 0 || rest[0] < 0xdc00 || rest[0] >= 0xe000)
            ==> decoded(seq![u] + rest) == seq!['\u{fffd}'] + decoded(rest),
        0xdc00 <= u < 0xe000 ==> decoded(seq![u] + rest) == seq!['\u{fffd}'] + decoded(rest),
{
    let one = seq![u] + rest;
    let two = seq![u, v] + rest;
    assert(one.skip(1) =~= rest);
    assert(two.skip(2) =~= rest);
    assert(one[0] == u);
    assert(two[0] == u && two[1] == v);
    if rest.len() > 0 {
        assert(one[1] == rest[0]);
    }
    char_is_scalar(c);
    if u == c as u32 {
        assert(u as char == c);
    }
    if (c as u32) == 0x10000 + (u - 0xd800) * 0x400 + (v - 0xdc00) {
        assert(paired(u, v) == c);
    }
}

} // verus!
