//! Searching, trimming and comparing text, on sequences of characters.

use vstd::prelude::*;
use vstd::slice::slice_subrange;

verus! {

/// [`String::push`]: appends one character and leaves the rest as it is.
pub assume_specification[ String::push ](s: &mut String, c: char)
    ensures
        final(s)@ == old(s)@.push(c),
;

/// The characters of a string.
pub fn chars_of(s: &str) -> (v: Vec<char>)
    ensures
        v@ == s@,
{
    let mut v: Vec<char> = Vec::new();
    for c in it: s.chars()
        invariant
            v@ == s@.take(it.index()),
            it.seq() == s@,
    {
        v.push(c);
    }
    assert(s@.take(s@.len() as int) == s@);
    v
}

/// The string that consists of the given characters.
pub fn string_of(v: &[char]) -> (s: String)
    ensures
        s@ == v@,
{
    let mut s: String = String::new();
    for i in 0..v.len()
        invariant
            s@ == v@.take(i as int),
    {
        s.push(v[i]);
        assert(v@.take(i + 1) == v@.take(i as int).push(v@[i as int]));
    }
    assert(v@.take(v@.len() as int) == v@);
    s
}

/// `c` with an ASCII capital replaced by its small letter.
pub open spec fn lower_char(c: char) -> char {
    if 'A' <= c <= 'Z' {
        (c as u32 + 32) as char
    } else {
        c
    }
}

/// `s` with every ASCII capital replaced by its small letter.
pub open spec fn lower(s: Seq<char>) -> Seq<char> {
    s.map_values(|c: char| lower_char(c))
}

/// Replaces an ASCII capital by its small letter.
pub fn to_lower_char(c: char) -> (r: char)
    ensures
        r == lower_char(c),
{
    if 'A' <= c && c <= 'Z' {
        let code: u8 = (c as u32 + 32) as u8;
        code as char
    } else {
        c
    }
}

/// Replaces every ASCII capital by its small letter.
pub fn to_lower(s: &[char]) -> (r: Vec<char>)
    ensures
        r@ == lower(s@),
{
    let mut r: Vec<char> = Vec::new();
    for i in 0..s.len()
        invariant
            r@ == lower(s@.take(i as int)),
    {
        r.push(to_lower_char(s[i]));
        assert(lower(s@.take(i + 1)) == lower(s@.take(i as int)).push(lower_char(s@[i as int])));
    }
    assert(s@.take(s@.len() as int) == s@);
    r
}

/// `needle` stands in `s` at position `i`.
pub open spec fn occurs_at(s: Seq<char>, needle: Seq<char>, i: int) -> bool {
    &&& 0 <= i
    &&& i + needle.len() <= s.len()
    &&& s.subrange(i, i + needle.len()) == needle
}

/// `needle` stands somewhere in `s`.
pub open spec fn contains(s: Seq<char>, needle: Seq<char>) -> bool {
    exists|i: int| occurs_at(s, needle, i)
}

/// Whether two texts are equal.
pub fn same_chars(a: &[char], b: &[char]) -> (r: bool)
    ensures
        r == (a@ == b@),
{
    if a.len() != b.len() {
        return false;
    }
    for i in 0..a.len()
        invariant
            a.len() == b.len(),
            a@.take(i as int) == b@.take(i as int),
    {
        if a[i] != b[i] {
            assert(a@[i as int] != b@[i as int]);
            return false;
        }
        assert(a@.take(i + 1) == a@.take(i as int).push(a@[i as int]));
        assert(b@.take(i + 1) == b@.take(i as int).push(b@[i as int]));
    }
    assert(a@.take(a@.len() as int) == a@);
    assert(b@.take(b@.len() as int) == b@);
    true
}

/// Whether a text equals a string.
pub fn same_text(a: &[char], b: &str) -> (r: bool)
    ensures
        r == (a@ == b@),
{
    let b = chars_of(b);
    same_chars(a, b.as_slice())
}

/// Whether a text equals a string, ASCII letters being compared without regard to case.
pub fn same_ignore_case(a: &[char], b: &str) -> (r: bool)
    ensures
        r == (lower(a@) == lower(b@)),
{
    let a = to_lower(a);
    let b = to_lower(chars_of(b).as_slice());
    same_chars(a.as_slice(), b.as_slice())
}

/// Whether `needle` stands somewhere in `s`.
pub fn mentions(s: &[char], needle: &[char]) -> (r: bool)
    ensures
        r == contains(s@, needle@),
{
    if needle.len() > s.len() {
        assert forall|i: int| !occurs_at(s@, needle@, i) by {}
        return false;
    }
    let last: usize = s.len() - needle.len();
    let mut i: usize = 0;
    while i <= last
        invariant
            i <= last + 1,
            last == s.len() - needle.len(),
            forall|j: int| 0 <= j < i ==> !occurs_at(s@, needle@, j),
        decreases last + 1 - i,
    {
        if same_chars(slice_subrange(s, i, i + needle.len()), needle) {
            assert(occurs_at(s@, needle@, i as int));
            return true;
        }
        if i == last {
            assert forall|j: int| !occurs_at(s@, needle@, j) by {}
            return false;
        }
        i += 1;
    }
    false
}

/// Separates the parts of a path.
pub open spec fn is_separator(c: char) -> bool {
    c == '\\' || c == '/'
}

/// The part of a path behind its last separator.
pub open spec fn base_name(s: Seq<char>) -> Seq<char>
    decreases s.len(),
{
    if s.len() == 0 || is_separator(s.last()) {
        seq![]
    } else {
        base_name(s.drop_last()).push(s.last())
    }
}

/// The part of a path behind its last separator.
pub fn base_of(s: &[char]) -> (r: &[char])
    ensures
        r@ == base_name(s@),
{
    let mut i: usize = s.len();
    assert(s@.take(i as int) == s@);
    assert(base_name(s@) + s@.subrange(i as int, i as int) == base_name(s@));
    while i > 0 && s[i - 1] != '\\' && s[i - 1] != '/'
        invariant
            i <= s.len(),
            base_name(s@) == base_name(s@.take(i as int)) + s@.subrange(i as int, s.len() as int),
        decreases i,
    {
        let ghost p = s@.take(i as int);
        assert(p.drop_last() == s@.take(i - 1));
        assert(p.last() == s@[i - 1]);
        assert(base_name(p.drop_last()).push(p.last()) + s@.subrange(i as int, s.len() as int)
            == base_name(p.drop_last()) + s@.subrange(i - 1, s.len() as int));
        i -= 1;
    }
    assert(base_name(s@.take(i as int)) == Seq::<char>::empty());
    assert(Seq::<char>::empty() + s@.subrange(i as int, s.len() as int) == s@.subrange(
        i as int,
        s.len() as int,
    ));
    slice_subrange(s, i, s.len())
}

/// Is white space: the characters with the Unicode property `White_Space`.
pub open spec fn is_space(c: char) -> bool {
    let u = c as u32;
    ||| 0x09 <= u <= 0x0d
    ||| u == 0x20
    ||| u == 0x85
    ||| u == 0xa0
    ||| u == 0x1680
    ||| 0x2000 <= u <= 0x200a
    ||| u == 0x2028
    ||| u == 0x2029
    ||| u == 0x202f
    ||| u == 0x205f
    ||| u == 0x3000
}

/// Whether a character is white space.
pub fn space(c: char) -> (r: bool)
    ensures
        r == is_space(c),
{
    let u: u32 = c as u32;
    (0x09 <= u && u <= 0x0d) || u == 0x20 || u == 0x85 || u == 0xa0 || u == 0x1680 || (0x2000 <= u
        && u <= 0x200a) || u == 0x2028 || u == 0x2029 || u == 0x202f || u == 0x205f || u == 0x3000
}

/// `s` without leading white space.
pub open spec fn trim_start(s: Seq<char>) -> Seq<char>
    decreases s.len(),
{
    if s.len() > 0 && is_space(s.first()) {
        trim_start(s.drop_first())
    } else {
        s
    }
}

/// `s` without trailing white space.
pub open spec fn trim_end(s: Seq<char>) -> Seq<char>
    decreases s.len(),
{
    if s.len() > 0 && is_space(s.last()) {
        trim_end(s.drop_last())
    } else {
        s
    }
}

/// `s` without white space at its ends.
pub open spec fn trim(s: Seq<char>) -> Seq<char> {
    trim_end(trim_start(s))
}

/// Takes the white space off both ends.
pub fn trimmed(s: &[char]) -> (r: &[char])
    ensures
        r@ == trim(s@),
{
    let mut lo: usize = 0;
    assert(s@.skip(0) == s@);
    while lo < s.len() && space(s[lo])
        invariant
            lo <= s.len(),
            trim_start(s@) == trim_start(s@.skip(lo as int)),
        decreases s.len() - lo,
    {
        assert(s@.skip(lo as int).first() == s@[lo as int]);
        assert(s@.skip(lo as int).drop_first() == s@.skip(lo + 1));
        lo += 1;
    }
    let ghost rest = s@.skip(lo as int);
    assert(rest.len() > 0 ==> rest.first() == s@[lo as int]);
    assert(trim_start(s@) == rest);
    let mut hi: usize = s.len();
    assert(s@.subrange(lo as int, hi as int) == rest);
    while hi > lo && space(s[hi - 1])
        invariant
            lo <= hi <= s.len(),
            trim_end(rest) == trim_end(s@.subrange(lo as int, hi as int)),
        decreases hi - lo,
    {
        let ghost p = s@.subrange(lo as int, hi as int);
        assert(p.last() == s@[hi - 1]);
        assert(p.drop_last() == s@.subrange(lo as int, hi - 1));
        hi -= 1;
    }
    let ghost p = s@.subrange(lo as int, hi as int);
    assert(p.len() > 0 ==> p.last() == s@[hi - 1]);
    slice_subrange(s, lo, hi)
}

/// The position of the first `c` in `s`, or the length of `s` where there is none.
pub open spec fn position(s: Seq<char>, c: char) -> int
    decreases s.len(),
{
    if s.len() == 0 || s.first() == c {
        0
    } else {
        1 + position(s.drop_first(), c)
    }
}

/// Finds the first `c`; without one the length comes back.
pub fn find(s: &[char], c: char) -> (r: usize)
    ensures
        r == position(s@, c),
        r <= s.len(),
        r < s.len() ==> s@[r as int] == c,
        forall|j: int| 0 <= j < r ==> s@[j] != c,
{
    let mut i: usize = 0;
    assert(s@.skip(0) == s@);
    while i < s.len() && s[i] != c
        invariant
            i <= s.len(),
            position(s@, c) == i + position(s@.skip(i as int), c),
            forall|j: int| 0 <= j < i ==> s@[j] != c,
        decreases s.len() - i,
    {
        assert(s@.skip(i as int).first() == s@[i as int]);
        assert(s@.skip(i as int).drop_first() == s@.skip(i + 1));
        i += 1;
    }
    assert(i < s.len() ==> s@.skip(i as int).first() == s@[i as int]);
    i
}

/// `position` is where the first `c` stands.
pub proof fn lemma_position(s: Seq<char>, c: char)
    ensures
        0 <= position(s, c) <= s.len(),
        position(s, c) < s.len() ==> s[position(s, c)] == c,
        forall|j: int| 0 <= j < position(s, c) ==> s[j] != c,
    decreases s.len(),
{
    if s.len() > 0 && s.first() != c {
        lemma_position(s.drop_first(), c);
        assert forall|j: int| 0 <= j < position(s, c) implies s[j] != c by {
            if j > 0 {
                assert(s[j] == s.drop_first()[j - 1]);
            }
        }
    }
}

/// The small letter stands in place of its capital, and every other character stays.
pub proof fn law_lower_char(c: char)
    ensures
        forall|i: int|
            0 <= i < 26 && c == #[trigger] "ABCDEFGHIJKLMNOPQRSTUVWXYZ"@[i] ==> lower_char(c)
                == "abcdefghijklmnopqrstuvwxyz"@[i],
        !"ABCDEFGHIJKLMNOPQRSTUVWXYZ"@.contains(c) ==> lower_char(c) == c,
{
    reveal_strlit("ABCDEFGHIJKLMNOPQRSTUVWXYZ");
    reveal_strlit("abcdefghijklmnopqrstuvwxyz");
    let caps = "ABCDEFGHIJKLMNOPQRSTUVWXYZ"@;
    if 'A' <= c <= 'Z' {
        let i = c as u32 - 'A' as u32;
        assert(caps.len() == 26);
        assert(caps[i] == c);
        assert(caps.contains(c));
    }
}

/// Lower case is made character by character.
pub proof fn law_lower(a: Seq<char>, c: char, b: Seq<char>)
    ensures
        lower(Seq::<char>::empty()) == Seq::<char>::empty(),
        lower(a.push(c)) == lower(a).push(lower_char(c)),
        lower(a + b) == lower(a) + lower(b),
        lower(a).len() == a.len(),
{
    assert(lower(Seq::<char>::empty()) =~= Seq::<char>::empty());
    assert(lower(a.push(c)) =~= lower(a).push(lower_char(c)));
    assert(lower(a + b) =~= lower(a) + lower(b));
}

/// A text contains what stands between any two parts of it.
pub proof fn law_contains(a: Seq<char>, needle: Seq<char>, b: Seq<char>)
    ensures
        contains(a + needle + b, needle),
{
    let s = a + needle + b;
    let i = a.len() as int;
    assert(s.subrange(i, i + needle.len()) =~= needle);
    assert(occurs_at(s, needle, i));
}

/// A text that contains another can be split around it.
pub proof fn law_contains_splits(s: Seq<char>, needle: Seq<char>)
    requires
        contains(s, needle),
    ensures
        exists|a: Seq<char>, b: Seq<char>| s == #[trigger] (a + needle + b),
{
    let i = choose|i: int| occurs_at(s, needle, i);
    let (a, b) = (s.take(i), s.skip(i + needle.len()));
    assert(s.subrange(i, i + needle.len()) == needle);
    assert(s =~= a + needle + b);
}

/// The base name is what follows the last separator, or the whole text where there is none.
pub proof fn law_base_name(dir: Seq<char>, sep: char, base: Seq<char>)
    requires
        sep == '\\' || sep == '/',
        !base.contains('\\'),
        !base.contains('/'),
    ensures
        base_name(dir.push(sep) + base) == base,
        base_name(base) == base,
    decreases base.len(),
{
    let s = dir.push(sep) + base;
    if base.len() == 0 {
        assert(s.last() == sep);
        assert(base =~= Seq::<char>::empty());
    } else {
        let rest = base.drop_last();
        let c = base.last();
        assert(base[base.len() - 1] == c);
        assert(base.contains(c));
        assert(!rest.contains('\\') && !rest.contains('/')) by {
            if rest.contains('\\') {
                let i = choose|i: int| 0 <= i < rest.len() && rest[i] == '\\';
                assert(base[i] == '\\');
            }
            if rest.contains('/') {
                let i = choose|i: int| 0 <= i < rest.len() && rest[i] == '/';
                assert(base[i] == '/');
            }
        }
        law_base_name(dir, sep, rest);
        assert(s.drop_last() =~= dir.push(sep) + rest);
        assert(s.last() == c);
        assert(rest.push(c) =~= base);
    }
}

/// The white space characters, by their codes.
pub open spec fn space_codes() -> Seq<u32> {
    seq![
        9u32, 10, 11, 12, 13, 0x20, 0x85, 0xa0, 0x1680, 0x2000, 0x2001, 0x2002, 0x2003, 0x2004,
        0x2005, 0x2006, 0x2007, 0x2008, 0x2009, 0x200a, 0x2028, 0x2029, 0x202f, 0x205f, 0x3000,
    ]
}

/// A character is white space exactly if its code is in the list.
pub proof fn law_space(c: char)
    ensures
        is_space(c) == space_codes().contains(c as u32),
{
    let l = space_codes();
    let u = c as u32;
    assert(l.len() == 25);
    assert(l[0] == 9 && l[1] == 10 && l[2] == 11 && l[3] == 12 && l[4] == 13 && l[5] == 0x20 && l[6]
        == 0x85 && l[7] == 0xa0 && l[8] == 0x1680 && l[9] == 0x2000 && l[10] == 0x2001 && l[11]
        == 0x2002 && l[12] == 0x2003 && l[13] == 0x2004 && l[14] == 0x2005 && l[15] == 0x2006
        && l[16] == 0x2007 && l[17] == 0x2008 && l[18] == 0x2009 && l[19] == 0x200a && l[20]
        == 0x2028 && l[21] == 0x2029 && l[22] == 0x202f && l[23] == 0x205f && l[24] == 0x3000);
}

/// Consists of white space.
pub open spec fn blank(s: Seq<char>) -> bool {
    forall|i: int| 0 <= i < s.len() ==> is_space(#[trigger] s[i])
}

/// Has no white space at its ends.
pub open spec fn tight(s: Seq<char>) -> bool {
    s.len() > 0 ==> !is_space(s[0]) && !is_space(s[s.len() - 1])
}

/// Trimming takes off exactly the white space around a text.
pub proof fn law_trim(a: Seq<char>, s: Seq<char>, b: Seq<char>)
    requires
        blank(a),
        blank(b),
        tight(s),
    ensures
        trim(a + s + b) == s,
    decreases a.len() + b.len(),
{
    let all = a + s + b;
    if a.len() > 0 {
        assert(all.first() == a[0]);
        assert(all.drop_first() =~= a.drop_first() + s + b);
        assert(blank(a.drop_first())) by {
            assert forall|i: int| 0 <= i < a.drop_first().len() implies is_space(
                #[trigger] a.drop_first()[i],
            ) by {
                assert(a.drop_first()[i] == a[i + 1]);
            }
        }
        law_trim(a.drop_first(), s, b);
    } else if s.len() == 0 {
        assert(all =~= b);
        lemma_blank_trims(b);
        assert(s =~= Seq::<char>::empty());
    } else {
        assert(all =~= s + b);
        assert(all.first() == s[0]);
        lemma_trim_end(s, b);
    }
}

proof fn lemma_blank_trims(b: Seq<char>)
    requires
        blank(b),
    ensures
        trim(b) == Seq::<char>::empty(),
    decreases b.len(),
{
    if b.len() > 0 {
        assert(is_space(b[0]));
        assert(blank(b.drop_first())) by {
            assert forall|i: int| 0 <= i < b.drop_first().len() implies is_space(
                #[trigger] b.drop_first()[i],
            ) by {
                assert(b.drop_first()[i] == b[i + 1]);
            }
        }
        lemma_blank_trims(b.drop_first());
    } else {
        assert(b =~= Seq::<char>::empty());
    }
}

proof fn lemma_trim_end(s: Seq<char>, b: Seq<char>)
    requires
        s.len() > 0,
        tight(s),
        blank(b),
    ensures
        trim_end(s + b) == s,
    decreases b.len(),
{
    let all = s + b;
    if b.len() > 0 {
        assert(all.last() == b[b.len() - 1]);
        assert(all.drop_last() =~= s + b.drop_last());
        assert(blank(b.drop_last())) by {
            assert forall|i: int| 0 <= i < b.drop_last().len() implies is_space(
                #[trigger] b.drop_last()[i],
            ) by {
                assert(b.drop_last()[i] == b[i]);
            }
        }
        lemma_trim_end(s, b.drop_last());
    } else {
        assert(all =~= s);
        assert(all.last() == s[s.len() - 1]);
    }
}

/// Every text can be split into white space, a text without white space at its ends, which
/// trimming gives, and white space.
pub proof fn law_trim_splits(s: Seq<char>) -> (parts: (Seq<char>, Seq<char>))
    ensures
        s == parts.0 + trim(s) + parts.1,
        blank(parts.0),
        blank(parts.1),
        tight(trim(s)),
    decreases s.len(),
{
    if s.len() > 0 && is_space(s[0]) {
        let p = law_trim_splits(s.drop_first());
        let a = seq![s[0]] + p.0;
        assert(s =~= a + trim(s) + p.1) by {
            assert(s =~= seq![s[0]] + s.drop_first());
        }
        assert(blank(a)) by {
            assert forall|i: int| 0 <= i < a.len() implies is_space(#[trigger] a[i]) by {
                if i > 0 {
                    assert(a[i] == p.0[i - 1]);
                }
            }
        }
        (a, p.1)
    } else {
        let b = lemma_trim_end_splits(s);
        assert(s =~= Seq::<char>::empty() + trim(s) + b);
        if trim(s).len() > 0 {
            assert(trim(s)[0] == s[0]);
        }
        (Seq::empty(), b)
    }
}

proof fn lemma_trim_end_splits(s: Seq<char>) -> (b: Seq<char>)
    ensures
        s == trim_end(s) + b,
        blank(b),
        trim_end(s).len() > 0 ==> !is_space(trim_end(s)[trim_end(s).len() - 1]),
    decreases s.len(),
{
    if s.len() > 0 && is_space(s.last()) {
        let b = lemma_trim_end_splits(s.drop_last());
        let e = b.push(s.last());
        assert(s =~= s.drop_last().push(s.last()));
        assert((trim_end(s) + b).push(s.last()) =~= trim_end(s) + e);
        assert(s =~= trim_end(s) + e);
        assert(blank(e)) by {
            assert forall|i: int| 0 <= i < e.len() implies is_space(#[trigger] e[i]) by {
                if i < b.len() {
                    assert(e[i] == b[i]);
                }
            }
        }
        e
    } else {
        assert(s =~= s + Seq::<char>::empty());
        Seq::empty()
    }
}

/// The first `c` stands behind a part without one; without any, the length comes out.
pub proof fn law_position(a: Seq<char>, c: char, b: Seq<char>)
    requires
        !a.contains(c),
    ensures
        position(a.push(c) + b, c) == a.len(),
        position(a, c) == a.len(),
{
    let s = a.push(c) + b;
    lemma_position(s, c);
    lemma_position(a, c);
    assert(s[a.len() as int] == c);
    let p = position(s, c);
    if p < a.len() {
        assert(s[p] == a[p]);
        assert(a.contains(a[p]));
    }
    if position(a, c) < a.len() {
        assert(a.contains(a[position(a, c)]));
    }
}

} // verus!
