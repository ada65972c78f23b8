//! Reading numbers from text and writing them into it.

use vstd::prelude::*;
use vstd::slice::slice_subrange;

verus! {

/// Is a decimal digit.
pub open spec fn is_digit(c: char) -> bool {
    '0' <= c <= '9'
}

/// Consists of decimal digits.
pub open spec fn all_digits(s: Seq<char>) -> bool {
    forall|i: int| 0 <= i < s.len() ==> is_digit(#[trigger] s[i])
}

/// The number that decimal digits stand for.
pub open spec fn decimal(s: Seq<char>) -> nat
    decreases s.len(),
{
    if s.len() == 0 {
        0
    } else {
        decimal(s.drop_last()) * 10 + (s.last() as u32 - '0' as u32) as nat
    }
}

/// `s` without a leading plus sign.
pub open spec fn unsigned_part(s: Seq<char>) -> Seq<char> {
    if s.len() > 0 && s.first() == '+' {
        s.drop_first()
    } else {
        s
    }
}

/// The number that the digits `d` stand for, if they are digits and it is at most `max`.
pub open spec fn bounded(d: Seq<char>, max: int) -> Option<int> {
    if d.len() > 0 && all_digits(d) && decimal(d) <= max {
        Some(decimal(d) as int)
    } else {
        None
    }
}

/// Reads an unsigned number: an optional plus sign and at least one digit, nothing else.
pub open spec fn parsed_unsigned(s: Seq<char>, max: int) -> Option<int> {
    bounded(unsigned_part(s), max)
}

/// Reads an `i64`: an optional sign and at least one digit, nothing else.
pub open spec fn parsed_i64(s: Seq<char>) -> Option<int> {
    if s.len() > 0 && s.first() == '-' {
        match bounded(s.drop_first(), -(i64::MIN as int)) {
            Some(n) => Some(-n),
            None => None,
        }
    } else {
        bounded(unsigned_part(s), i64::MAX as int)
    }
}

/// Reads digits that stand for at most `u64::MAX`.
pub fn parse_digits(s: &[char]) -> (r: Option<u64>)
    ensures
        match r {
            Some(n) => bounded(s@, u64::MAX as int) == Some(n as int),
            None => bounded(s@, u64::MAX as int) is None,
        },
{
    if s.len() == 0 {
        return None;
    }
    let mut n: u64 = 0;
    let mut over: bool = false;
    for i in 0..s.len()
        invariant
            all_digits(s@.take(i as int)),
            !over ==> n == decimal(s@.take(i as int)),
            over ==> decimal(s@.take(i as int)) > u64::MAX,
    {
        let c = s[i];
        if c < '0' || c > '9' {
            assert(!is_digit(s@[i as int]));
            return None;
        }
        let ghost p = s@.take(i + 1);
        assert(p.drop_last() == s@.take(i as int));
        assert(p.last() == c);
        assert(all_digits(p)) by {
            assert forall|j: int| 0 <= j < p.len() implies is_digit(#[trigger] p[j]) by {
                if j < i {
                    assert(p[j] == s@.take(i as int)[j]);
                }
            }
        }
        let d: u64 = (c as u32 - '0' as u32) as u64;
        if !over {
            match n.checked_mul(10) {
                Some(m) => match m.checked_add(d) {
                    Some(k) => {
                        n = k;
                    },
                    None => {
                        over = true;
                    },
                },
                None => {
                    over = true;
                },
            }
        }
    }
    assert(s@.take(s@.len() as int) == s@);
    if over {
        None
    } else {
        Some(n)
    }
}

/// Drops a leading plus sign.
pub fn without_plus(s: &[char]) -> (r: &[char])
    ensures
        r@ == unsigned_part(s@),
{
    if s.len() > 0 && s[0] == '+' {
        slice_subrange(s, 1, s.len())
    } else {
        s
    }
}

/// Reads a `u64`.
pub fn parse_u64(s: &[char]) -> (r: Option<u64>)
    ensures
        match r {
            Some(n) => parsed_unsigned(s@, u64::MAX as int) == Some(n as int),
            None => parsed_unsigned(s@, u64::MAX as int) is None,
        },
{
    parse_digits(without_plus(s))
}

/// Reads a `u32`.
pub fn parse_u32(s: &[char]) -> (r: Option<u32>)
    ensures
        match r {
            Some(n) => parsed_unsigned(s@, u32::MAX as int) == Some(n as int),
            None => parsed_unsigned(s@, u32::MAX as int) is None,
        },
{
    match parse_digits(without_plus(s)) {
        Some(n) => if n <= u32::MAX as u64 {
            Some(n as u32)
        } else {
            None
        },
        None => None,
    }
}

/// Reads an `i64`.
pub fn parse_i64(s: &[char]) -> (r: Option<i64>)
    ensures
        match r {
            Some(n) => parsed_i64(s@) == Some(n as int),
            None => parsed_i64(s@) is None,
        },
{
    if s.len() > 0 && s[0] == '-' {
        let digits = slice_subrange(s, 1, s.len());
        assert(digits@ == s@.drop_first());
        match parse_digits(digits) {
            Some(n) => if n == 0x8000_0000_0000_0000 {
                Some(i64::MIN)
            } else if n < 0x8000_0000_0000_0000 {
                Some(-(n as i64))
            } else {
                None
            },
            None => None,
        }
    } else {
        match parse_digits(without_plus(s)) {
            Some(n) => if n <= i64::MAX as u64 {
                Some(n as i64)
            } else {
                None
            },
            None => None,
        }
    }
}

/// The character for a digit of base 16 or less.
pub open spec fn digit(d: nat) -> char {
    if d < 10 {
        ('0' as u32 + d) as char
    } else {
        ('a' as u32 + (d - 10)) as char
    }
}

/// `n` in the given base, without leading zeros.
pub open spec fn digits(n: nat, base: nat) -> Seq<char>
    recommends
        base >= 2,
    decreases n,
{
    if n < base || base < 2 {
        seq![digit(n)]
    } else {
        proof {
            lemma_shrinks(n, base);
        }
        digits(n / base, base).push(digit(n % base))
    }
}

/// Dividing by the base makes a number smaller.
pub proof fn lemma_shrinks(n: nat, base: nat)
    requires
        2 <= base <= n,
    ensures
        n / base < n,
{
    assert(n / base < n) by (nonlinear_arith)
        requires
            2 <= base <= n,
    ;
}

/// A signed number in decimal.
pub open spec fn signed(n: int) -> Seq<char> {
    if n < 0 {
        seq!['-'] + digits((-n) as nat, 10)
    } else {
        digits(n as nat, 10)
    }
}

/// A number in hexadecimal, with its prefix.
pub open spec fn prefixed_hex(n: nat) -> Seq<char> {
    "0x"@ + digits(n, 16)
}

/// The bits of a handle, read as an unsigned number.
pub open spec fn handle_bits(h: isize) -> nat {
    if h < 0 {
        (h + usize::MAX + 1) as nat
    } else {
        h as nat
    }
}

/// Appends a number in base 2 to 16.
pub fn push_digits(s: &mut String, n: u64, base: u64)
    requires
        2 <= base <= 16,
    ensures
        final(s)@ == old(s)@ + digits(n as nat, base as nat),
    decreases n,
{
    if n >= base {
        proof {
            lemma_shrinks(n as nat, base as nat);
        }
        push_digits(s, n / base, base);
    }
    let d: u8 = (n % base) as u8;
    let c: char = if d < 10 {
        (48 + d) as char
    } else {
        (87 + d) as char
    };
    assert(c == digit((n % base) as nat));
    proof {
        if n < base {
            assert(n % base == n) by (nonlinear_arith)
                requires
                    n < base,
            ;
        }
    }
    s.push(c);
    assert(s@ == old(s)@ + digits(n as nat, base as nat));
}

/// Appends an unsigned number in decimal.
pub fn push_u64(s: &mut String, n: u64)
    ensures
        final(s)@ == old(s)@ + digits(n as nat, 10),
{
    push_digits(s, n, 10);
}

/// Appends a signed number in decimal.
pub fn push_i64(s: &mut String, n: i64)
    ensures
        final(s)@ == old(s)@ + signed(n as int),
{
    if n < 0 {
        s.push('-');
        push_digits(s, (-(n + 1)) as u64 + 1, 10);
        assert(s@ == old(s)@ + signed(n as int));
    } else {
        push_digits(s, n as u64, 10);
    }
}

/// Appends a number in hexadecimal, with its prefix.
pub fn push_hex(s: &mut String, n: u64)
    ensures
        final(s)@ == old(s)@ + prefixed_hex(n as nat),
{
    s.append("0x");
    push_digits(s, n, 16);
    assert(s@ == old(s)@ + prefixed_hex(n as nat));
}

/// Appends a handle in hexadecimal, with its prefix.
pub fn push_handle(s: &mut String, h: isize)
    ensures
        final(s)@ == old(s)@ + prefixed_hex(handle_bits(h)),
{
    let bits: usize = if h < 0 {
        usize::MAX - (-(h + 1)) as usize
    } else {
        h as usize
    };
    push_hex(s, bits as u64);
}

/// The digits of every base up to 16, in their order.
pub proof fn law_digit(d: nat)
    requires
        d < 16,
    ensures
        digit(d) == "0123456789abcdef"@[d as int],
{
    reveal_strlit("0123456789abcdef");
}

/// A number is written as its leading part followed by its last digit, and one digit stands for
/// itself.
pub proof fn law_digits(n: nat, d: nat, base: nat)
    requires
        2 <= base <= 16,
        d < base,
    ensures
        digits(d, base) == seq!["0123456789abcdef"@[d as int]],
        n > 0 ==> digits(base * n + d, base) == digits(n, base).push(
            "0123456789abcdef"@[d as int],
        ),
{
    law_digit(d);
    if n > 0 {
        let m = base * n + d;
        assert(m >= base) by (nonlinear_arith)
            requires
                m == base * n + d,
                n > 0,
        ;
        assert(n * base == base * n) by (nonlinear_arith);
        vstd::arithmetic::div_mod::lemma_fundamental_div_mod_converse(
            m as int,
            base as int,
            n as int,
            d as int,
        );
    }
}

/// A negative number has a minus sign, no other has a sign, and a hexadecimal number its prefix.
pub proof fn law_signs(n: nat)
    ensures
        signed(n as int) == digits(n, 10),
        n > 0 ==> signed(-(n as int)) == seq!['-'] + digits(n, 10),
        prefixed_hex(n) == seq!['0', 'x'] + digits(n, 16),
{
    reveal_strlit("0x");
    assert("0x"@ =~= seq!['0', 'x']);
}

/// A handle is printed as the unsigned number with the same bits.
pub proof fn law_handle_bits(h: isize)
    ensures
        0 <= handle_bits(h) <= usize::MAX,
        handle_bits(h) == h || handle_bits(h) == h + usize::MAX + 1,
{
}

/// Decimal digits stand for ten times what stands before the last, plus the last.
pub proof fn law_decimal(s: Seq<char>, d: int)
    requires
        0 <= d < 10,
    ensures
        decimal(Seq::<char>::empty()) == 0,
        decimal(s.push("0123456789"@[d])) == 10 * decimal(s) + d,
{
    reveal_strlit("0123456789");
    let p = s.push("0123456789"@[d]);
    assert(p.drop_last() =~= s);
    assert(p.last() == "0123456789"@[d]);
}

/// Is a decimal digit, by the list of them.
pub open spec fn listed_digit(c: char) -> bool {
    "0123456789"@.contains(c)
}

/// The decimal digits are those of the list.
pub proof fn law_is_digit(c: char)
    ensures
        is_digit(c) == listed_digit(c),
{
    reveal_strlit("0123456789");
    let l = "0123456789"@;
    assert(l.len() == 10);
    if is_digit(c) {
        let i = c as u32 - '0' as u32;
        assert(l[i] == c);
    }
}

/// Digits are read as the number that they stand for, if it fits; with a plus sign too, and with a
/// minus sign where the number is signed.
pub proof fn law_readable_numbers(d: Seq<char>, max: int)
    requires
        d.len() > 0,
        forall|i: int| 0 <= i < d.len() ==> listed_digit(#[trigger] d[i]),
    ensures
        ({
            let n = decimal(d) as int;
            let fits = if n <= max {
                Some(n)
            } else {
                None
            };
            let fits_up = if n <= 0x7fff_ffff_ffff_ffff {
                Some(n)
            } else {
                None
            };
            let fits_down = if n <= 0x8000_0000_0000_0000 {
                Some(-n)
            } else {
                None
            };
            &&& parsed_unsigned(d, max) == fits
            &&& parsed_unsigned(seq!['+'] + d, max) == fits
            &&& parsed_unsigned(seq!['-'] + d, max) == None::<int>
            &&& parsed_i64(d) == fits_up
            &&& parsed_i64(seq!['+'] + d) == fits_up
            &&& parsed_i64(seq!['-'] + d) == fits_down
        }),
{
    assert(all_digits(d)) by {
        assert forall|i: int| 0 <= i < d.len() implies is_digit(#[trigger] d[i]) by {
            law_is_digit(d[i]);
        }
    }
    assert(is_digit(d[0]));
    assert((seq!['+'] + d).drop_first() =~= d);
    assert((seq!['-'] + d).drop_first() =~= d);
    let m = seq!['-'] + d;
    assert(m[0] == '-');
    assert(!is_digit(m[0]));
}

/// Nothing else is a number: not the empty text, not a sign alone, not a text with another character
/// in it.
pub proof fn law_unreadable_numbers(s: Seq<char>, max: int, i: int)
    requires
        s.len() == 0 || (s.len() == 1 && !listed_digit(s[0])) || (1 <= i < s.len() && !listed_digit(
            s[i],
        )) || (s.len() > 0 && !listed_digit(s[0]) && s[0] != '+' && s[0] != '-'),
    ensures
        parsed_unsigned(s, max) is None,
        parsed_i64(s) is None,
{
    if s.len() > 0 {
        law_is_digit(s[0]);
        let t = s.drop_first();
        if 1 <= i < s.len() {
            law_is_digit(s[i]);
            if !listed_digit(s[i]) {
                assert(t[i - 1] == s[i]);
                assert(!all_digits(t));
                assert(!all_digits(s));
            }
        }
        if !listed_digit(s[0]) {
            assert(!is_digit(s[0]));
            assert(!all_digits(s));
        }
    }
}

/// A number that is written in decimal is read back.
pub proof fn law_numbers_read_back(n: nat, max: int)
    ensures
        n <= max ==> parsed_unsigned(digits(n, 10), max) == Some(n as int),
        n > max ==> parsed_unsigned(digits(n, 10), max) is None,
        n <= i64::MAX ==> parsed_i64(signed(n as int)) == Some(n as int),
        0 < n <= 0x8000_0000_0000_0000 ==> parsed_i64(signed(-(n as int))) == Some(-(n as int)),
{
    lemma_digits_are_decimal(n);
    law_readable_numbers(digits(n, 10), max);
}

proof fn lemma_digits_are_decimal(n: nat)
    ensures
        digits(n, 10).len() > 0,
        forall|i: int| 0 <= i < digits(n, 10).len() ==> listed_digit(#[trigger] digits(n, 10)[i]),
        decimal(digits(n, 10)) == n,
    decreases n,
{
    reveal_strlit("0123456789");
    let l = "0123456789"@;
    let s = digits(n, 10);
    let d = (n % 10) as int;
    assert(l[d] == digit(n % 10));
    assert(l.contains(l[d]));
    if n >= 10 {
        lemma_digits_are_decimal(n / 10);
        let p = digits(n / 10, 10);
        assert(s == p.push(l[d]));
        assert forall|i: int| 0 <= i < s.len() implies listed_digit(#[trigger] s[i]) by {
            if i < p.len() {
                assert(s[i] == p[i]);
            }
        }
        law_decimal(p, d);
    } else {
        assert(s =~= Seq::<char>::empty().push(l[d]));
        law_decimal(Seq::empty(), d);
    }
}

/// Text is read as digits exactly where there are any, there is nothing else, and the number fits.
pub proof fn law_bounded(d: Seq<char>, max: int)
    ensures
        bounded(d, max) is Some <==> d.len() > 0 && decimal(d) <= max && forall|i: int|
            0 <= i < d.len() ==> listed_digit(#[trigger] d[i]),
        bounded(d, max) is Some ==> bounded(d, max)->0 == decimal(d),
{
    assert forall|i: int| 0 <= i < d.len() implies is_digit(#[trigger] d[i]) == listed_digit(
        d[i],
    ) by {
        law_is_digit(d[i]);
    }
    if all_digits(d) {
        assert forall|i: int| 0 <= i < d.len() implies listed_digit(#[trigger] d[i]) by {
            assert(is_digit(d[i]));
        }
    }
    if forall|i: int| 0 <= i < d.len() ==> listed_digit(#[trigger] d[i]) {
        assert forall|i: int| 0 <= i < d.len() implies is_digit(#[trigger] d[i]) by {
            assert(listed_digit(d[i]));
        }
    }
}

/// One leading plus sign is dropped, and nothing else.
pub proof fn law_unsigned_part(s: Seq<char>)
    ensures
        unsigned_part(seq!['+'] + s) == s,
        s.len() == 0 || s[0] != '+' ==> unsigned_part(s) == s,
{
    assert((seq!['+'] + s).drop_first() =~= s);
}

} // verus!
