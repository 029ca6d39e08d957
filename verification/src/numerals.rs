//! Rendering and reading numbers as text.

use crate::text::{char_is_digit, chars_of, is_digit};
use vstd::prelude::*;

verus! {

/// The decimal digit of a number below ten.
pub open spec fn digit(n: nat) -> char {
    (('0' as nat) + n) as char
}

/// The decimal numeral of `n`, without leading zeros.
pub open spec fn dec(n: nat) -> Seq<char>
    decreases n,
{
    if n < 10 {
        seq![digit(n)]
    } else {
        dec(n / 10).push(digit(n % 10))
    }
}

/// The decimal numeral of an integer, with a minus sign when negative.
pub open spec fn dec_int(n: int) -> Seq<char> {
    if n < 0 {
        seq!['-'] + dec((-n) as nat)
    } else {
        dec(n as nat)
    }
}

/// A decimal numeral of at least two digits.
pub open spec fn dec2(n: nat) -> Seq<char> {
    if n < 10 {
        seq!['0', digit(n)]
    } else {
        dec(n)
    }
}

fn digit_char(n: u64) -> (c: char)
    requires
        n < 10,
    ensures
        c == digit(n as nat),
{
    (48 + n as u8) as char
}

/// Appends the decimal numeral of `n`.
pub fn push_dec(out: &mut String, n: u64)
    ensures
        final(out)@ == old(out)@ + dec(n as nat),
    decreases n,
{
    if n >= 10 {
        push_dec(out, n / 10);
    }
    let ghost mid = out@;
    out.push(digit_char(n % 10));
    assert(out@ =~= old(out)@ + dec(n as nat));
}

/// The decimal numeral of `n`.
pub fn dec_string(n: u64) -> (r: String)
    ensures
        r@ == dec(n as nat),
{
    let mut out = String::new();
    push_dec(&mut out, n);
    assert(out@ =~= dec(n as nat));
    out
}

/// Appends the decimal numeral of an integer.
pub fn push_dec_int(out: &mut String, n: i64)
    ensures
        final(out)@ == old(out)@ + dec_int(n as int),
{
    if n < 0 {
        out.push('-');
        let m: u64 = if n == i64::MIN {
            9_223_372_036_854_775_808u64
        } else {
            (-n) as u64
        };
        push_dec(out, m);
        assert(out@ =~= old(out)@ + dec_int(n as int));
    } else {
        push_dec(out, n as u64);
    }
}

/// Appends a decimal numeral of at least two digits.
pub fn push_dec2(out: &mut String, n: u64)
    ensures
        final(out)@ == old(out)@ + dec2(n as nat),
{
    if n < 10 {
        out.push('0');
        out.push(digit_char(n));
        assert(out@ =~= old(out)@ + dec2(n as nat));
    } else {
        push_dec(out, n);
    }
}

/// The lowercase hexadecimal digit of a number below sixteen.
pub open spec fn hex_digit(n: nat) -> char {
    if n < 10 {
        digit(n)
    } else {
        (('a' as nat) + n - 10) as char
    }
}

/// The last `width` lowercase hexadecimal digits of `n`.
pub open spec fn hex(n: nat, width: nat) -> Seq<char>
    decreases width,
{
    if width == 0 {
        Seq::empty()
    } else {
        hex(n / 16, (width - 1) as nat).push(hex_digit(n % 16))
    }
}

/// Appends the last `width` hexadecimal digits of `n`.
pub fn push_hex(out: &mut String, n: u64, width: u8)
    ensures
        final(out)@ == old(out)@ + hex(n as nat, width as nat),
    decreases width,
{
    if width > 0 {
        push_hex(out, n / 16, width - 1);
        let d: u64 = n % 16;
        let c: char = if d < 10 {
            digit_char(d)
        } else {
            (97 + (d - 10) as u8) as char
        };
        out.push(c);
    }
    assert(out@ =~= old(out)@ + hex(n as nat, width as nat));
}

pub proof fn hex_len(n: nat, width: nat)
    ensures
        hex(n, width).len() == width,
    decreases width,
{
    if width > 0 {
        hex_len(n / 16, (width - 1) as nat);
    }
}

/// Hexadecimal numerals consist of letters and digits.
pub proof fn hex_chars(n: nat, width: nat)
    ensures
        forall|i: int| 0 <= i < width ==> crate::text::is_alphanumeric(#[trigger] hex(n, width)[i]),
    decreases width,
{
    hex_len(n, width);
    if width > 0 {
        let w = (width - 1) as nat;
        hex_chars(n / 16, w);
        hex_len(n / 16, w);
        assert forall|i: int| 0 <= i < width implies crate::text::is_alphanumeric(
            #[trigger] hex(n, width)[i],
        ) by {
            if i < w {
                assert(hex(n, width)[i] == hex(n / 16, w)[i]);
            }
        }
    }
}

/// Numbers that fit the width have distinct numerals.
pub proof fn hex_injective(a: nat, b: nat, width: nat)
    requires
        a < vstd::arithmetic::power::pow(16, width),
        b < vstd::arithmetic::power::pow(16, width),
        hex(a, width) == hex(b, width),
    ensures
        a == b,
    decreases width,
{
    if width == 0 {
        vstd::arithmetic::power::lemma_pow0(16);
    } else {
        let w = (width - 1) as nat;
        let ha = hex(a / 16, w);
        let hb = hex(b / 16, w);
        hex_len(a / 16, w);
        hex_len(b / 16, w);
        assert(hex(a, width).drop_last() =~= ha);
        assert(hex(b, width).drop_last() =~= hb);
        assert(hex(a, width).last() == hex_digit(a % 16));
        assert(hex(b, width).last() == hex_digit(b % 16));
        assert(a % 16 == b % 16);
        assert(vstd::arithmetic::power::pow(16, width) == 16 * vstd::arithmetic::power::pow(16, w))
            by {
            reveal(vstd::arithmetic::power::pow);
        }
        hex_injective(a / 16, b / 16, w);
    }
}

// ---------------------------------------------------------------------------
// Reading
// ---------------------------------------------------------------------------

/// The value of a sequence of decimal digits.
pub open spec fn digits_value(s: Seq<char>) -> nat
    decreases s.len(),
{
    if s.len() == 0 {
        0
    } else {
        digits_value(s.drop_last()) * 10 + ((s.last() as nat) - ('0' as nat)) as nat
    }
}

pub open spec fn all_digits(s: Seq<char>) -> bool {
    forall|i: int| 0 <= i < s.len() ==> is_digit(#[trigger] s[i])
}

/// `s` without the plus sign a number may start with.
pub open spec fn without_plus(s: Seq<char>) -> Seq<char> {
    if s.len() > 0 && s[0] == '+' {
        s.drop_first()
    } else {
        s
    }
}

/// The number that `s` spells: an optional plus sign and at least one digit.
pub open spec fn spelled(s: Seq<char>) -> Option<nat> {
    let d = without_plus(s);
    if d.len() > 0 && all_digits(d) {
        Some(digits_value(d))
    } else {
        None
    }
}

/// The number that `s` spells, when it is at most `max`.
pub open spec fn spelled_up_to(s: Seq<char>, max: nat) -> Option<nat> {
    match spelled(s) {
        Some(n) if n <= max => Some(n),
        _ => None,
    }
}

proof fn digits_value_grows(s: Seq<char>, k: int)
    requires
        0 <= k <= s.len(),
    ensures
        digits_value(s.take(k)) <= digits_value(s),
    decreases s.len(),
{
    if k < s.len() {
        assert(s.drop_last().take(k) =~= s.take(k));
        digits_value_grows(s.drop_last(), k);
    } else {
        assert(s.take(k) =~= s);
    }
}

/// Reads a number of at most `max` from text.
pub fn parse_up_to(s: &str, max: u64) -> (r: Option<u64>)
    ensures
        match r {
            Some(n) => spelled_up_to(s@, max as nat) == Some(n as nat),
            None => spelled_up_to(s@, max as nat) is None,
        },
{
    let v = chars_of(s);
    let start: usize = if v.len() > 0 && v[0] == '+' {
        1
    } else {
        0
    };
    let ghost d = without_plus(s@);
    assert(d =~= s@.skip(start as int));
    if start == v.len() {
        return None;
    }
    let mut i: usize = start;
    let mut n: u64 = 0;
    assert(d.take(0) =~= Seq::<char>::empty());
    while i < v.len()
        invariant
            v@ == s@,
            start <= i <= v@.len(),
            start < v@.len(),
            d == without_plus(s@),
            d == s@.skip(start as int),
            n <= max,
            n == digits_value(d.take(i - start)),
            all_digits(d.take(i - start)),
        decreases v@.len() - i,
    {
        let c = v[i];
        assert(c == d[i - start]);
        if !char_is_digit(c) {
            assert(!all_digits(d));
            return None;
        }
        let k: u64 = (c as u32 - 48) as u64;
        assert(d.take(i + 1 - start).drop_last() =~= d.take(i - start));
        assert(d.take(i + 1 - start).last() == c);
        assert(digits_value(d.take(i + 1 - start)) == n * 10 + k);
        proof {
            digits_value_grows(d, i + 1 - start);
        }
        if k > max || n > max / 10 || n * 10 > max - k {
            assert(n * 10 + k > max);
            return None;
        }
        n = n * 10 + k;
        i = i + 1;
    }
    assert(d.take(v@.len() - start) =~= d);
    Some(n)
}

/// Reads a `u32` from text.
pub fn parse_u32(s: &str) -> (r: Option<u32>)
    ensures
        match r {
            Some(n) => spelled_up_to(s@, u32::MAX as nat) == Some(n as nat),
            None => spelled_up_to(s@, u32::MAX as nat) is None,
        },
{
    match parse_up_to(s, u32::MAX as u64) {
        Some(n) => Some(n as u32),
        None => None,
    }
}

/// Reads a `u64` from text.
pub fn parse_u64(s: &str) -> (r: Option<u64>)
    ensures
        match r {
            Some(n) => spelled_up_to(s@, u64::MAX as nat) == Some(n as nat),
            None => spelled_up_to(s@, u64::MAX as nat) is None,
        },
{
    parse_up_to(s, u64::MAX)
}

pub(crate) proof fn dec_digits(n: nat)
    ensures
        all_digits(dec(n)),
        dec(n).len() > 0,
        digits_value(dec(n)) == n,
    decreases n,
{
    reveal_with_fuel(digits_value, 2);
    if n < 10 {
        assert(dec(n).drop_last() =~= Seq::<char>::empty());
    } else {
        dec_digits(n / 10);
        assert(dec(n).drop_last() =~= dec(n / 10));
        assert forall|i: int| 0 <= i < dec(n).len() implies is_digit(#[trigger] dec(n)[i]) by {
            if i < dec(n / 10).len() {
                assert(dec(n)[i] == dec(n / 10)[i]);
            }
        }
    }
}

/// Reading a rendered number gives the number back.
pub proof fn reading_undoes_rendering(n: nat)
    ensures
        spelled(dec(n)) == Some(n),
{
    dec_digits(n);
    assert(is_digit(dec(n)[0]));
}

/// A numeral that something other than a digit follows can be told from what
/// follows it.
pub proof fn numeral_ends_at_its_unit(a: nat, b: nat, u: Seq<char>, v: Seq<char>)
    requires
        u.len() > 0 && !is_digit(u[0]),
        v.len() > 0 && !is_digit(v[0]),
        dec(a) + u == dec(b) + v,
    ensures
        a == b,
        u == v,
{
    dec_digits(a);
    dec_digits(b);
    let p = dec(a) + u;
    let q = dec(b) + v;
    let m: int = dec(a).len() as int;
    let n: int = dec(b).len() as int;
    assert(p[m] == u[0]);
    assert(q[n] == v[0]);
    if m < n {
        assert(q[m] == dec(b)[m]);
    }
    if n < m {
        assert(p[n] == dec(a)[n]);
    }
    assert(p.take(m) =~= dec(a));
    assert(q.take(n) =~= dec(b));
    assert(p.skip(m) =~= u);
    assert(q.skip(n) =~= v);
}

/// A numeral has no white space around it.
pub proof fn numeral_is_trimmed(n: nat)
    ensures
        crate::text::trimmed(dec(n)) == dec(n),
{
    dec_digits(n);
    assert(is_digit(dec(n)[0]));
    assert(is_digit(dec(n).last()));
}



} // verus!
