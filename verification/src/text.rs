//! Decimal rendering of numbers into strings.
use vstd::prelude::*;

verus! {

/// The character of decimal digit `d` (0 to 9).
pub open spec fn digit_char(d: nat) -> char {
    if d == 0 {
        '0'
    } else if d == 1 {
        '1'
    } else if d == 2 {
        '2'
    } else if d == 3 {
        '3'
    } else if d == 4 {
        '4'
    } else if d == 5 {
        '5'
    } else if d == 6 {
        '6'
    } else if d == 7 {
        '7'
    } else if d == 8 {
        '8'
    } else {
        '9'
    }
}

/// Decimal representation of `n` without leading zeros ("0" for zero), as
/// `Display` prints an unsigned integer.
pub open spec fn decimal(n: nat) -> Seq<char>
    decreases n,
{
    if n < 10 {
        seq![digit_char(n)]
    } else {
        decimal(n / 10).push(digit_char(n % 10))
    }
}

/// A one-character string holding decimal digit `d`.
pub fn digit_str(d: u64) -> (s: &'static str)
    requires
        d < 10,
    ensures
        s@ == seq![digit_char(d as nat)],
{
    proof {
        reveal_strlit("0");
        reveal_strlit("1");
        reveal_strlit("2");
        reveal_strlit("3");
        reveal_strlit("4");
        reveal_strlit("5");
        reveal_strlit("6");
        reveal_strlit("7");
        reveal_strlit("8");
        reveal_strlit("9");
    }
    if d == 0 {
        "0"
    } else if d == 1 {
        "1"
    } else if d == 2 {
        "2"
    } else if d == 3 {
        "3"
    } else if d == 4 {
        "4"
    } else if d == 5 {
        "5"
    } else if d == 6 {
        "6"
    } else if d == 7 {
        "7"
    } else if d == 8 {
        "8"
    } else {
        "9"
    }
}

/// Appends the decimal representation of `n` to `s`.
pub fn push_decimal(s: &mut String, n: u64)
    ensures
        final(s)@ == old(s)@ + decimal(n as nat),
    decreases n,
{
    if n < 10 {
        s.append(digit_str(n));
    } else {
        push_decimal(s, n / 10);
        s.append(digit_str(n % 10));
    }
}

/// `n / d` rounded to the nearest integer, ties to even.
pub open spec fn div_round_even(n: nat, d: nat) -> nat {
    let q = n / d;
    let r = n % d;
    if 2 * r > d || (2 * r == d && q % 2 == 1) {
        q + 1
    } else {
        q
    }
}

/// 2^53, the first integer past the 53-bit significand of an `f64`.
pub open spec fn two_pow_53() -> nat {
    0x20_0000_0000_0000
}

/// The spacing of the `f64` values around `n`: the least power of two
/// `p` (starting from `p`, doubling) with `n / p < 2^53`.
pub open spec fn f64_spacing(n: nat, p: nat) -> nat
    decreases n - p,
{
    if p == 0 || n / p < two_pow_53() || n < 2 * p {
        p
    } else {
        f64_spacing(n, 2 * p)
    }
}

/// The value of `n as f64`: `n` rounded to the nearest multiple of the
/// `f64` spacing around it, ties to even.
pub open spec fn f64_value(n: nat) -> nat {
    let p = f64_spacing(n, 1);
    div_round_even(n, p) * p
}

/// The text of a file size: bytes below 1 KiB, then kibibytes below
/// 1 MiB, then mebibytes, the last two with one decimal (`{:.1}` of the
/// `f64` quotient, rounded half to even).
pub open spec fn file_size_text(bytes: nat) -> Seq<char> {
    if bytes < 1024 {
        decimal(bytes) + seq![' ', 'B']
    } else if bytes < 1048576 {
        let t = div_round_even(bytes * 10, 1024);
        decimal(t / 10) + seq!['.'] + decimal(t % 10) + seq![' ', 'K', 'B']
    } else {
        let t = div_round_even(f64_value(bytes) * 10, 1048576);
        decimal(t / 10) + seq!['.'] + decimal(t % 10) + seq![' ', 'M', 'B']
    }
}

/// Appends the decimal representation of `n` to `s`.
pub(crate) fn push_decimal_u128(s: &mut String, n: u128)
    ensures
        final(s)@ == old(s)@ + decimal(n as nat),
    decreases n,
{
    if n < 10 {
        s.append(digit_str(n as u64));
    } else {
        push_decimal_u128(s, n / 10);
        s.append(digit_str((n % 10) as u64));
    }
}

/// `n / d` rounded to the nearest integer, ties to even.
pub(crate) fn round_div_even(n: u128, d: u128) -> (r: u128)
    requires
        d > 0,
        n / d < u128::MAX,
    ensures
        r == div_round_even(n as nat, d as nat),
{
    let q = n / d;
    let rem = n % d;
    if rem > d - rem || (rem == d - rem && q % 2 == 1) {
        q + 1
    } else {
        q
    }
}

/// The value of `n as f64`, as an integer.
pub(crate) fn f64_value_of(n: u64) -> (r: u128)
    ensures
        r == f64_value(n as nat),
        r <= 2 * n + 1,
{
    let big: u128 = n as u128;
    let mut p: u128 = 1;
    while p > 0 && big / p >= 0x20_0000_0000_0000 && big >= 2 * p
        invariant
            p >= 1,
            p <= big + 1,
            big == n,
            p <= 0x1_0000_0000_0000_0000,
            f64_spacing(n as nat, p as nat) == f64_spacing(n as nat, 1),
        decreases big - p,
    {
        p = 2 * p;
    }
    let q = round_div_even(big, p);
    assert(q <= big / p + 1);
    assert(q * p <= 2 * big + 1) by (nonlinear_arith)
        requires
            q <= big / p + 1,
            p >= 1,
            p <= big + 1,
    {
        assert((big / p) * p <= big);
    }
    q * p
}

/// Human-readable file size: `"{n} B"` below 1 KiB, `"{x:.1} KB"` below
/// 1 MiB, `"{x:.1} MB"` from there on.
pub fn format_file_size(bytes: u64) -> (s: String)
    ensures
        s@ == file_size_text(bytes as nat),
{
    let mut s = String::new();
    proof {
        reveal_strlit(" B");
        reveal_strlit(".");
        reveal_strlit(" KB");
        reveal_strlit(" MB");
    }
    if bytes < 1024 {
        push_decimal(&mut s, bytes);
        s.append(" B");
    } else if bytes < 1048576 {
        let t = round_div_even(bytes as u128 * 10, 1024);
        push_decimal_u128(&mut s, t / 10);
        s.append(".");
        push_decimal_u128(&mut s, t % 10);
        s.append(" KB");
    } else {
        let f = f64_value_of(bytes);
        let t = round_div_even(f * 10, 1048576);
        push_decimal_u128(&mut s, t / 10);
        s.append(".");
        push_decimal_u128(&mut s, t % 10);
        s.append(" MB");
    }
    s
}

/// The footer's position text: `"{current + 1} / {total}"`.
pub fn footer_index_text(current: usize, total: usize) -> (s: String)
    requires
        current < usize::MAX,
    ensures
        s@ == decimal((current + 1) as nat) + seq![' ', '/', ' '] + decimal(total as nat),
{
    let mut s = String::new();
    proof {
        reveal_strlit(" / ");
    }
    push_decimal(&mut s, (current + 1) as u64);
    s.append(" / ");
    push_decimal(&mut s, total as u64);
    s
}

/// The footer's short position text: `"{current + 1}"`.
pub fn footer_short_index_text(current: usize) -> (s: String)
    requires
        current < usize::MAX,
    ensures
        s@ == decimal((current + 1) as nat),
{
    let mut s = String::new();
    push_decimal(&mut s, (current + 1) as u64);
    s
}

/// The footer's resolution text: `"{width}x{height}"`.
pub fn resolution_text(width: usize, height: usize) -> (s: String)
    ensures
        s@ == decimal(width as nat) + seq!['x'] + decimal(height as nat),
{
    let mut s = String::new();
    proof {
        reveal_strlit("x");
    }
    push_decimal(&mut s, width as u64);
    s.append("x");
    push_decimal(&mut s, height as u64);
    s
}

} // verus!
