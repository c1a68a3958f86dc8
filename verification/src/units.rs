use vstd::prelude::*;

use crate::text::{decimal, decimal_string, digit};

verus! {

/// `2` to the power `e`.
pub open spec fn two_pow(e: nat) -> nat
    decreases e,
{
    if e == 0 {
        1
    } else {
        2 * two_pow((e - 1) as nat)
    }
}

/// The number of significand bits of a 64-bit float: integers below `2^53` are exact.
pub open spec fn significand_limit() -> nat {
    0x20_0000_0000_0000
}

/// The exponent `e` of the spacing `2^e` between neighbouring 64-bit floats near `b`: the
/// least `e >= start` with `b / 2^e < 2^53`, searched up to 11, which covers all of `u64`.
pub open spec fn spacing_exponent_from(b: nat, e: nat) -> nat
    decreases 11 - e,
{
    if e >= 11 || b / two_pow(e) < significand_limit() {
        e
    } else {
        spacing_exponent_from(b, e + 1)
    }
}

/// The spacing between neighbouring 64-bit floats near `b`.
pub open spec fn float_spacing(b: nat) -> nat {
    two_pow(spacing_exponent_from(b, 0))
}

/// `n / d` rounded to the nearest integer, ties to the even one.
pub open spec fn div_round_even(n: nat, d: nat) -> nat {
    let f = n / d;
    let r = n % d;
    if 2 * r < d {
        f
    } else if 2 * r > d {
        f + 1
    } else if f % 2 == 0 {
        f
    } else {
        f + 1
    }
}

/// The value of `b as f64` for a `u64` value `b`: `b` rounded to the nearest multiple of
/// the float spacing near it, ties to the even multiple.
pub open spec fn as_float(b: nat) -> nat {
    div_round_even(b, float_spacing(b)) * float_spacing(b)
}

/// `1024` to the power `i`, for the units up to terabytes.
pub open spec fn unit_divisor(i: nat) -> nat {
    if i == 0 {
        1
    } else if i == 1 {
        1024
    } else if i == 2 {
        1048576
    } else if i == 3 {
        1073741824
    } else {
        1099511627776
    }
}

/// The unit in which `b` bytes are shown: the largest of B, KB, MB, GB, TB whose size is at
/// most `b` (B for zero).
pub open spec fn unit_index(b: nat) -> nat {
    if b < 1024 {
        0
    } else if b < 1048576 {
        1
    } else if b < 1073741824 {
        2
    } else if b < 1099511627776 {
        3
    } else {
        4
    }
}

/// The name of unit `i`.
pub open spec fn unit_name(i: nat) -> Seq<char> {
    if i == 0 {
        seq!['B']
    } else if i == 1 {
        seq!['K', 'B']
    } else if i == 2 {
        seq!['M', 'B']
    } else if i == 3 {
        seq!['G', 'B']
    } else {
        seq!['T', 'B']
    }
}

/// The amount of `b` bytes in its unit, in tenths, as shown with one decimal: the float
/// value of `b` divided by the unit, rounded to tenths, ties to even.
pub open spec fn tenths_shown(b: nat) -> nat {
    div_round_even(as_float(b) * 10, unit_divisor(unit_index(b)))
}

/// The text shown for an amount of `b` bytes: `"<b> B"` below one kilobyte, else the amount
/// in the largest fitting unit with one decimal, as in `"1.5 KB"`.
pub open spec fn byte_size_text(b: nat) -> Seq<char> {
    if unit_index(b) == 0 {
        decimal(b) + seq![' ', 'B']
    } else {
        let t = tenths_shown(b);
        decimal(t / 10) + seq!['.', digit(t % 10), ' '] + unit_name(unit_index(b))
    }
}

proof fn lemma_two_pow_monotone(a: nat, b: nat)
    requires
        a <= b,
    ensures
        1 <= two_pow(a) <= two_pow(b),
    decreases b,
{
    if b > a {
        lemma_two_pow_monotone(a, (b - 1) as nat);
    } else if a > 0 {
        lemma_two_pow_monotone((a - 1) as nat, (a - 1) as nat);
    }
}

proof fn lemma_two_pow_small(e: nat)
    requires
        e <= 11,
    ensures
        1 <= two_pow(e) <= 2048,
        e <= 10 ==> two_pow(e) <= 1024,
{
    reveal_with_fuel(two_pow, 12);
    assert(two_pow(10) == 1024);
    assert(two_pow(11) == 2048);
    if e <= 10 {
        lemma_two_pow_monotone(e, 10);
    } else {
        lemma_two_pow_monotone(e, 11);
    }
}

/// Below `2^53` a byte count is exact as a float.
pub proof fn lemma_as_float_exact(b: nat)
    requires
        b < significand_limit(),
    ensures
        as_float(b) == b,
{
    assert(b / 1 == b && b % 1 == 0) by (nonlinear_arith);
    assert(two_pow(0) == 1);
    assert(spacing_exponent_from(b, 0) == 0);
    assert(float_spacing(b) == 1);
    assert(div_round_even(b, 1) == b);
    assert(b * 1 == b);
}

fn unit_str(i: u64) -> (r: &'static str)
    requires
        1 <= i <= 4,
    ensures
        r@ == unit_name(i as nat),
{
    proof {
        reveal_strlit("KB");
        reveal_strlit("MB");
        reveal_strlit("GB");
        reveal_strlit("TB");
    }
    if i == 1 {
        "KB"
    } else if i == 2 {
        "MB"
    } else if i == 3 {
        "GB"
    } else {
        "TB"
    }
}

/// The text shown for an amount of bytes, such as `"512 B"` or `"1.5 KB"`.
pub fn format_bytes(bytes: u64) -> (r: String)
    ensures
        r@ == byte_size_text(bytes as nat),
{
    if bytes < 1024 {
        let mut s = decimal_string(bytes);
        proof {
            reveal_strlit(" B");
        }
        s.append(" B");
        return s;
    }
    // The float spacing near `bytes`.

    let mut e: u64 = 0;
    let mut q: u64 = 1;
    while e < 11 && bytes / q >= 0x20_0000_0000_0000
        invariant
            e <= 11,
            1 <= q <= 2048,
            e <= 10 ==> q <= 1024,
            q == two_pow(e as nat),
            spacing_exponent_from(bytes as nat, e as nat) == spacing_exponent_from(bytes as nat, 0),
        decreases 11 - e,
    {
        proof {
            lemma_two_pow_small(e as nat);
        }
        q = q * 2;
        e = e + 1;
        proof {
            lemma_two_pow_small(e as nat);
        }
    }
    proof {
        lemma_two_pow_small(e as nat);
    }
    assert(q == float_spacing(bytes as nat));
    let f = bytes / q;
    let rem = bytes % q;
    let up = if 2 * rem < q {
        false
    } else if 2 * rem > q {
        true
    } else {
        f % 2 == 1
    };
    assert(f * q <= bytes && (f + 1) * q <= 0x1_0000_0000_0000_0800) by (nonlinear_arith)
        requires
            f == bytes / q,
            1 <= q <= 2048,
            bytes <= 0xFFFF_FFFF_FFFF_FFFF,
    {
    }
    let rounded: u128 = if up {
        (f as u128 + 1) * q as u128
    } else {
        f as u128 * q as u128
    };
    assert(rounded == as_float(bytes as nat));
    assert(rounded <= 0x1_0000_0000_0000_0800);
    let u: u64 = if bytes < 1048576 {
        1
    } else if bytes < 1073741824 {
        2
    } else if bytes < 1099511627776 {
        3
    } else {
        4
    };
    let d: u128 = if u == 1 {
        1024
    } else if u == 2 {
        1048576
    } else if u == 3 {
        1073741824
    } else {
        1099511627776
    };
    assert(u == unit_index(bytes as nat) && d == unit_divisor(u as nat));
    let n: u128 = rounded * 10;
    let t0 = n / d;
    let r0 = n % d;
    let t: u128 = if 2 * r0 < d {
        t0
    } else if 2 * r0 > d {
        t0 + 1
    } else if t0 % 2 == 0 {
        t0
    } else {
        t0 + 1
    };
    assert(t == tenths_shown(bytes as nat));
    assert(t / 10 < 0x1_0000_0000_0000_0000) by (nonlinear_arith)
        requires
            t <= n / d + 1,
            n <= 0x10_0000_0000_0000_5000,
            d >= 1024,
    {
        assert(n / d <= n / 1024);
    }
    let whole = (t / 10) as u64;
    let tenth = (t % 10) as u64;
    let mut s = decimal_string(whole);
    let digits = decimal_string(tenth);
    assert(digits@ == seq![digit(tenth as nat)]);
    proof {
        reveal_strlit(".");
        reveal_strlit(" ");
    }
    s.append(".");
    s.append(digits.as_str());
    s.append(" ");
    s.append(unit_str(u));
    assert(s@ =~= byte_size_text(bytes as nat));
    s
}

} // verus!
