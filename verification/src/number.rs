//! Coordinates and bounding boxes hold binary64 values. A JSON integer
//! read into one is rounded to the nearest binary64 value, ties to even,
//! as a cast of the integer to a binary64 number rounds it.
//!
//! A binary64 value is kept as its bit pattern: the sign bit, then eleven
//! bits of biased exponent, then the fifty-two bits that follow the
//! leading one of the significand.
use crate::json::JsonNumber;
use vstd::prelude::*;

verus! {

/// Two to the power `e`.
pub open spec fn power_of_two(e: nat) -> nat
    decreases e,
{
    if e == 0 {
        1
    } else {
        2 * power_of_two((e - 1) as nat)
    }
}

/// The exponent of the highest power of two not above `a` (0 for 0 and 1).
pub open spec fn log2_floor(a: nat) -> nat
    decreases a,
{
    if a < 2 {
        0
    } else {
        1 + log2_floor(a / 2)
    }
}

/// The fifty-three significant bits of a positive integer, leading one
/// included: exact where the integer has at most fifty-three bits, rounded
/// to the nearest, ties to even, where it has more. The result lies
/// between 2^52 and 2^53, both included; 2^53 is where rounding carries
/// into the exponent.
pub open spec fn significand(a: nat) -> nat {
    let e = log2_floor(a);
    if e <= 52 {
        a * power_of_two((52 - e) as nat)
    } else {
        let d = power_of_two((e - 52) as nat);
        let q = a / d;
        let r = a % d;
        if 2 * r > d || (2 * r == d && q % 2 == 1) {
            q + 1
        } else {
            q
        }
    }
}

/// The bit pattern of the binary64 value nearest to the non-negative
/// integer `a`, ties to even: biased exponent `log2_floor(a) + 1023`, and
/// the significand without its leading one. A significand of 2^53 is the
/// next power of two, one exponent up.
pub open spec fn magnitude_bits(a: nat) -> nat {
    if a == 0 {
        0
    } else {
        ((log2_floor(a) + 1023) * power_of_two(52) + significand(a) - power_of_two(52)) as nat
    }
}

/// A JSON number as a binary64 value: an integer is rounded to the nearest
/// binary64 value, ties to even, with the sign bit set for a negative one;
/// a binary64 value stays as it is.
pub open spec fn float_of(n: JsonNumber) -> JsonNumber {
    match n {
        JsonNumber::PosInt(u) => JsonNumber::Float(magnitude_bits(u as nat) as u64),
        JsonNumber::NegInt(i) => JsonNumber::Float(
            if i < 0 {
                (power_of_two(63) + magnitude_bits((-i) as nat)) as u64
            } else {
                magnitude_bits(i as nat) as u64
            },
        ),
        JsonNumber::Float(b) => JsonNumber::Float(b),
    }
}

proof fn lemma_power_of_two_values()
    ensures
        power_of_two(11) == 2048,
        power_of_two(52) == 0x10_0000_0000_0000,
        power_of_two(63) == 0x8000_0000_0000_0000,
{
    reveal_with_fuel(power_of_two, 64);
}

proof fn lemma_power_of_two_adds(a: nat, b: nat)
    ensures
        power_of_two(a + b) == power_of_two(a) * power_of_two(b),
    decreases b,
{
    if b > 0 {
        let x = power_of_two(a);
        let y = power_of_two((b - 1) as nat);
        lemma_power_of_two_adds(a, (b - 1) as nat);
        assert((a + (b - 1) as nat) as nat == (a + b - 1) as nat);
        assert(power_of_two((a + b - 1) as nat) == x * y);
        assert(power_of_two(a + b) == 2 * power_of_two((a + b - 1) as nat));
        assert(power_of_two(b) == 2 * y);
        assert(2 * (x * y) == x * (2 * y)) by (nonlinear_arith);
        assert(power_of_two(a + b) == x * power_of_two(b));
    } else {
        assert(power_of_two(0) == 1);
        assert(a + b == a);
    }
}

proof fn lemma_power_of_two_grows(a: nat, b: nat)
    requires
        a <= b,
    ensures
        power_of_two(a) <= power_of_two(b),
        power_of_two(a) >= 1,
    decreases b,
{
    if b > a {
        lemma_power_of_two_grows(a, (b - 1) as nat);
    } else if a > 0 {
        lemma_power_of_two_grows((a - 1) as nat, (a - 1) as nat);
    }
}

/// `e` is the exponent of the highest power of two not above `a`.
proof fn lemma_log2_floor(a: nat, e: nat)
    requires
        power_of_two(e) <= a < 2 * power_of_two(e),
    ensures
        log2_floor(a) == e,
    decreases e,
{
    if e > 0 {
        lemma_power_of_two_grows(0, (e - 1) as nat);
        assert(a >= 2);
        lemma_log2_floor(a / 2, (e - 1) as nat);
    } else {
        assert(a == 1);
    }
}

/// The bit pattern of the binary64 value nearest to `a`, ties to even.
fn magnitude(a: u64) -> (r: u64)
    ensures
        r as nat == magnitude_bits(a as nat),
        r < 0x8000_0000_0000_0000,
{
    if a == 0 {
        return 0;
    }
    proof {
        lemma_power_of_two_values();
    }
    // The highest power of two not above `a`.
    let mut e: u64 = 0;
    let mut p: u64 = 1;
    while p <= a / 2
        invariant
            1 <= p <= a,
            p as nat == power_of_two(e as nat),
            e <= 63,
            power_of_two(63) == 0x8000_0000_0000_0000,
        decreases a - p,
    {
        proof {
            if e == 63 {
                assert(false);
            }
        }
        p = p * 2;
        e = e + 1;
    }
    proof {
        lemma_log2_floor(a as nat, e as nat);
        lemma_power_of_two_values();
    }
    let m: u64 = if e <= 52 {
        let mut d: u64 = 1;
        let mut s: u64 = 0;
        proof {
            lemma_power_of_two_grows(0, (52 - e) as nat);
        }
        while s < 52 - e
            invariant
                e <= 52,
                s <= 52 - e,
                d as nat == power_of_two(s as nat),
                d as nat <= power_of_two((52 - e) as nat),
                power_of_two(52) == 0x10_0000_0000_0000,
            decreases 52 - e - s,
        {
            proof {
                lemma_power_of_two_grows((s + 1) as nat, (52 - e) as nat);
                lemma_power_of_two_grows((52 - e) as nat, 52);
            }
            d = d * 2;
            s = s + 1;
        }
        proof {
            lemma_power_of_two_adds(e as nat, (52 - e) as nat);
            assert((e + (52 - e)) as nat == 52nat);
            vstd::arithmetic::mul::lemma_mul_inequality(
                power_of_two(e as nat) as int,
                a as int,
                d as int,
            );
            vstd::arithmetic::mul::lemma_mul_strict_inequality(
                a as int,
                2 * power_of_two(e as nat) as int,
                d as int,
            );
            vstd::arithmetic::mul::lemma_mul_is_associative(
                2,
                power_of_two(e as nat) as int,
                d as int,
            );
        }
        a * d
    } else {
        let k: u64 = e - 52;
        let mut d: u64 = 1;
        let mut s: u64 = 0;
        proof {
            lemma_power_of_two_grows(0, k as nat);
        }
        while s < k
            invariant
                k == e - 52,
                k <= 11,
                s <= k,
                d as nat == power_of_two(s as nat),
                d as nat <= power_of_two(k as nat),
                power_of_two(11) == 2048,
            decreases k - s,
        {
            proof {
                lemma_power_of_two_grows((s + 1) as nat, k as nat);
                lemma_power_of_two_grows(k as nat, 11);
            }
            d = d * 2;
            s = s + 1;
        }
        let q = a / d;
        let r = a % d;
        proof {
            lemma_power_of_two_adds(52, k as nat);
            assert((52 + k) as nat == e as nat);
            // 2^52 * d <= a < 2^53 * d, so 2^52 <= q < 2^53.
            vstd::arithmetic::div_mod::lemma_fundamental_div_mod(a as int, d as int);
            if q >= 0x20_0000_0000_0000 {
                vstd::arithmetic::mul::lemma_mul_inequality(
                    0x20_0000_0000_0000,
                    q as int,
                    d as int,
                );
                assert(false);
            }
            if q < 0x10_0000_0000_0000 {
                vstd::arithmetic::mul::lemma_mul_inequality(
                    q + 1,
                    0x10_0000_0000_0000,
                    d as int,
                );
                assert((q + 1) * d == d * q + d) by (nonlinear_arith);
                assert(false);
            }
        }
        if 2 * r > d || (2 * r == d && q % 2 == 1) {
            q + 1
        } else {
            q
        }
    };
    (e + 1023) * 0x10_0000_0000_0000 + m - 0x10_0000_0000_0000
}

/// A JSON number as a binary64 value; see [`float_of`].
pub fn to_float(n: JsonNumber) -> (r: JsonNumber)
    ensures
        r == float_of(n),
{
    proof {
        lemma_power_of_two_values();
    }
    match n {
        JsonNumber::PosInt(u) => JsonNumber::Float(magnitude(u)),
        JsonNumber::NegInt(i) => {
            if i < 0 {
                let a: u64 = (0i128 - i as i128) as u64;
                JsonNumber::Float(0x8000_0000_0000_0000 + magnitude(a))
            } else {
                JsonNumber::Float(magnitude(i as u64))
            }
        },
        JsonNumber::Float(b) => JsonNumber::Float(b),
    }
}

} // verus!
