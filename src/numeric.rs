use vstd::prelude::*;
use vstd::arithmetic::power::pow;
use vstd::arithmetic::power2::{pow2, lemma_pow2_adds, lemma_pow2_strictly_increases, lemma2_to64, lemma2_to64_rest};
use vstd::arithmetic::div_mod::{lemma_div_denominator, lemma_small_mod};
use vstd::arithmetic::mul::{lemma_mul_inequality, lemma_mul_is_associative};

verus! {

pub open spec fn fits_i128(x: int) -> bool {
    i128::MIN <= x <= i128::MAX
}

/// `o`, where it holds a value within `lo..=hi`.
pub open spec fn within(o: Option<int>, lo: int, hi: int) -> Option<int> {
    match o {
        Some(x) => if lo <= x <= hi {
            Some(x)
        } else {
            None
        },
        None => None,
    }
}

pub open spec fn widen128(o: Option<i128>) -> Option<int> {
    match o {
        Some(x) => Some(x as int),
        None => None,
    }
}

/// The unsigned value of big-endian bytes.
pub open spec fn be_unsigned(s: Seq<u8>) -> nat
    decreases s.len(),
{
    if s.len() == 0 {
        0
    } else {
        be_unsigned(s.drop_last()) * 256 + s.last() as nat
    }
}

/// The value of big-endian two's-complement bytes; no bytes are zero.
pub open spec fn be_signed(s: Seq<u8>) -> int {
    if s.len() > 0 && s[0] >= 128 {
        be_unsigned(s) - pow(256, s.len())
    } else {
        be_unsigned(s) as int
    }
}

/// Relies on num's `BigInt::from_signed_bytes_be`, which reads big-endian
/// two's complement (the empty slice as zero), and on `to_i128` of
/// `ToPrimitive`, which gives the value exactly when it fits in an `i128`.
#[verifier::external_body]
fn signed_bytes_to_i128(bytes: &Vec<u8>) -> (r: Option<i128>)
    ensures
        widen128(r) == within(Some(be_signed(bytes@)), i128::MIN as int, i128::MAX as int),
{
    num::ToPrimitive::to_i128(&num::BigInt::from_signed_bytes_be(bytes.as_slice()))
}

/// The value of a decimal cell's bytes, as an `i128` where it fits; empty
/// bytes stand for no value.
pub fn decimal_value(bytes: &Vec<u8>) -> (r: Option<i128>)
    ensures
        bytes@.len() == 0 ==> r is None,
        bytes@.len() > 0 ==> widen128(r) == within(
            Some(be_signed(bytes@)),
            i128::MIN as int,
            i128::MAX as int,
        ),
{
    if bytes.len() == 0 {
        None
    } else {
        signed_bytes_to_i128(bytes)
    }
}

/// The integer that an IEEE 754 bit pattern with `frac_w` fraction bits and
/// `exp_w` exponent bits stands for, where it is finite and integral.
pub open spec fn float_integer(bits: nat, frac_w: nat, exp_w: nat) -> Option<int> {
    let frac = bits % pow2(frac_w);
    let exp = (bits / pow2(frac_w)) % pow2(exp_w);
    let negative = (bits / pow2(frac_w + exp_w)) % 2 == 1;
    if exp == pow2(exp_w) - 1 {
        None
    } else if exp == 0 {
        if frac == 0 {
            Some(0)
        } else {
            None
        }
    } else {
        let m = frac + pow2(frac_w);
        let shift = exp - (pow2((exp_w - 1) as nat) - 1) - frac_w;
        let magnitude = if shift >= 0 {
            Some(m * pow2(shift as nat))
        } else if m % pow2((-shift) as nat) == 0 {
            Some(m / pow2((-shift) as nat))
        } else {
            None
        };
        match magnitude {
            Some(x) => Some(
                if negative {
                    -x
                } else {
                    x as int
                },
            ),
            None => None,
        }
    }
}

/// The integer value of a finite, integral float given by its bit pattern
/// (`frac_w` fraction and `exp_w` exponent bits), where it fits in an `i128`.
pub fn float_bits_integer(bits: u64, frac_w: u64, exp_w: u64) -> (r: Option<i128>)
    requires
        (frac_w == 52 && exp_w == 11) || (frac_w == 23 && exp_w == 8 && bits < 0x1_0000_0000),
    ensures
        widen128(r) == within(
            float_integer(bits as nat, frac_w as nat, exp_w as nat),
            i128::MIN as int,
            i128::MAX as int,
        ),
{
    let ghost spec_r = float_integer(bits as nat, frac_w as nat, exp_w as nat);
    let p: u64 = if frac_w == 52 { 0x10_0000_0000_0000 } else { 0x80_0000 };
    let pe: u64 = if exp_w == 11 { 2048 } else { 256 };
    let bias: u64 = if exp_w == 11 { 1023 } else { 127 };
    proof {
        lemma2_to64();
        lemma2_to64_rest();
        lemma_pow2_adds(frac_w as nat, exp_w as nat);
        lemma_div_denominator(bits as int, p as int, pe as int);
    }
    let frac = bits % p;
    let q = bits / p;
    let exp = q % pe;
    let negative = (q / pe) % 2 == 1;
    if exp == pe - 1 {
        return None;
    }
    if exp == 0 {
        return if frac == 0 {
            Some(0)
        } else {
            None
        };
    }
    let m: u64 = frac + p;
    if exp >= bias + frac_w {
        let shift: u64 = exp - bias - frac_w;
        assert(spec_r == if negative {
            Some(-(m * pow2(shift as nat)))
        } else {
            Some(m * pow2(shift as nat) as int)
        });
        let mut x: u128 = m as u128;
        let mut k: u64 = 0;
        while k < shift
            invariant
                0 <= k <= shift,
                x == m * pow2(k as nat),
                x <= 0x8000_0000_0000_0000_0000_0000_0000_0000u128,
                m < 0x20_0000_0000_0000,
                shift < 2048,
                spec_r == float_integer(bits as nat, frac_w as nat, exp_w as nat),
                spec_r == if negative {
                    Some(-(m * pow2(shift as nat)))
                } else {
                    Some(m * pow2(shift as nat) as int)
                },
            decreases shift - k,
        {
            if x > 0x4000_0000_0000_0000_0000_0000_0000_0000u128 {
                proof {
                    let rest = (shift - k) as nat;
                    lemma_pow2_adds(k as nat, rest);
                    lemma_mul_is_associative(m as int, pow2(k as nat) as int, pow2(rest) as int);
                    lemma2_to64();
                    lemma_pow2_strictly_increases(0, rest);
                    lemma_mul_inequality(2, pow2(rest) as int, x as int);
                    assert(m * pow2(shift as nat) == x * pow2(rest));
                    assert(x * pow2(rest) == pow2(rest) * x) by (nonlinear_arith);
                    assert(m * pow2(shift as nat) > 0x8000_0000_0000_0000_0000_0000_0000_0000u128);
                    assert(within(spec_r, i128::MIN as int, i128::MAX as int) is None);
                }
                return None;
            }
            proof {
                lemma2_to64();
                lemma_pow2_adds(k as nat, 1);
                lemma_mul_is_associative(m as int, pow2(k as nat) as int, 2);
            }
            x = x * 2;
            k = k + 1;
        }
        if negative {
            if x == 0x8000_0000_0000_0000_0000_0000_0000_0000u128 {
                Some(i128::MIN)
            } else {
                Some(-(x as i128))
            }
        } else {
            if x == 0x8000_0000_0000_0000_0000_0000_0000_0000u128 {
                None
            } else {
                Some(x as i128)
            }
        }
    } else {
        let d: u64 = bias + frac_w - exp;
        if d > 60 {
            proof {
                lemma2_to64_rest();
                lemma_pow2_strictly_increases(60, d as nat);
                lemma_small_mod(m as nat, pow2(d as nat));
            }
            return None;
        }
        let pd: u64 = 1u64 << d;
        proof {
            vstd::bits::lemma_u64_pow2_no_overflow(d as nat);
            vstd::bits::lemma_u64_shl_is_mul(1, d);
        }
        if m % pd != 0 {
            return None;
        }
        let mag: u64 = m / pd;
        if negative {
            Some(-(mag as i128))
        } else {
            Some(mag as i128)
        }
    }
}

} // verus!
