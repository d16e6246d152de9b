//! Numbers are IEEE-754 doubles, held as their 64-bit patterns. The comparisons, the zero
//! test and negation read the pattern directly; arithmetic, reading and printing are left to
//! the caller (the `arith` argument of evaluation, the `parse` argument of scanning, the `show`
//! argument of printing).
use vstd::prelude::*;
use vstd::arithmetic::power2::{lemma2_to64, lemma2_to64_rest, lemma_pow2_adds, lemma_pow2_pos, lemma_pow2_strictly_increases, lemma_pow2_unfold, pow2};

verus! {

pub const SIGN_BIT: u64 = 0x8000_0000_0000_0000;

pub const INFINITY_BITS: u64 = 0x7FF0_0000_0000_0000;

/// The pattern without its sign bit.
pub open spec fn magnitude(b: u64) -> int {
    (b % 0x8000_0000_0000_0000) as int
}

pub open spec fn negative(b: u64) -> bool {
    b >= 0x8000_0000_0000_0000
}

/// A NaN has every exponent bit set and a non-zero fraction.
pub open spec fn nan_bits(b: u64) -> bool {
    magnitude(b) > 0x7FF0_0000_0000_0000
}

/// Both zeros.
pub open spec fn zero_bits(b: u64) -> bool {
    magnitude(b) == 0
}

/// A key whose integer order is the order of the non-NaN doubles; both zeros get key 0.
pub open spec fn order_key(b: u64) -> int {
    if negative(b) {
        -magnitude(b)
    } else {
        magnitude(b)
    }
}

/// `a == b` on doubles: false when either is NaN, true for the two zeros.
pub open spec fn num_eq(a: u64, b: u64) -> bool {
    !nan_bits(a) && !nan_bits(b) && order_key(a) == order_key(b)
}

/// `a < b` on doubles: false when either is NaN.
pub open spec fn num_lt(a: u64, b: u64) -> bool {
    !nan_bits(a) && !nan_bits(b) && order_key(a) < order_key(b)
}

/// `a <= b` on doubles: false when either is NaN.
pub open spec fn num_le(a: u64, b: u64) -> bool {
    !nan_bits(a) && !nan_bits(b) && order_key(a) <= order_key(b)
}

/// `-b` on doubles flips the sign bit, NaN included.
pub open spec fn num_neg(b: u64) -> u64 {
    if negative(b) {
        (b - 0x8000_0000_0000_0000) as u64
    } else {
        (b + 0x8000_0000_0000_0000) as u64
    }
}

fn magnitude_of(b: u64) -> (r: u64)
    ensures
        r == magnitude(b),
{
    b % SIGN_BIT
}

fn key_of(b: u64) -> (r: i128)
    ensures
        r == order_key(b),
{
    let m = magnitude_of(b) as i128;
    if b >= SIGN_BIT {
        -m
    } else {
        m
    }
}

pub fn is_nan(b: u64) -> (r: bool)
    ensures
        r == nan_bits(b),
{
    magnitude_of(b) > INFINITY_BITS
}

pub fn is_zero(b: u64) -> (r: bool)
    ensures
        r == zero_bits(b),
{
    magnitude_of(b) == 0
}

pub fn equal(a: u64, b: u64) -> (r: bool)
    ensures
        r == num_eq(a, b),
{
    !is_nan(a) && !is_nan(b) && key_of(a) == key_of(b)
}

pub fn less(a: u64, b: u64) -> (r: bool)
    ensures
        r == num_lt(a, b),
{
    !is_nan(a) && !is_nan(b) && key_of(a) < key_of(b)
}

pub fn less_equal(a: u64, b: u64) -> (r: bool)
    ensures
        r == num_le(a, b),
{
    !is_nan(a) && !is_nan(b) && key_of(a) <= key_of(b)
}

pub fn negate(b: u64) -> (r: u64)
    ensures
        r == num_neg(b),
{
    if b >= SIGN_BIT {
        b - SIGN_BIT
    } else {
        b + SIGN_BIT
    }
}

// ---------------------------------------------------------------- integers as doubles

/// The number of binary digits of `v`.
pub open spec fn bit_length(v: nat) -> nat
    decreases v,
{
    if v == 0 {
        0
    } else {
        1 + bit_length(v / 2)
    }
}

/// `q0` rounded up when the dropped part `r` is over half a unit, or exactly half and `q0` odd.
pub open spec fn round_half_even(q0: nat, r: nat, half: nat) -> nat {
    if r > half || (r == half && q0 % 2 == 1) {
        q0 + 1
    } else {
        q0
    }
}

/// The 53-bit significand (leading one included) and the exponent of the double nearest to
/// `v > 0`, ties to even.
pub open spec fn significand(v: nat) -> (nat, nat) {
    let n = bit_length(v);
    if n <= 53 {
        (v * pow2((53 - n) as nat), (n - 1) as nat)
    } else {
        let s = (n - 53) as nat;
        let q = round_half_even(v / pow2(s), v % pow2(s), pow2((s - 1) as nat));
        if q == pow2(53) {
            (pow2(52), n)
        } else {
            (q, (n - 1) as nat)
        }
    }
}

/// The pattern of the double nearest to `i`, ties to even: what `i as f64` gives.
pub open spec fn int_to_bits(i: i64) -> u64 {
    if i == 0 {
        0
    } else {
        let v = (if i < 0 {
            -(i as int)
        } else {
            i as int
        }) as nat;
        let (q, e) = significand(v);
        let body = (e + 1023) * pow2(52) + (q - pow2(52));
        (if i < 0 {
            0x8000_0000_0000_0000 + body
        } else {
            body
        }) as u64
    }
}

proof fn lemma_bit_length_bounds(v: nat)
    requires
        v >= 1,
    ensures
        bit_length(v) >= 1,
        pow2((bit_length(v) - 1) as nat) <= v < pow2(bit_length(v)),
    decreases v,
{
    lemma2_to64();
    if v >= 2 {
        let b = bit_length(v / 2);
        lemma_bit_length_bounds(v / 2);
        assert(bit_length(v) == b + 1);
        lemma_pow2_unfold(b + 1);
        lemma_pow2_unfold(b);
        assert(pow2((b - 1) as nat) <= v / 2 < pow2(b));
        assert(pow2(b) <= v);
        assert(v < pow2(b + 1));
    } else {
        assert(v == 1);
        assert(bit_length(0) == 0);
        assert(bit_length(1) == 1);
    }
}

proof fn lemma_bit_length_at_most_64(v: nat)
    requires
        1 <= v <= 0x8000_0000_0000_0000,
    ensures
        bit_length(v) <= 64,
{
    lemma2_to64();
    lemma2_to64_rest();
    lemma_bit_length_bounds(v);
    if bit_length(v) > 64 {
        lemma_pow2_strictly_increases(63, (bit_length(v) - 1) as nat);
    }
}

proof fn lemma_bit_length_step(m: nat)
    requires
        m > 0,
    ensures
        bit_length(m) == 1 + bit_length(m / 2),
{
}

/// `2^k`.
fn power_of_two(k: u64) -> (r: u64)
    requires
        k <= 63,
    ensures
        r == pow2(k as nat),
{
    proof {
        lemma2_to64();
        lemma2_to64_rest();
    }
    let mut p: u64 = 1;
    let mut j: u64 = 0;
    while j < k
        invariant
            j <= k <= 63,
            p == pow2(j as nat),
            pow2(63) == 0x8000_0000_0000_0000,
        decreases k - j,
    {
        proof {
            lemma_pow2_strictly_increases(j as nat, 63);
            lemma_pow2_unfold((j + 1) as nat);
        }
        p = p * 2;
        j += 1;
    }
    p
}

/// The pattern of the double nearest to `i`, ties to even.
pub fn int_to_double(i: i64) -> (r: u64)
    ensures
        r == int_to_bits(i),
{
    if i == 0 {
        return 0;
    }
    let v: u64 = if i < 0 {
        (-(i as i128)) as u64
    } else {
        i as u64
    };
    let ghost vn = v as nat;
    proof {
        lemma2_to64();
        lemma2_to64_rest();
        lemma_bit_length_at_most_64(vn);
        lemma_bit_length_bounds(vn);
    }
    let mut n: u64 = 0;
    let mut m: u64 = v;
    while m > 0
        invariant
            n + bit_length(m as nat) == bit_length(vn),
            bit_length(vn) <= 64,
        decreases m,
    {
        proof {
            lemma_bit_length_step(m as nat);
        }
        m = m / 2;
        n += 1;
    }
    let ghost nn = n as nat;
    assert(nn == bit_length(vn));
    let two52: u64 = 0x10_0000_0000_0000;
    let two53: u64 = 0x20_0000_0000_0000;
    let q: u64;
    let e: u64;
    if n <= 53 {
        let p = power_of_two(53 - n);
        proof {
            lemma_pow2_pos((53 - nn) as nat);
            lemma_pow2_adds((nn - 1) as nat, (53 - nn) as nat);
            lemma_pow2_adds(nn, (53 - nn) as nat);
            assert(pow2((nn - 1) as nat) * p <= vn * p) by (nonlinear_arith)
                requires
                    pow2((nn - 1) as nat) <= vn,
            ;
            assert(vn * p < pow2(nn) * p) by (nonlinear_arith)
                requires
                    vn < pow2(nn),
                    p > 0,
            ;
            lemma_pow2_pos((53 - nn) as nat);
        }
        q = v * p;
        e = n - 1;
    } else {
        let sh = n - 53;
        let p = power_of_two(sh);
        let half = power_of_two(sh - 1);
        let q0 = v / p;
        let rem = v % p;
        proof {
            lemma_pow2_pos(sh as nat);
            lemma_pow2_adds(52, sh as nat);
            lemma_pow2_adds(53, sh as nat);
            assert(pow2(52) * p <= vn);
            assert(vn < pow2(53) * p);
            assert(pow2(52) <= q0 < pow2(53)) by (nonlinear_arith)
                requires
                    pow2(52) * p <= vn,
                    vn < pow2(53) * p,
                    q0 == vn / (p as nat),
                    p > 0,
            ;
        }
        let q1 = if rem > half || (rem == half && q0 % 2 == 1) {
            q0 + 1
        } else {
            q0
        };
        if q1 == two53 {
            q = two52;
            e = n;
        } else {
            q = q1;
            e = n - 1;
        }
    }
    assert(significand(vn) == (q as nat, e as nat));
    let body: u64 = (e + 1023) * two52 + (q - two52);
    if i < 0 {
        0x8000_0000_0000_0000 + body
    } else {
        body
    }
}

} // verus!
