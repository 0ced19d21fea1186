//! Word-level arithmetic used by the secondary instructions: bit counts, bit
//! reversal, normalisation, sign extension and division toward zero.
use crate::proc::semantics::{
    div_toward_zero, double_of, normalise, popcount, rem_toward_zero, reverse_bits,
    reverse_low_bits, sign_extend,
};
use vstd::arithmetic::power2::{lemma2_to64, lemma_pow2_strictly_increases, lemma_pow2_unfold, pow2};
use vstd::prelude::*;

verus! {

/// `2^n`.
pub fn pow2_u64(n: u32) -> (r: u64)
    requires
        n <= 63,
    ensures
        r as nat == pow2(n as nat),
        r >= 1,
{
    let mut r: u64 = 1;
    let mut i: u32 = 0;
    proof {
        lemma2_to64();
    }
    while i < n
        invariant
            i <= n <= 63,
            r as nat == pow2(i as nat),
            r >= 1,
        decreases n - i,
    {
        proof {
            lemma_pow2_unfold((i + 1) as nat);
            if i < 62 {
                lemma_pow2_strictly_increases(i as nat, 62);
            }
            vstd::arithmetic::power2::lemma2_to64_rest();
        }
        r = r * 2;
        i = i + 1;
    }
    r
}

proof fn lemma_popcount_le(x: nat)
    ensures
        popcount(x) <= x,
    decreases x,
{
    if x > 0 {
        lemma_popcount_le(x / 2);
    }
}

/// Number of set bits of `x`.
pub fn bit_count(x: u32) -> (r: u32)
    ensures
        r as nat == popcount(x as nat),
{
    let mut v: u32 = x;
    let mut n: u64 = 0;
    proof {
        lemma_popcount_le(x as nat);
    }
    while v > 0
        invariant
            n + popcount(v as nat) == popcount(x as nat),
            popcount(x as nat) <= x,
        decreases v,
    {
        proof {
            lemma_popcount_le(x as nat);
        }
        n = n + (v % 2) as u64;
        v = v / 2;
    }
    proof {
        lemma_popcount_le(x as nat);
    }
    n as u32
}

/// `x` with its low `n` bits reversed and the others kept.
pub fn reverse_low(x: u32, n: u32) -> (r: u32)
    requires
        n <= 32,
    ensures
        r == reverse_low_bits(x, n as nat),
{
    let p = pow2_u64(n);
    let high: u64 = (x as u64 / p) * p;
    let mut low: u64 = x as u64 % p;
    let mut acc: u64 = 0;
    let mut k: u32 = n;
    proof {
        lemma2_to64();
        lemma_pow2_strictly_increases(n as nat, 33);
        assert(pow2(33) == 0x2_0000_0000) by {
            vstd::arithmetic::power2::lemma2_to64_rest();
        }
        assert(high <= x) by (nonlinear_arith)
            requires
                high == (x as u64 / p) * p,
                p > 0,
        ;
    }
    while k > 0
        invariant
            k <= n <= 32,
            p as nat == pow2(n as nat),
            reverse_bits(x as nat % pow2(n as nat), n as nat) == acc * pow2(k as nat)
                + reverse_bits(low as nat, k as nat),
            acc < pow2((n - k) as nat),
            pow2((n - k) as nat) <= 0x1_0000_0000,
        decreases k,
    {
        let d = low % 2;
        proof {
            lemma_pow2_unfold(k as nat);
            lemma_pow2_unfold((n - k + 1) as nat);
            lemma2_to64();
            if n - k + 1 <= 32 {
                if n - k + 1 < 32 {
                    lemma_pow2_strictly_increases((n - k + 1) as nat, 32);
                }
            }
            let pk1 = pow2((k - 1) as nat);
            assert((2 * acc + d) * pk1 == acc * (2 * pk1) + d * pk1) by (nonlinear_arith);
        }
        acc = acc * 2 + d;
        low = low / 2;
        k = k - 1;
    }
    proof {
        assert(pow2(0) == 1) by {
            lemma2_to64();
        }
        lemma_pow2_strictly_increases(n as nat, 33);
        assert(acc * pow2(0) == acc) by (nonlinear_arith)
            requires
                pow2(0) == 1,
        ;
        assert(acc == reverse_bits(x as nat % pow2(n as nat), n as nat));
        assert(high as nat == (x as nat / pow2(n as nat)) * pow2(n as nat));
    }
    (high + acc) as u32
}

/// Shifts `B:A` left until the top bit is set or 64 shifts have been made.
/// Gives the low word, the high word and the number of shifts.
pub fn normalise_double(hi: i32, lo: i32) -> (r: (i32, i32, i32))
    ensures
        ({
            let (v, n) = normalise(double_of(hi, lo), 0);
            r == ((v % 0x1_0000_0000) as u32 as i32, (v / 0x1_0000_0000) as u32 as i32, n as i32)
        }),
{
    let mut v: u64 = (hi as u32 as u64) * 0x1_0000_0000 + (lo as u32 as u64);
    let mut n: u32 = 0;
    while n < 64 && v < 0x8000_0000_0000_0000
        invariant
            n <= 64,
            normalise(v as nat, n as nat) == normalise(double_of(hi, lo), 0),
        decreases 64 - n,
    {
        v = v * 2;
        n = n + 1;
    }
    ((v % 0x1_0000_0000) as u32 as i32, (v / 0x1_0000_0000) as u32 as i32, n as i32)
}

/// The low `n` bits of `x` read as a signed number.
pub fn sign_extend_bits(x: i32, n: u32) -> (r: i32)
    requires
        1 <= n <= 31,
    ensures
        r == sign_extend(x, n as nat),
{
    let p = pow2_u64(n);
    let h = pow2_u64(n - 1);
    let m: u64 = (x as u32 as u64) % p;
    proof {
        lemma_pow2_strictly_increases(n as nat, 32);
        lemma2_to64();
    }
    if m >= h {
        (m as i64 - p as i64) as i32
    } else {
        m as i32
    }
}

/// `b / a` rounded toward zero.
pub fn div_word(b: i32, a: i32) -> (r: i32)
    requires
        a != 0,
        !(b == i32::MIN && a == -1),
    ensures
        r == div_toward_zero(b as int, a as int) as i32,
{
    let bm: u64 = if b < 0 {
        (-(b as i64)) as u64
    } else {
        b as u64
    };
    let am: u64 = if a < 0 {
        (-(a as i64)) as u64
    } else {
        a as u64
    };
    let q = bm / am;
    proof {
        assert(q <= bm) by (nonlinear_arith)
            requires
                q == bm / am,
                am >= 1,
        ;
    }
    if (b < 0) == (a < 0) {
        q as i64 as i32
    } else {
        (-(q as i64)) as i32
    }
}

/// `b % a` with the sign of `b`.
pub fn rem_word(b: i32, a: i32) -> (r: i32)
    requires
        a != 0,
    ensures
        r == rem_toward_zero(b as int, a as int) as i32,
{
    let bm: u64 = if b < 0 {
        (-(b as i64)) as u64
    } else {
        b as u64
    };
    let am: u64 = if a < 0 {
        (-(a as i64)) as u64
    } else {
        a as u64
    };
    let m = bm % am;
    if b < 0 {
        (-(m as i64)) as i32
    } else {
        m as i64 as i32
    }
}

} // verus!
