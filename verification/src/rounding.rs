//! Exact integer arithmetic for the binary64 (`f64`) roundings that the
//! dashboard's number display goes through: converting a `u64` to `f64`,
//! dividing by a power of ten, and writing the quotient with one decimal.
//!
//! Every value here is at least 1 and below 2^65, so every double involved
//! is normal: a double is a 53-bit significand `m` (2^52 <= m <= 2^53)
//! scaled by a power of two, and IEEE 754 rounds to the nearest such
//! value, ties to the even significand.
use vstd::prelude::*;
use vstd::arithmetic::power2::{pow2, lemma_pow2_unfold, lemma_pow2_strictly_increases, lemma2_to64, lemma2_to64_rest, lemma_pow2_pos};

verus! {

/// The number of binary digits of `x` (0 for 0).
pub open spec fn bit_len(x: nat) -> nat
    decreases x,
{
    if x == 0 {
        0
    } else {
        1 + bit_len(x / 2)
    }
}

/// `p / q` rounded to the nearest integer, ties to the even one (`q > 0`).
pub open spec fn round_half_even(p: nat, q: nat) -> nat {
    let f = p / q;
    let r = p % q;
    if 2 * r < q {
        f
    } else if 2 * r > q {
        f + 1
    } else if f % 2 == 0 {
        f
    } else {
        f + 1
    }
}

/// The value of `n as f64`: `n` itself when it has at most 53 binary
/// digits, otherwise `n` rounded to its 53 leading binary digits.
pub open spec fn f64_of_int(n: nat) -> nat {
    let b = bit_len(n);
    if b <= 53 {
        n
    } else {
        let d = pow2((b - 53) as nat);
        round_half_even(n, d) * d
    }
}

/// How many binary places the double nearest to `p / q` has after the
/// point, for `1 <= p / q < 2^53`: 52 minus the exponent `e` with
/// `2^e <= p / q < 2^(e + 1)`.
pub open spec fn quotient_scale(p: nat, q: nat) -> nat {
    (53 - bit_len(p / q)) as nat
}

/// The significand of the double nearest to `p / q`: the double is this
/// value divided by `2^quotient_scale(p, q)`.
pub open spec fn quotient_significand(p: nat, q: nat) -> nat {
    round_half_even(p * pow2(quotient_scale(p, q)), q)
}

/// The double nearest to `p / q`, written with one decimal place (as the
/// `{:.1}` format does: the exact value of the double rounded to the
/// nearest tenth, ties to even), as a whole number of tenths.
pub open spec fn quotient_tenths(p: nat, q: nat) -> nat {
    round_half_even(10 * quotient_significand(p, q), pow2(quotient_scale(p, q)))
}

/// Law: `bit_len` counts binary digits: `2^(bit_len(x) - 1) <= x <
/// 2^bit_len(x)` for every positive `x`.
pub proof fn lemma_bit_len(x: nat)
    requires
        x > 0,
    ensures
        bit_len(x) >= 1,
        pow2((bit_len(x) - 1) as nat) <= x < pow2(bit_len(x)),
        bit_len(x) <= x,
    decreases x,
{
    if x == 1 {
        assert(bit_len(0) == 0);
        lemma2_to64();
        lemma2_to64_rest();
    } else {
        lemma_bit_len(x / 2);
        let b = bit_len(x / 2);
        lemma_pow2_unfold(b);
        lemma_pow2_unfold(b + 1);
        assert(bit_len(x) == b + 1);
    }
}

proof fn lemma_bit_len_at_most(x: nat, k: nat)
    requires
        x > 0,
        x < pow2(k),
    ensures
        bit_len(x) <= k,
{
    lemma_bit_len(x);
    if bit_len(x) > k {
        if bit_len(x) - 1 > k {
            lemma_pow2_strictly_increases(k, (bit_len(x) - 1) as nat);
        }
    }
}

/// The number of binary digits of `x`.
pub fn bit_length(x: u128) -> (b: u128)
    ensures
        b as nat == bit_len(x as nat),
{
    let mut b: u128 = 0;
    let mut y: u128 = x;
    proof {
        if x > 0 {
            lemma_bit_len(x as nat);
        }
    }
    while y > 0
        invariant
            b + bit_len(y as nat) == bit_len(x as nat),
            bit_len(x as nat) <= x,
        decreases y,
    {
        assert(bit_len(y as nat) == 1 + bit_len((y / 2) as nat));
        y = y / 2;
        b = b + 1;
    }
    b
}

/// `2^k` for `k <= 64`.
pub fn pow2_u128(k: u128) -> (r: u128)
    requires
        k <= 64,
    ensures
        r as nat == pow2(k as nat),
        r <= 0x1_0000_0000_0000_0000,
{
    proof {
        lemma2_to64();
        lemma2_to64_rest();
    }
    let mut r: u128 = 1;
    let mut i: u128 = 0;
    while i < k
        invariant
            i <= k <= 64,
            r as nat == pow2(i as nat),
            pow2(64) == 0x1_0000_0000_0000_0000,
        decreases k - i,
    {
        proof {
            lemma_pow2_unfold((i + 1) as nat);
            if i + 1 < 64 {
                lemma_pow2_strictly_increases((i + 1) as nat, 64);
            }
        }
        r = r * 2;
        i = i + 1;
    }
    proof {
        if k < 64 {
            lemma_pow2_strictly_increases(k as nat, 64);
        }
    }
    r
}

/// `p / q` rounded to the nearest integer, ties to even.
pub fn round_half_even_u128(p: u128, q: u128) -> (r: u128)
    requires
        0 < q <= 0x1_0000_0000_0000_0000_0000_0000,
        p <= 0x1000_0000_0000_0000_0000_0000_0000_0000,
    ensures
        r as nat == round_half_even(p as nat, q as nat),
        r <= p / q + 1,
{
    let f = p / q;
    let rem = p % q;
    if 2 * rem < q {
        f
    } else if 2 * rem > q {
        f + 1
    } else if f % 2 == 0 {
        f
    } else {
        f + 1
    }
}

/// The value of `n as f64`.
pub fn f64_of_u64(n: u64) -> (r: u128)
    ensures
        r as nat == f64_of_int(n as nat),
        r <= 0x1_0000_0000_0000_0000,
        r == n || r >= 0x10_0000_0000_0000,
{
    let b = bit_length(n as u128);
    proof {
        lemma2_to64();
        lemma2_to64_rest();
        if n > 0 {
            lemma_bit_len_at_most(n as nat, 64);
        }
    }
    if b <= 53 {
        n as u128
    } else {
        let d = pow2_u128(b - 53);
        let m = round_half_even_u128(n as u128, d);
        proof {
            lemma_bit_len(n as nat);
            lemma_pow2_pos((b - 53) as nat);
            let s = (b - 53) as nat;
            // n < 2^b = 2^53 * d, so n / d < 2^53 and m <= 2^53.
            vstd::arithmetic::power2::lemma_pow2_adds(53, s);
            assert(n < pow2(53) * d);
            let qv = (n as nat) / (d as nat);
            assert(qv * d <= n) by {
                vstd::arithmetic::div_mod::lemma_fundamental_div_mod(n as int, d as int);
            }
            let big = pow2(53);
            assert(qv < big) by (nonlinear_arith)
                requires
                    qv * d <= n,
                    n < big * d,
                    d > 0,
            ;
            assert(pow2((b - 1) as nat) == pow2(52) * d) by {
                vstd::arithmetic::power2::lemma_pow2_adds(52, s);
            }
            assert(qv >= pow2(52)) by {
                vstd::arithmetic::div_mod::lemma_div_is_ordered((pow2(52) * d) as int, n as int, d as int);
                vstd::arithmetic::div_mod::lemma_div_multiples_vanish(pow2(52) as int, d as int);
            }
            let lowp = pow2(52);
            assert(m * d >= lowp) by (nonlinear_arith)
                requires
                    m >= qv,
                    qv >= lowp,
                    d >= 1,
            ;
            assert(m * d <= pow2(53) * d) by (nonlinear_arith)
                requires
                    m <= pow2(53),
            ;
            assert(pow2(53) * d == pow2(b as nat));
            if b < 64 {
                lemma_pow2_strictly_increases(b as nat, 64);
            }
        }
        m * d
    }
}

/// The double nearest to `p / q`, written with one decimal, in tenths.
pub fn quotient_tenths_u128(p: u128, q: u128) -> (t: u128)
    requires
        0 < q <= p,
        q <= 1_000_000,
        p <= 0x1_0000_0000_0000_0000,
        p / q < 0x20_0000_0000_0000,
    ensures
        t as nat == quotient_tenths(p as nat, q as nat),
{
    let x = p / q;
    let b = bit_length(x);
    proof {
        lemma2_to64();
        lemma2_to64_rest();
        assert(x >= 1) by {
            vstd::arithmetic::div_mod::lemma_div_is_ordered(q as int, p as int, q as int);
            vstd::arithmetic::div_mod::lemma_div_basics(q as int);
        }
        assert(x <= p) by {
            vstd::arithmetic::div_mod::lemma_div_is_ordered_by_denominator(p as int, 1, q as int);
        }
        lemma_bit_len(x as nat);
        lemma_bit_len_at_most(x as nat, 53);
    }
    let k = 53 - b;
    let pw = pow2_u128(k);
    proof {
        if k < 52 {
            lemma_pow2_strictly_increases(k as nat, 52);
        }
    }
    assert(p * pw <= 0x1_0000_0000_0000_0000 * 0x10_0000_0000_0000) by (nonlinear_arith)
        requires
            p <= 0x1_0000_0000_0000_0000,
            pw <= 0x10_0000_0000_0000,
    ;
    let pp = p * pw;
    let m = round_half_even_u128(pp, q);
    assert(pp / q <= pp) by {
        vstd::arithmetic::div_mod::lemma_div_is_ordered_by_denominator(pp as int, 1, q as int);
    }
    let tm = 10 * m;
    proof {
        lemma_pow2_pos(k as nat);
    }
    round_half_even_u128(tm, pw)
}

} // verus!
