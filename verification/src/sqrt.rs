//! A verified, correctly rounded square root on IEEE-754 single-precision
//! bit patterns.
//!
//! No soft-float library available to this crate offers a square root, so
//! normalization computes it here, in plain integer arithmetic: the input is
//! decomposed into an integer significand and a power-of-two exponent, the
//! integer square root of a suitably scaled significand is taken, and the
//! result is rounded to the nearest representable value (a tie is impossible
//! for square roots).  Zeroes and infinity pass through, and a NaN or a
//! negative input yields the canonical quiet NaN, as IEEE-754 prescribes.

use vstd::prelude::*;
use vstd::arithmetic::power2::{pow2, lemma2_to64, lemma_pow2_strictly_increases, lemma_pow2_unfold};

verus! {

/// Whether `v` encodes a NaN: exponent field all ones, fraction nonzero.
pub open spec fn is_nan_bits(v: u32) -> bool {
    (v / 0x80_0000) % 0x100 == 0xff && v % 0x80_0000 != 0
}

/// Whether `r` is the integer square root of `n`.
pub open spec fn is_isqrt(n: nat, r: nat) -> bool {
    r * r <= n && n < (r + 1) * (r + 1)
}

/// The integer square root: the unique `r` with `r * r <= n < (r + 1) * (r + 1)`.
pub open spec fn spec_isqrt(n: nat) -> nat {
    choose|r: nat| #[trigger] is_isqrt(n, r)
}

/// The square root of `n` rounded to the nearest integer.
///
/// `4 * n < (2 * r + 1) * (2 * r + 1)` says `n` lies below `(r + 1/2)²`, so
/// `√n` is closer to `r` than to `r + 1`; `4 * n` never equals
/// `(2 * r + 1) * (2 * r + 1)` (a square is even in exactly the places that
/// product is odd), so there is no tie.
pub open spec fn rounded_root(n: nat) -> nat {
    let r = spec_isqrt(n);
    if 4 * n < (2 * r + 1) * (2 * r + 1) {
        r
    } else {
        r + 1
    }
}

/// The significand `a`, repeatedly doubled until it reaches `[2^23, 2^24)`.
pub open spec fn norm_sig(a: nat) -> nat
    decreases 0x100_0000 - a,
{
    if a == 0 || a >= 0x80_0000 {
        a
    } else {
        norm_sig(2 * a)
    }
}

/// How many doublings `norm_sig` applies to `a`.
pub open spec fn norm_drop(a: nat) -> nat
    decreases 0x100_0000 - a,
{
    if a == 0 || a >= 0x80_0000 {
        0
    } else {
        1 + norm_drop(2 * a)
    }
}

/// `norm_sig` lands in `[2^23, 2^24)` after `norm_drop` doublings, and never
/// needs more than 23 of them.
pub proof fn lemma_norm(a: nat)
    requires
        1 <= a < 0x100_0000,
    ensures
        0x80_0000 <= norm_sig(a) < 0x100_0000,
        norm_sig(a) == a * pow2(norm_drop(a)),
        norm_drop(a) <= 23,
    decreases 0x100_0000 - a,
{
    lemma2_to64();
    if a >= 0x80_0000 {
        assert(norm_sig(a) == a * pow2(0));
    } else {
        lemma_norm(2 * a);
        lemma_pow2_unfold((norm_drop(2 * a) + 1) as nat);
        assert((2 * a) * pow2(norm_drop(2 * a)) == a * (2 * pow2(norm_drop(2 * a))))
            by (nonlinear_arith);
        assert(norm_sig(a) == a * pow2(norm_drop(a)));
        // norm_drop(a) <= 23: otherwise pow2(norm_drop(a)) alone exceeds 2^24.
        if norm_drop(a) > 23 {
            if norm_drop(a) > 24 {
                lemma_pow2_strictly_increases(24, norm_drop(a));
            }
            assert(pow2(24) <= pow2(norm_drop(a)));
            assert(a * pow2(norm_drop(a)) >= 1 * pow2(norm_drop(a))) by (nonlinear_arith)
                requires
                    a >= 1,
            ;
            assert(false);
        }
    }
}

/// The square-root bit pattern for a positive, finite, nonzero `v`.
///
/// The encoded value is `a * 2^k`; after normalizing `a` into `[2^23, 2^24)`
/// the significand is scaled by 23 or 24 more bits so that the remaining
/// exponent is even, and the scaled significand's nearest-integer root is the
/// result's 24-bit significand.  The result of a square root of a normal or
/// subnormal single is always itself normal, so encoding never underflows or
/// overflows.
pub open spec fn sqrt_pos_bits(v: u32) -> u32 {
    let expf = v / 0x80_0000;
    let frac = v % 0x80_0000;
    let a: nat = if expf == 0 {
        frac as nat
    } else {
        frac as nat + 0x80_0000
    };
    let k: int = if expf == 0 {
        -149
    } else {
        expf - 150
    };
    let an = norm_sig(a);
    let kn = k - norm_drop(a);
    let odd = (kn + 300) % 2 == 1;
    let n: nat = if odd {
        an * 0x80_0000
    } else {
        an * 0x100_0000
    };
    let eo: int = if odd {
        (kn + 300 - 23) / 2
    } else {
        (kn + 300 - 24) / 2
    };
    let s = rounded_root(n);
    if s == 0x100_0000 {
        (((eo + 1) * 0x80_0000)) as u32
    } else {
        ((eo * 0x80_0000) + (s - 0x80_0000)) as u32
    }
}

/// The IEEE-754 single-precision square root of the value encoded by `v`,
/// rounded to nearest: NaNs and negative values yield the canonical quiet
/// NaN, zeroes and positive infinity pass through, and every other input is
/// handled by [`sqrt_pos_bits`].
pub open spec fn sqrt_bits(v: u32) -> u32 {
    if is_nan_bits(v) || v > 0x8000_0000 {
        0x7fc0_0000
    } else if v == 0 || v == 0x8000_0000 || v == 0x7f80_0000 {
        v
    } else {
        sqrt_pos_bits(v)
    }
}

/// An integer square root exists for every `n`.
pub proof fn lemma_isqrt_exists(n: nat)
    ensures
        exists|r: nat| #[trigger] is_isqrt(n, r),
    decreases n,
{
    if n == 0 {
        assert(0 * 0 <= 0 && 0 < (0 + 1) * (0 + 1)) by (nonlinear_arith);
        assert(is_isqrt(0, 0));
    } else {
        lemma_isqrt_exists((n - 1) as nat);
        let r = choose|r: nat| #[trigger] is_isqrt((n - 1) as nat, r);
        assert(is_isqrt((n - 1) as nat, r));
        if (r + 1) * (r + 1) <= n {
            // n - 1 < (r + 1)² <= n forces n == (r + 1)², and
            // (r + 2)² > (r + 1)² = n.
            assert((r + 1) * (r + 1) == n);
            assert(n < ((r + 1) + 1) * ((r + 1) + 1)) by (nonlinear_arith)
                requires
                    n == (r + 1) * (r + 1),
            ;
            assert(is_isqrt(n, r + 1));
        } else {
            assert(is_isqrt(n, r));
        }
    }
}

/// Any `r` with `r * r <= n < (r + 1) * (r + 1)` is `spec_isqrt(n)`.
pub proof fn lemma_isqrt_unique(n: nat, r: nat)
    requires
        r * r <= n,
        n < (r + 1) * (r + 1),
    ensures
        spec_isqrt(n) == r,
{
    let q = spec_isqrt(n);
    assert(q * q <= n && n < (q + 1) * (q + 1)) by {
        lemma_isqrt_exists(n);
        assert(is_isqrt(n, q));
    }
    if q < r {
        assert((q + 1) * (q + 1) <= r * r) by (nonlinear_arith)
            requires
                q + 1 <= r,
        ;
        assert(false);
    }
    if r < q {
        assert((r + 1) * (r + 1) <= q * q) by (nonlinear_arith)
            requires
                r + 1 <= q,
        ;
        assert(false);
    }
}

/// The integer square root of a value below `2^48`, by binary digit descent.
pub fn isqrt48(n: u64) -> (r: u64)
    requires
        n < 0x1_0000_0000_0000,
    ensures
        r * r <= n,
        n < (r + 1) * (r + 1),
        r <= 0x100_0000,
{
    let mut r: u64 = 0;
    let mut p: u64 = 0x80_0000;
    let ghost mut gb: nat = 23;
    proof {
        lemma2_to64();
    }
    while p > 0
        invariant
            n < 0x1_0000_0000_0000,
            p > 0 ==> p == pow2(gb) && gb <= 23,
            r * r <= n,
            p > 0 ==> r + 2 * p <= 0x100_0000,
            p > 0 ==> n < (r + 2 * p) * (r + 2 * p),
            p == 0 ==> n < (r + 1) * (r + 1),
            p == 0 ==> r <= 0x100_0000,
        decreases p,
    {
        proof {
            lemma2_to64();
            if gb > 0 {
                lemma_pow2_unfold(gb);
            }
        }
        let cand = r + p;
        assert(cand * cand <= 0x100_0000 * 0x100_0000) by (nonlinear_arith)
            requires
                cand <= 0x100_0000,
        ;
        if cand * cand <= n {
            r = cand;
        }
        proof {
            if gb > 0 {
                gb = (gb - 1) as nat;
            }
        }
        p = p / 2;
    }
    r
}

/// The square root on bit patterns, rounded to nearest: exactly
/// [`sqrt_bits`].
pub fn f32_sqrt(v: u32) -> (r: u32)
    ensures
        r == sqrt_bits(v),
{
    let expf: u32 = (v / 0x80_0000) % 0x100;
    let frac: u32 = v % 0x80_0000;
    if expf == 0xff && frac != 0 {
        return 0x7fc0_0000;
    }
    if v > 0x8000_0000 {
        return 0x7fc0_0000;
    }
    if v == 0 || v == 0x8000_0000 || v == 0x7f80_0000 {
        return v;
    }
    // Positive, finite, nonzero: 1 <= v < 0x7f80_0000.
    assert(v < 0x7f80_0000);
    let mut a: u64 = if expf == 0 {
        frac as u64
    } else {
        frac as u64 + 0x80_0000
    };
    let mut k: i64 = if expf == 0 {
        -149
    } else {
        expf as i64 - 150
    };
    let ghost a0 = a as nat;
    let ghost k0 = k as int;
    proof {
        lemma_norm(a0);
    }
    while a < 0x80_0000
        invariant
            1 <= a < 0x100_0000,
            norm_sig(a as nat) == norm_sig(a0),
            norm_drop(a as nat) <= 23,
            k - norm_drop(a as nat) == k0 - norm_drop(a0),
            k <= 104,
            k0 - norm_drop(a0) <= k <= 104,
            k0 - norm_drop(a0) >= -172,
        decreases 0x100_0000 - a,
    {
        proof {
            assert(norm_sig(a as nat) == norm_sig((2 * a) as nat));
            assert(norm_drop(a as nat) == 1 + norm_drop((2 * a) as nat));
        }
        a = a * 2;
        k = k - 1;
    }
    let an: u64 = a;
    let kn: i64 = k;
    proof {
        assert(norm_sig(an as nat) == an as nat);
        assert(norm_drop(an as nat) == 0);
    }
    // 0x80_0000 <= an < 0x100_0000 and -172 <= kn <= 104.
    let t: u64 = (kn + 300) as u64;
    let odd: bool = t % 2 == 1;
    let n: u64 = if odd {
        an * 0x80_0000
    } else {
        an * 0x100_0000
    };
    assert(0x80_0000 * 0x80_0000 <= n <= 0xff_ffff * 0x100_0000) by (nonlinear_arith)
        requires
            0x80_0000 <= an <= 0xff_ffff,
            n == an * 0x80_0000 || n == an * 0x100_0000,
    ;
    let eo: u64 = if odd {
        (t - 23) / 2
    } else {
        (t - 24) / 2
    };
    let s0 = isqrt48(n);
    assert(0x80_0000 <= s0) by (nonlinear_arith)
        requires
            0x80_0000 * 0x80_0000 <= n,
            n < (s0 + 1) * (s0 + 1),
    ;
    let diff = n - s0 * s0;
    let s: u64 = if diff <= s0 {
        s0
    } else {
        s0 + 1
    };
    proof {
        lemma_isqrt_unique(n as nat, s0 as nat);
        // The exec rounding test matches the spec's `4n < (2r+1)²` test.
        assert((diff <= s0) == (4 * (n as nat) < (2 * (s0 as nat) + 1) * (2 * (s0 as nat) + 1)))
            by (nonlinear_arith)
            requires
                s0 * s0 <= n,
                diff == n - s0 * s0,
        ;
    }
    let eo32: u32 = eo as u32;
    let bits: u32 = if s == 0x100_0000 {
        (eo32 + 1) * 0x80_0000
    } else {
        eo32 * 0x80_0000 + (s as u32 - 0x80_0000)
    };
    proof {
        assert(bits == sqrt_pos_bits(v));
    }
    bits
}

} // verus!
