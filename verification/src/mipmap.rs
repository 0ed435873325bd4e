//! Mip chain planning: how many levels a texture has and how large each is.

use vstd::arithmetic::power2::*;
use vstd::bits::*;
use vstd::prelude::*;

verus! {

/// The largest `k` with `2^k <= n`; 0 for `n == 0`.
pub open spec fn floor_log2(n: nat) -> nat
    decreases n,
{
    if n <= 1 {
        0
    } else {
        1 + floor_log2(n / 2)
    }
}

/// The larger of two dimensions.
pub open spec fn larger(a: nat, b: nat) -> nat {
    if a >= b {
        a
    } else {
        b
    }
}

/// Number of mip levels of a `width` x `height` texture.
pub open spec fn spec_mip_count(width: nat, height: nat) -> nat {
    floor_log2(larger(width, height)) + 1
}

/// Extent of one axis at mip level `level`: halved `level` times, rounding
/// down, but never below one pixel.
pub open spec fn spec_mip_dimension(dim: nat, level: nat) -> nat {
    let halved = dim / pow2(level);
    if halved == 0 {
        1
    } else {
        halved
    }
}

/// `floor_log2(n)` is the exponent of the power of two at or below `n`.
pub proof fn lemma_floor_log2_bounds(n: nat)
    requires
        n >= 1,
    ensures
        pow2(floor_log2(n)) <= n < pow2(floor_log2(n) + 1),
    decreases n,
{
    if n <= 1 {
        lemma2_to64();
    } else {
        lemma_floor_log2_bounds(n / 2);
        lemma_pow2_unfold(floor_log2(n));
        lemma_pow2_unfold(floor_log2(n) + 1);
    }
}

/// The exponent `k` with `2^k <= n < 2^(k+1)` is `floor_log2(n)`.
pub proof fn lemma_floor_log2_unique(n: nat, k: nat)
    requires
        pow2(k) <= n < pow2(k + 1),
    ensures
        floor_log2(n) == k,
    decreases k,
{
    lemma2_to64();
    if k == 0 {
        lemma_pow2_pos(0);
    } else {
        lemma_pow2_unfold(k);
        lemma_pow2_unfold(k + 1);
        lemma_pow2_pos((k - 1) as nat);
        lemma_floor_log2_unique(n / 2, (k - 1) as nat);
    }
}

/// `floor_log2` never decreases as its argument grows.
pub proof fn lemma_floor_log2_monotonic(a: nat, b: nat)
    requires
        a <= b,
    ensures
        floor_log2(a) <= floor_log2(b),
    decreases b,
{
    if a > 1 {
        lemma_floor_log2_monotonic(a / 2, b / 2);
    }
}

/// Number of mip levels of a `width` x `height` texture:
/// `floor(log2(max(width, height))) + 1`.
pub fn mip_count(width: u32, height: u32) -> (count: u32)
    ensures
        count == spec_mip_count(width as nat, height as nat),
        1 <= count <= 32,
{
    let largest: u32 = if width >= height {
        width
    } else {
        height
    };
    let mut rest: u32 = largest;
    let mut count: u32 = 1;
    proof {
        lemma2_to64();
        assert(rest as nat * pow2(0) == rest) by (nonlinear_arith)
            requires
                pow2(0) == 1,
        ;
    }
    while rest > 1
        invariant
            1 <= count <= 32,
            rest as nat * pow2((count - 1) as nat) <= largest,
            count + floor_log2(rest as nat) == 1 + floor_log2(largest as nat),
        decreases rest,
    {
        proof {
            lemma_pow2_unfold(count as nat);
            lemma_pow2_pos((count - 1) as nat);
            lemma2_to64();
            if count == 32 {
                assert(rest as nat * pow2(31) >= 2 * pow2(31)) by (nonlinear_arith)
                    requires
                        rest >= 2,
                ;
            }
            assert((rest / 2) as nat * (2 * pow2((count - 1) as nat)) <= rest as nat * pow2(
                (count - 1) as nat,
            )) by (nonlinear_arith)
                requires
                    (rest / 2) * 2 <= rest,
            ;
        }
        rest = rest / 2;
        count = count + 1;
    }
    count
}

/// Extent of one axis at mip level `level`: `max(1, floor(dim / 2^level))`.
pub fn mip_dimension(dim: u32, level: u32) -> (extent: u32)
    ensures
        extent == spec_mip_dimension(dim as nat, level as nat),
        extent >= 1,
        extent <= dim || extent == 1,
{
    if level >= 32 {
        proof {
            lemma2_to64();
            if level > 32 {
                lemma_pow2_strictly_increases(32, level as nat);
            }
            vstd::arithmetic::div_mod::lemma_basic_div(dim as int, pow2(level as nat) as int);
        }
        1
    } else {
        let halved: u32 = dim >> level;
        proof {
            lemma_u32_shr_is_div(dim, level);
            lemma_pow2_pos(level as nat);
            vstd::arithmetic::div_mod::lemma_div_is_ordered_by_denominator(
                dim as int,
                1,
                pow2(level as nat) as int,
            );
        }
        if halved == 0 {
            1
        } else {
            halved
        }
    }
}

/// A level is never larger than the texture, and never empty.
pub proof fn lemma_mip_dimension_bounds(dim: nat, level: nat)
    requires
        dim >= 1,
    ensures
        1 <= spec_mip_dimension(dim, level) <= dim,
        spec_mip_dimension(dim, 0) == dim,
{
    lemma2_to64();
    lemma_pow2_pos(level);
    vstd::arithmetic::div_mod::lemma_div_is_ordered_by_denominator(
        dim as int,
        1,
        pow2(level) as int,
    );
}

/// A texture whose extents fit in 32 bits has at most 32 levels.
pub proof fn lemma_mip_count_bounds(width: nat, height: nat)
    requires
        width <= u32::MAX,
        height <= u32::MAX,
    ensures
        1 <= spec_mip_count(width, height) <= 32,
{
    lemma2_to64();
    lemma_floor_log2_monotonic(larger(width, height), 0xFFFF_FFFF);
    lemma_floor_log2_unique(0xFFFF_FFFF, 31);
}

} // verus!
