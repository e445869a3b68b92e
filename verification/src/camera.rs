use vstd::prelude::*;

verus! {

/// 2^64 / golden ratio, odd; spreads the per-row seeds of a seeded render.
pub const GOLDEN_RATIO_U64: u64 = 0x9e3779b97f4a7c15;

/// The seed of the random stream of image row `row` in a render seeded with `seed`:
/// `seed + GOLDEN_RATIO_U64 * row`, modulo 2^64.
pub open spec fn row_seed_of(seed: u64, row: u64) -> int {
    (seed + GOLDEN_RATIO_U64 * row) % 0x1_0000_0000_0000_0000
}

/// The seed of the random stream of image row `row` when rendering with `seed`.
pub fn row_seed(seed: u64, row: u64) -> (s: u64)
    ensures
        s == row_seed_of(seed, row),
{
    let s = seed.wrapping_add(GOLDEN_RATIO_U64.wrapping_mul(row));
    proof {
        let m: int = 0x1_0000_0000_0000_0000;
        let p = (GOLDEN_RATIO_U64 as nat * row as nat) % (m as nat);
        vstd::arithmetic::div_mod::lemma_add_mod_noop(seed as int, GOLDEN_RATIO_U64 * row, m);
        vstd::arithmetic::div_mod::lemma_small_mod(seed as nat, m as nat);
        vstd::arithmetic::div_mod::lemma_mod_bound(GOLDEN_RATIO_U64 * row, m);
        if seed + p >= m {
            vstd::arithmetic::div_mod::lemma_fundamental_div_mod_converse(
                seed + p,
                m,
                1,
                seed + p - m,
            );
        } else {
            vstd::arithmetic::div_mod::lemma_small_mod((seed + p) as nat, m as nat);
        }
    }
    s
}

/// In a seeded render, different rows draw from streams with different seeds.
pub proof fn lemma_row_seeds_distinct(seed: u64, row_a: u64, row_b: u64)
    requires
        row_a != row_b,
    ensures
        row_seed_of(seed, row_a) != row_seed_of(seed, row_b),
{
    let m: int = 0x1_0000_0000_0000_0000;
    let g: int = GOLDEN_RATIO_U64 as int;
    let inv: int = 0xf1de83e19937733d;
    let t: int = 10771413168148108919;
    let x = seed + g * row_a;
    let y = seed + g * row_b;
    if x % m == y % m {
        vstd::arithmetic::div_mod::lemma_mod_equivalence(x, y, m);
        vstd::arithmetic::div_mod::lemma_fundamental_div_mod(x - y, m);
        let q = (x - y) / m;
        let d = row_a - row_b;
        assert(g * d == m * q) by (nonlinear_arith)
            requires
                x - y == m * q + 0,
                x == seed + g * row_a,
                y == seed + g * row_b,
                d == row_a - row_b,
        ;
        assert(g * inv == 1 + m * t);
        assert(d == m * (inv * q - t * d)) by (nonlinear_arith)
            requires
                g * d == m * q,
                g * inv == 1 + m * t,
        ;
        let k = inv * q - t * d;
        assert(false) by (nonlinear_arith)
            requires
                d == m * k,
                -m < d < m,
                d != 0,
                m > 0,
        ;
    }
}

/// Integer square root of `n`: the side of the largest square grid of samples that fits in
/// `n` samples per pixel.
pub fn stratified_side(n: u32) -> (side: u32)
    ensures
        side * side <= n,
        n < (side + 1) * (side + 1),
{
    let mut lo: u32 = 0;
    let mut hi: u32 = 65536;
    while hi - lo > 1
        invariant
            lo < hi <= 65536,
            lo * lo <= n,
            n < hi * hi,
        decreases hi - lo,
    {
        let mid = lo + (hi - lo) / 2;
        proof {
            assert(mid * mid <= 65535 * 65535) by (nonlinear_arith)
                requires
                    mid <= 65535,
            ;
        }
        if mid * mid <= n {
            lo = mid;
        } else {
            hi = mid;
        }
    }
    lo
}

/// The image height a camera renders at: the requested height, or, when none was requested
/// (0), the height derived from the aspect ratio, but never less than one row.
pub fn resolve_image_height(requested: u32, derived: u32) -> (height: u32)
    ensures
        height >= 1,
        requested != 0 ==> height == requested,
        requested == 0 ==> height == if derived >= 1 {
            derived
        } else {
            1
        },
{
    let mut height = requested;
    if height == 0 {
        height = derived;
    }
    if height < 1 {
        height = 1;
    }
    height
}

} // verus!
