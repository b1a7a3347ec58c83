//! The rounded-corner alpha mask of a square content buffer.
//!
//! All distances are kept in thousandths of a pixel, so that the radius
//! `0.223 * C` and every comparison against it are exact integers. The only
//! irrational quantity, the corner distance, enters through a rounded-up
//! integer square root, in a way that loses nothing: see
//! [`lemma_faded_alpha_is_floor`].

use crate::raster::{byte_len, lemma_in_range, lemma_locate, pixel_in, Raster};
use vstd::prelude::*;

verus! {

/// The corner radius of a content square of side `c`, in thousandths of a pixel.
pub open spec fn radius_milli(c: int) -> int {
    223 * c
}

/// The whole pixels of the corner radius; columns and rows nearer than this
/// to an edge belong to a corner zone.
pub open spec fn radius_whole(c: int) -> int {
    radius_milli(c) / 1000
}

/// How far coordinate `p` reaches into a corner zone along its axis, in
/// thousandths of a pixel; `0` along the straight part of the edge.
pub open spec fn corner_reach(p: int, c: int) -> int {
    if p < radius_whole(c) {
        radius_milli(c) - 1000 * p
    } else if p > c - radius_whole(c) {
        1000 * p - (1000 * c - radius_milli(c))
    } else {
        0
    }
}

/// Whether `(x, y)` lies in one of the four corner zones.
pub open spec fn in_corner(x: int, y: int, c: int) -> bool {
    corner_reach(x, c) > 0 && corner_reach(y, c) > 0
}

/// The squared distance of `(x, y)` from the centre of its corner arc, in
/// millionths of a square pixel.
pub open spec fn corner_dist_sq(x: int, y: int, c: int) -> int {
    corner_reach(x, c) * corner_reach(x, c) + corner_reach(y, c) * corner_reach(y, c)
}

/// The least `q` with `q * q >= n`.
pub open spec fn ceil_sqrt(n: nat) -> nat
    decreases n,
{
    if n == 0 {
        0
    } else {
        let p = ceil_sqrt((n - 1) as nat);
        if p * p >= n {
            p
        } else {
            p + 1
        }
    }
}

/// `q` is the least natural number whose square reaches `n`.
pub open spec fn is_ceil_sqrt(n: nat, q: nat) -> bool {
    q * q >= n && (q == 0 || (q - 1) * (q - 1) < n)
}

/// `alpha * (r - d)` rounded down, where `r` is the radius in thousandths and
/// `d` the distance whose square is `s` millionths: the alpha inside the
/// one-pixel anti-aliasing band.
pub open spec fn faded_alpha(alpha: int, r: int, s: int) -> int {
    (alpha * r - ceil_sqrt((alpha * alpha * s) as nat)) / 1000
}

/// The alpha that the mask leaves at `(x, y)` of a content square of side `c`.
pub open spec fn masked_alpha(alpha: int, x: int, y: int, c: int) -> int {
    let r = radius_milli(c);
    let s = corner_dist_sq(x, y, c);
    if !in_corner(x, y, c) {
        alpha
    } else if s > r * r {
        0
    } else if s > (r - 1000) * (r - 1000) {
        faded_alpha(alpha, r, s)
    } else {
        alpha
    }
}

/// The masked image: colour bytes as they were, every alpha byte attenuated
/// by its pixel's position.
pub open spec fn masked(bytes: Seq<u8>, c: int) -> Seq<u8> {
    Seq::new(
        bytes.len(),
        |i: int|
            if i % 4 == 3 {
                masked_alpha(bytes[i] as int, (i / 4) % c, (i / 4) / c, c) as u8
            } else {
                bytes[i]
            },
    )
}

/// `ceil_sqrt` is what its name says.
pub proof fn lemma_ceil_sqrt(n: nat)
    ensures
        is_ceil_sqrt(n, ceil_sqrt(n)),
    decreases n,
{
    if n > 0 {
        lemma_ceil_sqrt((n - 1) as nat);
        let p = ceil_sqrt((n - 1) as nat);
        if p * p >= n {
            assert(p > 0);
        } else {
            assert(p * p == n - 1);
            assert((p + 1) * (p + 1) >= n) by (nonlinear_arith)
                requires
                    p * p == n - 1,
            ;
        }
    }
}

/// Only one number is the rounded-up square root.
pub proof fn lemma_ceil_sqrt_unique(n: nat, q: nat)
    requires
        is_ceil_sqrt(n, q),
    ensures
        q == ceil_sqrt(n),
{
    lemma_ceil_sqrt(n);
    let p = ceil_sqrt(n);
    if q < p {
        assert(q * q <= (p - 1) * (p - 1)) by (nonlinear_arith)
            requires
                0 <= q <= p - 1,
        ;
    } else if p < q {
        assert(p * p <= (q - 1) * (q - 1)) by (nonlinear_arith)
            requires
                0 <= p <= q - 1,
        ;
    }
}

/// Any number whose square reaches `n` is at least the rounded-up root.
pub proof fn lemma_ceil_sqrt_least(n: nat, m: nat)
    requires
        m * m >= n,
    ensures
        ceil_sqrt(n) <= m,
{
    lemma_ceil_sqrt(n);
    let p = ceil_sqrt(n);
    if m < p {
        assert(m * m <= (p - 1) * (p - 1)) by (nonlinear_arith)
            requires
                0 <= m <= p - 1,
        ;
    }
}

/// Inside the band the faded alpha is exactly `floor(alpha * (r - d) / 1000)`
/// for the real distance `d = sqrt(s)`: `k` is the largest integer with
/// `alpha * d <= alpha * r - 1000 * k`, both sides compared by their squares.
pub proof fn lemma_faded_alpha_is_floor(alpha: int, r: int, s: int)
    requires
        0 <= alpha,
        0 <= r,
        0 <= s <= r * r,
    ensures
        ({
            let k = faded_alpha(alpha, r, s);
            &&& 0 <= k
            &&& alpha * r - 1000 * k >= 0
            &&& alpha * alpha * s <= (alpha * r - 1000 * k) * (alpha * r - 1000 * k)
            &&& (alpha * r - 1000 * (k + 1) >= 0 ==> alpha * alpha * s > (alpha * r - 1000 * (k
                + 1)) * (alpha * r - 1000 * (k + 1)))
        }),
{
    let ar = alpha * r;
    assert(0 <= ar) by (nonlinear_arith)
        requires
            ar == alpha * r,
            0 <= alpha,
            0 <= r,
    ;
    assert(0 <= alpha * alpha * s <= ar * ar) by (nonlinear_arith)
        requires
            ar == alpha * r,
            0 <= alpha,
            0 <= r,
            0 <= s <= r * r,
    ;
    let n = (alpha * alpha * s) as nat;
    let q = ceil_sqrt(n);
    lemma_ceil_sqrt(n);
    lemma_ceil_sqrt_least(n, ar as nat);
    let k = (ar - q) / 1000;
    let rest = ar - 1000 * k;
    assert(q <= rest < q + 1000 && 0 <= k);
    assert(q * q <= rest * rest) by (nonlinear_arith)
        requires
            0 <= q <= rest,
    ;
    let below = ar - 1000 * (k + 1);
    if below >= 0 {
        assert(below <= q - 1);
        assert(below * below <= (q - 1) * (q - 1)) by (nonlinear_arith)
            requires
                0 <= below <= q - 1,
        ;
    }
}

/// Masking never raises an alpha value and never leaves the byte range.
pub proof fn lemma_masked_alpha_bounds(alpha: int, x: int, y: int, c: int)
    requires
        0 <= alpha <= 255,
        0 <= x < c,
        0 <= y < c,
    ensures
        0 <= masked_alpha(alpha, x, y, c) <= alpha,
{
    let r = radius_milli(c);
    let s = corner_dist_sq(x, y, c);
    if in_corner(x, y, c) && s <= r * r && s > (r - 1000) * (r - 1000) {
        assert(s >= 0) by (nonlinear_arith)
            requires
                s == corner_reach(x, c) * corner_reach(x, c) + corner_reach(y, c) * corner_reach(
                    y,
                    c,
                ),
        ;
        lemma_faded_alpha_is_floor(alpha, r, s);
        let k = faded_alpha(alpha, r, s);
        if k > alpha {
            // then alpha * r - 1000 * k lies below alpha * (r - 1000), whose
            // square is at most alpha^2 * s
            let rest = alpha * r - 1000 * k;
            assert(r >= 1000) by {
                if r < 1000 {
                    assert(radius_whole(c) == 0);
                }
            }
            let edge = alpha * (r - 1000);
            assert(0 <= rest < edge && edge * edge == alpha * alpha * ((r - 1000) * (r - 1000)))
                by (nonlinear_arith)
                requires
                    rest == alpha * r - 1000 * k,
                    edge == alpha * (r - 1000),
                    k >= alpha + 1,
                    rest >= 0,
                    alpha >= 0,
                    r >= 1000,
            ;
            assert(rest * rest < edge * edge) by (nonlinear_arith)
                requires
                    0 <= rest < edge,
            ;
            assert(alpha * alpha * ((r - 1000) * (r - 1000)) <= alpha * alpha * s)
                by (nonlinear_arith)
                requires
                    (r - 1000) * (r - 1000) < s,
            ;
            assert(false);
        }
    }
}

/// Masking keeps the length of the buffer and every colour byte.
pub proof fn lemma_mask_touches_alpha_only(bytes: Seq<u8>, c: int)
    ensures
        masked(bytes, c).len() == bytes.len(),
        forall|i: int| 0 <= i < bytes.len() && i % 4 != 3 ==> masked(bytes, c)[i] == bytes[i],
{
}

/// What the mask does, pixel by pixel.
pub proof fn lemma_masked_pixel(bytes: Seq<u8>, c: int, x: int, y: int)
    requires
        bytes.len() == byte_len(c, c),
        0 <= x < c,
        0 <= y < c,
    ensures
        ({
            let before = pixel_in(bytes, c, x, y);
            let after = pixel_in(masked(bytes, c), c, x, y);
            &&& after.r == before.r
            &&& after.g == before.g
            &&& after.b == before.b
            &&& after.a == masked_alpha(before.a as int, x, y, c)
        }),
{
    lemma_in_range(c, c, x, y);
    lemma_locate(c, x, y, 0);
    lemma_locate(c, x, y, 1);
    lemma_locate(c, x, y, 2);
    lemma_locate(c, x, y, 3);
    lemma_masked_alpha_bounds(pixel_in(bytes, c, x, y).a as int, x, y, c);
}

/// A pixel farther than the radius from the centre of its corner arc is
/// fully transparent after one masking pass and still so after a second.
pub proof fn lemma_mask_twice_beyond_radius(bytes: Seq<u8>, c: int, x: int, y: int)
    requires
        bytes.len() == byte_len(c, c),
        0 <= x < c,
        0 <= y < c,
        in_corner(x, y, c),
        corner_dist_sq(x, y, c) > radius_milli(c) * radius_milli(c),
    ensures
        pixel_in(masked(bytes, c), c, x, y).a == 0,
        pixel_in(masked(masked(bytes, c), c), c, x, y).a == 0,
{
    lemma_masked_pixel(bytes, c, x, y);
    lemma_masked_pixel(masked(bytes, c), c, x, y);
}

/// Outside the anti-aliasing band a second masking pass changes nothing.
pub proof fn lemma_mask_twice_outside_band(bytes: Seq<u8>, c: int, x: int, y: int)
    requires
        bytes.len() == byte_len(c, c),
        0 <= x < c,
        0 <= y < c,
        !in_corner(x, y, c) || corner_dist_sq(x, y, c) > radius_milli(c) * radius_milli(c)
            || corner_dist_sq(x, y, c) <= (radius_milli(c) - 1000) * (radius_milli(c) - 1000),
    ensures
        pixel_in(masked(masked(bytes, c), c), c, x, y) == pixel_in(masked(bytes, c), c, x, y),
{
    lemma_masked_pixel(bytes, c, x, y);
    lemma_masked_pixel(masked(bytes, c), c, x, y);
}

/// The rounded-up square root of a number below `2^100`.
fn ceil_sqrt_of(n: u128) -> (q: u128)
    requires
        n <= 0x10_0000_0000_0000_0000_0000_0000,
    ensures
        q == ceil_sqrt(n as nat),
        q <= 0x4_0000_0000_0000,
{
    if n == 0 {
        proof {
            lemma_ceil_sqrt_unique(0, 0);
        }
        return 0;
    }
    let mut lo: u128 = 0;
    let mut hi: u128 = 0x4_0000_0000_0000;
    assert(hi * hi >= n) by (nonlinear_arith)
        requires
            hi == 0x4_0000_0000_0000,
            n <= 0x10_0000_0000_0000_0000_0000_0000,
    ;
    while hi - lo > 1
        invariant
            lo < hi <= 0x4_0000_0000_0000,
            lo * lo < n <= hi * hi,
        decreases hi - lo,
    {
        let mid: u128 = lo + (hi - lo) / 2;
        assert(mid * mid <= 0x4_0000_0000_0000 * 0x4_0000_0000_0000) by (nonlinear_arith)
            requires
                mid <= 0x4_0000_0000_0000,
        ;
        if mid * mid >= n {
            hi = mid;
        } else {
            lo = mid;
        }
    }
    proof {
        assert(hi == lo + 1);
        assert((hi - 1) * (hi - 1) == lo * lo);
        lemma_ceil_sqrt_unique(n as nat, hi as nat);
    }
    hi
}

/// `corner_reach`, computed.
fn reach_of(p: u32, c: u32) -> (d: u64)
    requires
        p < c,
    ensures
        d == corner_reach(p as int, c as int),
        d <= radius_milli(c as int),
{
    let r: u64 = 223 * (c as u64);
    let whole: u64 = r / 1000;
    let p64: u64 = p as u64;
    let c64: u64 = c as u64;
    if p64 < whole {
        r - 1000 * p64
    } else if p64 > c64 - whole {
        1000 * p64 - (1000 * c64 - r)
    } else {
        0
    }
}

/// `masked_alpha`, computed.
fn alpha_of(alpha: u8, x: u32, y: u32, c: u32) -> (a: u8)
    requires
        x < c,
        y < c,
    ensures
        a == masked_alpha(alpha as int, x as int, y as int, c as int),
{
    let dx: u64 = reach_of(x, c);
    let dy: u64 = reach_of(y, c);
    if dx == 0 || dy == 0 {
        return alpha;
    }
    let r: u128 = 223 * (c as u128);
    let dx: u128 = dx as u128;
    let dy: u128 = dy as u128;
    assert(dx * dx <= r * r && dy * dy <= r * r && r * r <= 0x1_0000_0000_0000_0000_0000)
        by (nonlinear_arith)
        requires
            0 <= dx <= r,
            0 <= dy <= r,
            r <= 223 * 0xFFFF_FFFF,
    ;
    let s: u128 = dx * dx + dy * dy;
    let rr: u128 = r * r;
    if s > rr {
        return 0;
    }
    assert(r >= 1000) by {
        if r < 1000 {
            assert(radius_whole(c as int) == 0);
        }
    }
    let inner: u128 = r - 1000;
    assert(inner * inner <= r * r) by (nonlinear_arith)
        requires
            0 <= inner <= r,
    ;
    if s > inner * inner {
        let a: u128 = alpha as u128;
        assert(a * a <= 255 * 255) by (nonlinear_arith)
            requires
                a <= 255,
        ;
        assert(a * a * s <= 255 * 255 * 0x1_0000_0000_0000_0000_0000 && a * r <= 255 * (223
            * 0xFFFF_FFFF)) by (nonlinear_arith)
            requires
                a * a <= 255 * 255,
                a <= 255,
                s <= 0x1_0000_0000_0000_0000_0000,
                r <= 223 * 0xFFFF_FFFF,
        ;
        let q: u128 = ceil_sqrt_of(a * a * s);
        proof {
            lemma_faded_alpha_is_floor(a as int, r as int, s as int);
            lemma_masked_alpha_bounds(alpha as int, x as int, y as int, c as int);
            assert(a * a * s == (alpha as int) * (alpha as int) * (s as int));
        }
        let k: u128 = (a * r - q) / 1000;
        k as u8
    } else {
        alpha
    }
}

/// Applies the rounded-corner mask to a square content buffer.
///
/// The result has the dimensions of `content` and its colours; only alpha
/// values change.
pub fn apply_mask(content: &Raster) -> (out: Raster)
    requires
        content.spec_width() == content.spec_height(),
    ensures
        out.spec_width() == content.spec_width(),
        out.spec_height() == content.spec_height(),
        out.bytes() == masked(content.bytes(), content.spec_width()),
{
    let c: u32 = content.width();
    let src = content.as_bytes();
    let total: usize = src.len();
    let mut out: Vec<u8> = Vec::with_capacity(total);
    let ghost want = masked(src@, c as int);
    let mut y: u32 = 0;
    while y < c
        invariant
            y <= c,
            src@.len() == byte_len(c as int, c as int),
            want == masked(src@, c as int),
            out@.len() == 4 * (y * c),
            forall|j: int| 0 <= j < out@.len() ==> out@[j] == want[j],
        decreases c - y,
    {
        let mut x: u32 = 0;
        while x < c
            invariant
                x <= c,
                y < c,
                src@.len() == byte_len(c as int, c as int),
                want == masked(src@, c as int),
                out@.len() == 4 * (y * c + x),
                forall|j: int| 0 <= j < out@.len() ==> out@[j] == want[j],
            decreases c - x,
        {
            proof {
                lemma_in_range(c as int, c as int, x as int, y as int);
                lemma_locate(c as int, x as int, y as int, 0);
                lemma_locate(c as int, x as int, y as int, 1);
                lemma_locate(c as int, x as int, y as int, 2);
                lemma_locate(c as int, x as int, y as int, 3);
                lemma_masked_alpha_bounds(
                    src@[4 * (y * c + x) + 3] as int,
                    x as int,
                    y as int,
                    c as int,
                );
            }
            let base: usize = out.len();
            let a: u8 = alpha_of(src[base + 3], x, y, c);
            out.push(src[base]);
            out.push(src[base + 1]);
            out.push(src[base + 2]);
            out.push(a);
            x = x + 1;
        }
        proof {
            assert(4 * (y * c + c) == 4 * ((y + 1) * c)) by (nonlinear_arith);
        }
        y = y + 1;
    }
    proof {
        assert(4 * (c * c) == byte_len(c as int, c as int)) by (nonlinear_arith);
        assert(out@ =~= want);
    }
    Raster::assemble(c, c, out)
}

} // verus!
