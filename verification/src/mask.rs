//! The round, anti-aliased alpha mask of the bubble.
//!
//! The mask is made for the double-size rendering of a bubble of `size` pixels, `2 size`
//! pixels wide. A pixel is covered fully up to a distance of `size - 2` from the centre,
//! not at all from a distance of `size` on, and linearly in between; its level is the
//! coverage times 255, rounded to the nearest whole number. All of this is done in single
//! precision.
use vstd::prelude::*;

use crate::image::{
    apply_mask, block_mean, channel_at, image_bytes, is_half_of, lemma_earlier_pixel,
    lemma_mask_extremes, lemma_renderable_bound, masked, renderable,
};
use crate::precision::{
    grain, is_root, lemma_grain, lemma_root_floor, lemma_root_is_monotone, lemma_rounded,
    lemma_rounded_is_monotone, root_floor, root_single, round_single, rounded,
};

verus! {

/// The square of twice the offset of pixel `x` from the middle of the rendering.
pub open spec fn offset_squared(size: int, x: int) -> nat {
    ((2 * x + 1 - 2 * size) * (2 * x + 1 - 2 * size)) as nat
}

/// The square of twice the distance of a pixel from the centre of the rendering.
pub open spec fn distance_squared(size: int, x: int, y: int) -> nat {
    offset_squared(size, x) + offset_squared(size, y)
}

/// The square of twice the distance of a pixel from the centre, in single precision.
pub open spec fn spread(size: int, x: int, y: int) -> nat {
    rounded(rounded(offset_squared(size, x)) + rounded(offset_squared(size, y)))
}

/// How much of a pixel at distance `r` from the centre is covered. The distance is in
/// units of 2^-24, the coverage in units of 2^-25: it is half of what the distance falls
/// short of `size`, kept between zero and one.
pub open spec fn coverage(size: int, r: nat) -> nat {
    if r >= size * 0x100_0000 {
        0
    } else {
        let c = rounded((size * 0x100_0000 - r) as nat);
        if c <= 0x200_0000 {
            c
        } else {
            0x200_0000
        }
    }
}

/// The level that goes with a coverage.
pub open spec fn level_of(covered: nat) -> int {
    (rounded(255 * covered) + 0x100_0000) as int / 0x200_0000
}

/// `level` is the level of a pixel with the given spread. Its distance is half the root
/// of the spread, so the root in units of 2^-23 is the distance in units of 2^-24.
pub open spec fn is_level(size: int, spread: nat, level: int) -> bool {
    exists|r: nat| #[trigger] is_root(spread, r) && level == level_of(coverage(size, r))
}

/// A mask for a bubble of `size` pixels, one level per pixel, row by row.
pub open spec fn is_circle_mask(mask: Seq<u8>, size: int) -> bool {
    &&& mask.len() == (2 * size) * (2 * size)
    &&& forall|x: int, y: int|
        0 <= x < 2 * size && 0 <= y < 2 * size ==> is_level(
            size,
            #[trigger] spread(size, x, y),
            mask[y * (2 * size) + x] as int,
        )
}

proof fn lemma_offset(size: int, x: int)
    requires
        0 <= size <= 11585,
        0 <= x < 2 * size,
    ensures
        1 <= (2 * x + 1 - 2 * size) * (2 * x + 1 - 2 * size) <= 23169 * 23169,
        1 <= rounded(offset_squared(size, x)) <= 0x2010_0000,
{
    let a = 2 * x + 1 - 2 * size;
    assert(a != 0);
    assert(1 <= a * a <= 23169 * 23169) by (nonlinear_arith)
        requires
            -23169 <= a <= 23169,
            a != 0,
    ;
    lemma_grain(offset_squared(size, x));
    lemma_rounded(offset_squared(size, x));
}

/// The spread of a pixel is positive and below 2^31.
pub proof fn lemma_spread(size: int, x: int, y: int)
    requires
        renderable(size),
        0 <= x < 2 * size,
        0 <= y < 2 * size,
    ensures
        1 <= spread(size, x, y) < 0x8000_0000,
{
    lemma_renderable_bound(size);
    lemma_offset(size, x);
    lemma_offset(size, y);
    let sum = rounded(offset_squared(size, x)) + rounded(offset_squared(size, y));
    lemma_grain(sum);
    lemma_rounded(sum);
}

proof fn lemma_level_range(covered: nat)
    requires
        covered <= 0x200_0000,
    ensures
        rounded(255 * covered) <= 255 * 0x200_0000,
        0 <= level_of(covered) <= 255,
{
    lemma_rounded_is_monotone(255 * covered, 255 * 0x200_0000);
    lemma_full_coverage();
}

proof fn lemma_full_coverage()
    ensures
        rounded(255 * 0x200_0000) == 255 * 0x200_0000,
        level_of(0x200_0000) == 255,
{
    reveal_with_fuel(grain, 11);
    assert(grain(255 * 0x200_0000) == 512);
}

/// The level of one pixel of the mask.
pub fn mask_level(size: usize, x: usize, y: usize) -> (level: u8)
    requires
        renderable(size as int),
        x < 2 * size,
        y < 2 * size,
    ensures
        is_level(size as int, spread(size as int, x as int, y as int), level as int),
{
    proof {
        lemma_renderable_bound(size as int);
        lemma_offset(size as int, x as int);
        lemma_offset(size as int, y as int);
        lemma_spread(size as int, x as int, y as int);
    }
    let s: i64 = size as i64;
    let a: i64 = 2 * (x as i64) + 1 - 2 * s;
    let b: i64 = 2 * (y as i64) + 1 - 2 * s;
    let a2: u64 = (a * a) as u64;
    let b2: u64 = (b * b) as u64;
    let distance: u64 = root_single(round_single(round_single(a2) + round_single(b2)));
    let reach: u64 = (size as u64) * 0x100_0000;
    let mut covered: u64 = 0;
    if distance < reach {
        covered = round_single(reach - distance);
        if covered > 0x200_0000 {
            covered = 0x200_0000;
        }
    }
    proof {
        assert(covered == coverage(size as int, distance as nat));
        lemma_level_range(covered as nat);
    }
    ((round_single(255 * covered) + 0x100_0000) / 0x200_0000) as u8
}

/// The mask for a bubble of `size` pixels.
pub fn circle_mask(size: usize) -> (mask: Vec<u8>)
    requires
        renderable(size as int),
    ensures
        is_circle_mask(mask@, size as int),
{
    proof {
        lemma_renderable_bound(size as int);
    }
    let side: usize = 2 * size;
    let mut mask: Vec<u8> = Vec::new();
    let mut y: usize = 0;
    while y < side
        invariant
            renderable(size as int),
            side == 2 * size,
            y <= side,
            mask@.len() == y * side,
            forall|x0: int, y0: int|
                0 <= x0 < side && 0 <= y0 < y ==> is_level(
                    size as int,
                    #[trigger] spread(size as int, x0, y0),
                    mask@[y0 * side + x0] as int,
                ),
        decreases side - y,
    {
        let mut x: usize = 0;
        while x < side
            invariant
                renderable(size as int),
                side == 2 * size,
                y < side,
                x <= side,
                mask@.len() == y * side + x,
                forall|x0: int, y0: int|
                    0 <= x0 < side && 0 <= y0 && (y0 < y || (y0 == y && x0 < x)) ==> is_level(
                        size as int,
                        #[trigger] spread(size as int, x0, y0),
                        mask@[y0 * side + x0] as int,
                    ),
            decreases side - x,
        {
            let ghost before = mask@;
            mask.push(mask_level(size, x, y));
            proof {
                assert forall|x0: int, y0: int|
                    0 <= x0 < side && 0 <= y0 && (y0 < y || (y0 == y && x0 < x
                        + 1)) implies is_level(
                    size as int,
                    #[trigger] spread(size as int, x0, y0),
                    mask@[y0 * side + x0] as int,
                ) by {
                    if !(y0 == y && x0 == x) {
                        lemma_earlier_pixel(side as int, x as int, y as int, x0, y0);
                        assert(mask@[y0 * side + x0] == before[y0 * side + x0]);
                    }
                }
            }
            x += 1;
        }
        proof {
            assert(y * side + side == (y + 1) * side) by (nonlinear_arith);
        }
        y += 1;
    }
    mask
}

/// Lays the circular mask of its size over the double-size rendering of a bubble.
pub fn mask_rendering(pixels: &mut Vec<u8>, size: usize)
    requires
        renderable(size as int),
        old(pixels)@.len() == image_bytes(2 * size),
    ensures
        exists|mask: Seq<u8>| #[trigger]
            is_circle_mask(mask, size as int) && final(pixels)@ == masked(old(pixels)@, mask),
{
    let mask: Vec<u8> = circle_mask(size);
    apply_mask(pixels, &mask);
}

/// The level that goes with a spread is unique, and never rises with the spread.
pub proof fn lemma_levels_fall_with_spread(size: int, near: nat, far: nat, a: int, b: int)
    requires
        1 <= near <= far,
        is_level(size, near, a),
        is_level(size, far, b),
    ensures
        a >= b,
        near == far ==> a == b,
{
    let r = choose|r: nat| #[trigger] is_root(near, r) && a == level_of(coverage(size, r));
    let u = choose|u: nat| #[trigger] is_root(far, u) && b == level_of(coverage(size, u));
    lemma_root_is_monotone(near, far, r, u);
    lemma_coverage_falls(size, r, u);
    if near == far {
        lemma_root_is_monotone(far, near, u, r);
    }
}

/// Levels never rise outwards: not to a pixel that is as far or farther from the middle
/// both across and down; not to one as far or farther from the centre whose squared
/// distance is small enough not to be rounded, as it is for every pixel up to a size of
/// 1448; and not to one that is farther by more than the rounding of the squares.
pub proof fn lemma_levels_fall_outwards(
    size: int,
    near_x: int,
    near_y: int,
    far_x: int,
    far_y: int,
    a: int,
    b: int,
)
    requires
        renderable(size),
        0 <= near_x < 2 * size,
        0 <= near_y < 2 * size,
        0 <= far_x < 2 * size,
        0 <= far_y < 2 * size,
        is_level(size, spread(size, near_x, near_y), a),
        is_level(size, spread(size, far_x, far_y), b),
    ensures
        offset_squared(size, near_x) <= offset_squared(size, far_x) && offset_squared(size, near_y)
            <= offset_squared(size, far_y) ==> a >= b,
        distance_squared(size, near_x, near_y) <= distance_squared(size, far_x, far_y)
            < 0x100_0000 ==> a >= b,
        0x100_0002 * distance_squared(size, near_x, near_y) + 256 <= 0xff_fffe * distance_squared(
            size,
            far_x,
            far_y,
        ) ==> a >= b,
{
    let near = spread(size, near_x, near_y);
    let far = spread(size, far_x, far_y);
    lemma_spread(size, near_x, near_y);
    lemma_spread(size, far_x, far_y);
    if offset_squared(size, near_x) <= offset_squared(size, far_x) && offset_squared(size, near_y)
        <= offset_squared(size, far_y) {
        lemma_rounded_is_monotone(offset_squared(size, near_x), offset_squared(size, far_x));
        lemma_rounded_is_monotone(offset_squared(size, near_y), offset_squared(size, far_y));
        lemma_rounded_is_monotone(
            rounded(offset_squared(size, near_x)) + rounded(offset_squared(size, near_y)),
            rounded(offset_squared(size, far_x)) + rounded(offset_squared(size, far_y)),
        );
        lemma_levels_fall_with_spread(size, near, far, a, b);
    }
    if distance_squared(size, near_x, near_y) <= distance_squared(size, far_x, far_y)
        < 0x100_0000 {
        lemma_spread_is_exact(size, near_x, near_y);
        lemma_spread_is_exact(size, far_x, far_y);
        lemma_levels_fall_with_spread(size, near, far, a, b);
    }
    if 0x100_0002 * distance_squared(size, near_x, near_y) + 256 <= 0xff_fffe * distance_squared(
        size,
        far_x,
        far_y,
    ) {
        lemma_spread_error(size, near_x, near_y);
        lemma_spread_error(size, far_x, far_y);
        lemma_levels_fall_with_spread(size, near, far, a, b);
    }
}

/// The spread of a pixel is exact where the squared distance is below 2^24, and so for
/// every pixel up to a size of 1448.
pub proof fn lemma_spread_is_exact(size: int, x: int, y: int)
    requires
        0 <= x < 2 * size,
        0 <= y < 2 * size,
    ensures
        distance_squared(size, x, y) < 0x100_0000 ==> spread(size, x, y) == distance_squared(
            size,
            x,
            y,
        ),
        size <= 1448 ==> distance_squared(size, x, y) < 0x100_0000,
{
    let a = 2 * x + 1 - 2 * size;
    let b = 2 * y + 1 - 2 * size;
    if size <= 1448 {
        assert(0 <= a * a <= 2895 * 2895) by (nonlinear_arith)
            requires
                -2895 <= a <= 2895,
        ;
        assert(0 <= b * b <= 2895 * 2895) by (nonlinear_arith)
            requires
                -2895 <= b <= 2895,
        ;
    }
    lemma_rounded(offset_squared(size, x));
    lemma_rounded(offset_squared(size, y));
    lemma_rounded(distance_squared(size, x, y));
}

/// Rounding moves a number by no more than one part in 2^24.
proof fn lemma_relative_error(n: nat)
    ensures
        0x100_0000 * rounded(n) <= 0x100_0001 * n,
        0xff_ffff * n <= 0x100_0000 * rounded(n),
{
    lemma_grain(n);
    lemma_rounded(n);
}

/// The spread of a pixel is off by little more than two parts in 2^24.
proof fn lemma_spread_error(size: int, x: int, y: int)
    requires
        renderable(size),
        0 <= x < 2 * size,
        0 <= y < 2 * size,
    ensures
        2 <= distance_squared(size, x, y) < 0x8000_0000,
        0x100_0000 * spread(size, x, y) <= 0x100_0002 * distance_squared(size, x, y) + 128,
        0xff_fffe * distance_squared(size, x, y) <= 0x100_0000 * spread(size, x, y) + 128,
{
    lemma_renderable_bound(size);
    lemma_offset(size, x);
    lemma_offset(size, y);
    lemma_relative_error(offset_squared(size, x));
    lemma_relative_error(offset_squared(size, y));
    lemma_relative_error(
        rounded(offset_squared(size, x)) + rounded(offset_squared(size, y)),
    );
}

proof fn lemma_coverage_falls(size: int, r: nat, u: nat)
    requires
        r <= u,
    ensures
        coverage(size, r) >= coverage(size, u),
        level_of(coverage(size, r)) >= level_of(coverage(size, u)),
{
    if u < size * 0x100_0000 {
        lemma_rounded_is_monotone(
            (size * 0x100_0000 - u) as nat,
            (size * 0x100_0000 - r) as nat,
        );
    }
    lemma_rounded_is_monotone(255 * coverage(size, u), 255 * coverage(size, r));
}

/// A pixel within `size - 2` of the centre is opaque, and one at a distance of `size` or
/// more is transparent.
pub proof fn lemma_level_inside_and_outside(size: int, x: int, y: int, level: int)
    requires
        2 <= size,
        renderable(size),
        0 <= x < 2 * size,
        0 <= y < 2 * size,
        is_level(size, spread(size, x, y), level),
    ensures
        distance_squared(size, x, y) <= (2 * size - 4) * (2 * size - 4) ==> level == 255,
        distance_squared(size, x, y) >= (2 * size) * (2 * size) ==> level == 0,
{
    let n = distance_squared(size, x, y);
    let q = spread(size, x, y);
    let r = choose|r: nat| #[trigger] is_root(q, r) && level == level_of(coverage(size, r));
    let p = root_floor(q) as int;
    lemma_renderable_bound(size);
    lemma_spread(size, x, y);
    lemma_spread_error(size, x, y);
    lemma_root_floor(q);
    assert(p <= 0x1_0000) by (nonlinear_arith)
        requires
            p * p < 0x8000_0000,
    ;
    let scale = 0x100_0000int;
    if n >= (2 * size) * (2 * size) {
        let d = 2 * size;
        lemma_root_from_below(q as int, n as int, d);
        let e = d * scale - 0x8000;
        assert(e <= 2 * r + p) by (nonlinear_arith)
            requires
                e * e <= (2 * r + p) * (2 * r + p),
                0 <= 2 * r + p,
        ;
        // What is left of the coverage is below half a level.
        lemma_rounded_is_monotone(
            if r >= size * scale {
                0
            } else {
                (size * scale - r) as nat
            },
            0xc000,
        );
        lemma_rounded(0xc000);
        assert(coverage(size, r) <= 0xc000);
        lemma_rounded(255 * coverage(size, r));
    }
    if n <= (2 * size - 4) * (2 * size - 4) {
        let d = 2 * size - 4;
        lemma_root_from_above(q as int, n as int, d);
        let e = d * scale + 0x8000;
        assert(2 * r - p < e) by (nonlinear_arith)
            requires
                (2 * r - p) * (2 * r - p) < e * e,
                0 <= e,
        ;
        // What is missing of the coverage is below half a level.
        let short = (0x200_0000 - 0xc000) as nat;
        lemma_rounded_is_monotone(short, (size * scale - r) as nat);
        lemma_rounded(short);
        lemma_grain(short);
        let c = coverage(size, r);
        assert(c >= 0x200_0000 - 0xc001);
        lemma_rounded(255 * c);
        lemma_grain(255 * c);
        lemma_level_range(c);
    }
}

proof fn lemma_root_from_below(q: int, n: int, d: int)
    requires
        4 <= d <= 23170,
        d * d <= n,
        0xff_fffe * n <= 0x100_0000 * q + 128,
    ensures
        (d * 0x100_0000 - 0x8000) * (d * 0x100_0000 - 0x8000) <= q * 0x1_0000_0000_0000,
{
    assert((d * 0x100_0000 - 0x8000) * (d * 0x100_0000 - 0x8000) == 0x1_0000_0000_0000 * (d * d)
        - 0x100_0000_0000 * d + 0x4000_0000) by (nonlinear_arith);
    assert(d * (0x8000 - d) >= 96) by (nonlinear_arith)
        requires
            4 <= d <= 23170,
    ;
    assert(d * (0x8000 - d) == 0x8000 * d - d * d) by (nonlinear_arith);
}

proof fn lemma_root_from_above(q: int, n: int, d: int)
    requires
        0 <= d <= 23170,
        2 <= n <= d * d,
        0x100_0000 * q <= 0x100_0002 * n + 128,
    ensures
        q * 0x1_0000_0000_0000 <= (d * 0x100_0000 + 0x8000) * (d * 0x100_0000 + 0x8000),
{
    assert((d * 0x100_0000 + 0x8000) * (d * 0x100_0000 + 0x8000) == 0x1_0000_0000_0000 * (d * d)
        + 0x100_0000_0000 * d + 0x4000_0000) by (nonlinear_arith);
    assert(d != 0) by (nonlinear_arith)
        requires
            2 <= d * d,
    ;
    assert(d * (0x8000 - d) >= 96) by (nonlinear_arith)
        requires
            1 <= d <= 23170,
    ;
    assert(d * (0x8000 - d) == 0x8000 * d - d * d) by (nonlinear_arith);
}

/// The mask is symmetric: turning it over along its middle or along its diagonal
/// changes nothing.
pub proof fn lemma_mask_is_symmetric(mask: Seq<u8>, size: int, x: int, y: int)
    requires
        renderable(size),
        is_circle_mask(mask, size),
        0 <= x < 2 * size,
        0 <= y < 2 * size,
    ensures
        mask[y * (2 * size) + x] == mask[y * (2 * size) + (2 * size - 1 - x)],
        mask[y * (2 * size) + x] == mask[x * (2 * size) + y],
{
    let q = spread(size, x, y);
    let a = 2 * x + 1 - 2 * size;
    assert(2 * (2 * size - 1 - x) + 1 - 2 * size == -a);
    assert((-a) * (-a) == a * a) by (nonlinear_arith);
    assert(q == spread(size, 2 * size - 1 - x, y));
    assert(q == spread(size, y, x));
    lemma_spread(size, x, y);
    lemma_levels_fall_with_spread(
        size,
        q,
        q,
        mask[y * (2 * size) + x] as int,
        mask[y * (2 * size) + (2 * size - 1 - x)] as int,
    );
    lemma_levels_fall_with_spread(
        size,
        q,
        q,
        mask[y * (2 * size) + x] as int,
        mask[x * (2 * size) + y] as int,
    );
}

/// The bubble is round. A pixel of it that lies outside the circle on all its four
/// rendered pixels is wholly transparent, whatever the icon shows there; one that lies
/// inside on all four is opaque and shows the mean of the icon there.
pub proof fn lemma_bubble_is_round(
    rendered: Seq<u8>,
    mask: Seq<u8>,
    bubble: Seq<u8>,
    size: int,
    x: int,
    y: int,
    c: int,
)
    requires
        2 <= size,
        renderable(size),
        rendered.len() == image_bytes(2 * size),
        is_circle_mask(mask, size),
        is_half_of(bubble, masked(rendered, mask), size),
        0 <= x < size,
        0 <= y < size,
        0 <= c < 4,
    ensures
        (forall|dx: int, dy: int|
            0 <= dx < 2 && 0 <= dy < 2 ==> #[trigger] distance_squared(
                size,
                2 * x + dx,
                2 * y + dy,
            ) >= (2 * size) * (2 * size)) ==> channel_at(bubble, size, x, y, c) == 0,
        (forall|dx: int, dy: int|
            0 <= dx < 2 && 0 <= dy < 2 ==> #[trigger] distance_squared(
                size,
                2 * x + dx,
                2 * y + dy,
            ) <= (2 * size - 4) * (2 * size - 4)) ==> channel_at(bubble, size, x, y, c) == (if c
            == 3 {
            255
        } else {
            block_mean(rendered, size, x, y, c)
        }),
{
    let m = masked(rendered, mask);
    lemma_renderable_bound(size);
    assert(channel_at(bubble, size, x, y, c) == block_mean(m, size, x, y, c));
    assert forall|dx: int, dy: int| 0 <= dx < 2 && 0 <= dy < 2 implies {
        let n = #[trigger] distance_squared(size, 2 * x + dx, 2 * y + dy);
        let byte = channel_at(m, 2 * size, 2 * x + dx, 2 * y + dy, c);
        &&& n >= (2 * size) * (2 * size) ==> byte == 0
        &&& n <= (2 * size - 4) * (2 * size - 4) ==> byte == (if c == 3 {
            255
        } else {
            channel_at(rendered, 2 * size, 2 * x + dx, 2 * y + dy, c)
        })
    } by {
        let q = spread(size, 2 * x + dx, 2 * y + dy);
        lemma_level_inside_and_outside(
            size,
            2 * x + dx,
            2 * y + dy,
            mask[(2 * y + dy) * (2 * size) + (2 * x + dx)] as int,
        );
        lemma_mask_extremes(rendered, mask, 2 * size, 2 * x + dx, 2 * y + dy);
    }
    let a0 = distance_squared(size, 2 * x + 0, 2 * y + 0);
    let a1 = distance_squared(size, 2 * x + 1, 2 * y + 0);
    let a2 = distance_squared(size, 2 * x + 0, 2 * y + 1);
    let a3 = distance_squared(size, 2 * x + 1, 2 * y + 1);
    assert(2 * x + 0 == 2 * x && 2 * y + 0 == 2 * y);
}

proof fn lemma_not_too_bright(size: int, x: int, y: int, level: int)
    requires
        2 <= size,
        renderable(size),
        0 <= x < 2 * size,
        0 <= y < 2 * size,
        is_level(size, spread(size, x, y), level),
        0 < level <= 255,
    ensures
        65025 * distance_squared(size, x, y) < (510 * size - 4 * (level - 1)) * (510 * size - 4 * (
        level - 1)),
{
    let n = distance_squared(size, x, y) as int;
    let q = spread(size, x, y);
    let r = choose|r: nat| #[trigger] is_root(q, r) && level == level_of(coverage(size, r));
    let p = root_floor(q) as int;
    lemma_renderable_bound(size);
    lemma_spread(size, x, y);
    lemma_spread_error(size, x, y);
    lemma_root_floor(q);
    assert(p <= 0x1_0000) by (nonlinear_arith)
        requires
            p * p < 0x8000_0000,
    ;
    let a = 510 * size - 4 * (level - 1);
    if 65025 * n >= a * a {
        let top = 255 * (2 * r + p);
        let e = a * 0x100_0000 - 8_355_840;
        assert(top * top == 65025 * ((2 * r + p) * (2 * r + p))) by (nonlinear_arith)
            requires
                top == 255 * (2 * r + p),
        ;
        assert(e * e == 0x1_0000_0000_0000 * (a * a) - 0x200_0000 * (a * 8_355_840) + 8_355_840
            * 8_355_840) by (nonlinear_arith)
            requires
                e == a * 0x100_0000 - 8_355_840,
        ;
        assert(a * (8_355_840 - a) >= 6_242_400) by (nonlinear_arith)
            requires
                4 <= a <= 5_908_354,
        ;
        assert(a * (8_355_840 - a) == a * 8_355_840 - a * a) by (nonlinear_arith);
        assert(e * e <= top * top);
        assert(e <= top) by (nonlinear_arith)
            requires
                e * e <= top * top,
                0 <= top,
        ;
        let left = size * 0x100_0000 - r;
        assert(255 * left <= 0x200_0000 * (level - 1) + 12_533_760);
        let c = coverage(size, r);
        if left > 0 {
            lemma_rounded(left as nat);
            lemma_grain(left as nat);
            assert(c <= left + 1);
        }
        assert(255 * c <= 0x200_0000 * (level - 1) + 12_534_015);
        lemma_rounded(255 * c);
        lemma_grain(255 * c);
        assert(false);
    }
}

proof fn lemma_not_too_dark(size: int, x: int, y: int, level: int)
    requires
        2 <= size,
        renderable(size),
        0 <= x < 2 * size,
        0 <= y < 2 * size,
        is_level(size, spread(size, x, y), level),
        0 <= level < 255,
    ensures
        (510 * size - 4 * (level + 1)) * (510 * size - 4 * (level + 1)) < 65025 * distance_squared(
            size,
            x,
            y,
        ),
{
    let n = distance_squared(size, x, y) as int;
    let q = spread(size, x, y);
    let r = choose|r: nat| #[trigger] is_root(q, r) && level == level_of(coverage(size, r));
    let p = root_floor(q) as int;
    lemma_renderable_bound(size);
    lemma_spread(size, x, y);
    lemma_spread_error(size, x, y);
    lemma_root_floor(q);
    assert(p <= 0x1_0000) by (nonlinear_arith)
        requires
            p * p < 0x8000_0000,
    ;
    let b = 510 * size - 4 * (level + 1);
    if 65025 * n <= b * b {
        assert(b >= 1) by (nonlinear_arith)
            requires
                130_050 <= b * b,
                0 <= b,
        ;
        let low = 255 * (2 * r - p);
        let e = b * 0x100_0000 + 8_355_840;
        assert(low * low == 65025 * ((2 * r - p) * (2 * r - p))) by (nonlinear_arith)
            requires
                low == 255 * (2 * r - p),
        ;
        assert(e * e == 0x1_0000_0000_0000 * (b * b) + 0x200_0000 * (b * 8_355_840) + 8_355_840
            * 8_355_840) by (nonlinear_arith)
            requires
                e == b * 0x100_0000 + 8_355_840,
        ;
        assert(b * (8_355_840 - b) >= 4_161_600) by (nonlinear_arith)
            requires
                1 <= b <= 5_908_354,
        ;
        assert(b * (8_355_840 - b) == b * 8_355_840 - b * b) by (nonlinear_arith);
        assert(low * low < e * e);
        assert(low < e) by (nonlinear_arith)
            requires
                low * low < e * e,
                0 <= e,
        ;
        let left = size * 0x100_0000 - r;
        assert(255 * left > 0x200_0000 * (level + 1) - 12_533_760);
        let c = coverage(size, r);
        lemma_rounded(left as nat);
        lemma_grain(left as nat);
        if left > 0x200_0000 {
            lemma_rounded_is_monotone(0x200_0000, left as nat);
            lemma_rounded(0x200_0000);
            lemma_power_stays();
            assert(c == 0x200_0000);
        } else {
            assert(c >= left - 1);
        }
        assert(255 * c >= 0x200_0000 * (level + 1) - 12_534_015);
        lemma_rounded(255 * c);
        lemma_grain(255 * c);
        assert(false);
    }
}

proof fn lemma_power_stays()
    ensures
        rounded(0x200_0000) == 0x200_0000,
{
    reveal_with_fuel(grain, 3);
    assert(grain(0x200_0000) == 4);
}

/// The level of a pixel is within one of 255 times half of what its exact distance from
/// the centre falls short of `size`: the distance is half the root of the sum of the
/// squares of twice its offsets across and down.
pub proof fn lemma_level_is_near_the_exact(mask: Seq<u8>, size: int, x: int, y: int)
    requires
        2 <= size,
        renderable(size),
        is_circle_mask(mask, size),
        0 <= x < 2 * size,
        0 <= y < 2 * size,
    ensures
        mask.len() == 4 * (size * size),
        ({
            let level = mask[y * (2 * size) + x];
            let across = 2 * x + 1 - 2 * size;
            let down = 2 * y + 1 - 2 * size;
            let brightest = 510 * size - 4 * (level - 1);
            let darkest = 510 * size - 4 * (level + 1);
            &&& level > 0 ==> 65025 * (across * across + down * down) < brightest * brightest
            &&& level < 255 ==> darkest * darkest < 65025 * (across * across + down * down)
        }),
{
    let level = mask[y * (2 * size) + x];
    let across = 2 * x + 1 - 2 * size;
    let down = 2 * y + 1 - 2 * size;
    let q = spread(size, x, y);
    assert(is_level(size, q, level as int));
    assert(across * across >= 0 && down * down >= 0) by (nonlinear_arith);
    assert((2 * size) * (2 * size) == 4 * (size * size)) by (nonlinear_arith);
    if level > 0 {
        lemma_not_too_bright(size, x, y, level as int);
    }
    if level < 255 {
        lemma_not_too_dark(size, x, y, level as int);
    }
}

/// The level of a pixel in single precision, step by step. The squares of its offsets, and
/// their sum, are rounded. So is what the distance falls short of `size`, which counts as
/// nothing below zero and as one from two on. So is 255 times that; the level is the whole
/// number nearest to it, the upper one of two equally near.
pub proof fn lemma_steps_of_a_level(size: int, x: int, y: int, r: nat)
    ensures
        ({
            let across = 2 * x + 1 - 2 * size;
            let down = 2 * y + 1 - 2 * size;
            let left = size * 0x100_0000 - r;
            let covered = coverage(size, r);
            let level = level_of(covered);
            &&& spread(size, x, y) == rounded(
                rounded((across * across) as nat) + rounded((down * down) as nat),
            )
            &&& left <= 0 ==> covered == 0
            &&& left > 0 && rounded(left as nat) <= 0x200_0000 ==> covered == rounded(left as nat)
            &&& left > 0 && rounded(left as nat) > 0x200_0000 ==> covered == 0x200_0000
            &&& -0x200_0000 <= 2 * (rounded(255 * covered) - level * 0x200_0000)
            &&& 2 * (rounded(255 * covered) - level * 0x200_0000) < 0x200_0000
        }),
{
}

} // verus!
