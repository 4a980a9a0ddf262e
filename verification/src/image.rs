//! Pixel work for the bubble icon: the square crop, the premultiplied mask and
//! the two-to-one box filter. Pixels are 32-bit, in the byte order blue, green,
//! red, alpha, rows from top to bottom.
use vstd::prelude::*;

verus! {

/// The square cut out of the middle of an image.
#[derive(Clone, Copy, PartialEq, Eq, Structural, Debug)]
pub struct Crop {
    pub x: i32,
    pub y: i32,
    pub side: i32,
}

/// The shorter of the two sides of an image.
pub open spec fn short_side(width: u32, height: u32) -> u32 {
    if width <= height {
        width
    } else {
        height
    }
}

/// The signed reading of a 32-bit pattern.
pub open spec fn signed(value: u32) -> int {
    if value <= i32::MAX {
        value as int
    } else {
        value - 0x1_0000_0000
    }
}

/// The largest centred square of an image of the given dimensions. The side is the
/// signed reading of its bits, so a side of 2^31 or more is negative.
pub open spec fn crop_of(width: u32, height: u32) -> Crop {
    Crop {
        x: ((width - short_side(width, height)) / 2) as i32,
        y: ((height - short_side(width, height)) / 2) as i32,
        side: signed(short_side(width, height)) as i32,
    }
}

/// Cuts the largest centred square out of an image of the given dimensions.
/// An image without any pixels has none.
pub fn crop_square(width: u32, height: u32) -> (crop: Option<Crop>)
    ensures
        crop == (if width == 0 || height == 0 {
            None
        } else {
            Some(crop_of(width, height))
        }),
{
    if width == 0 || height == 0 {
        return None;
    }
    let side: u32 = if width <= height {
        width
    } else {
        height
    };
    proof {
        assert(side <= 0x7fff_ffffu32 ==> side as i32 == side) by (bit_vector);
        assert(side > 0x7fff_ffffu32 ==> side as i32 == side - 0x1_0000_0000) by (bit_vector);
    }
    Some(
        Crop {
            x: ((width - side) / 2) as i32,
            y: ((height - side) / 2) as i32,
            side: #[verifier::truncate] (side as i32),
        },
    )
}

/// The crop lies inside the image, touches two opposite edges of it and is
/// centred to within one pixel.
pub proof fn lemma_crop_is_centred(width: u32, height: u32)
    requires
        width > 0,
        height > 0,
        short_side(width, height) <= i32::MAX,
    ensures
        ({
            let crop = crop_of(width, height);
            &&& crop.x >= 0 && crop.y >= 0 && crop.side > 0
            &&& crop.x + crop.side <= width && crop.y + crop.side <= height
            &&& crop.side == width || crop.side == height
            &&& 0 <= (width - crop.x - crop.side) - crop.x <= 1
            &&& 0 <= (height - crop.y - crop.side) - crop.y <= 1
        }),
{
}

/// One colour channel scaled by an alpha value.
pub open spec fn scaled(channel: u8, alpha: u8) -> int {
    (channel * alpha) / 255
}

/// One colour channel scaled by an alpha value, rounded down.
pub fn scale_channel(channel: u8, alpha: u8) -> (r: u8)
    ensures
        r == scaled(channel, alpha),
        255 * r <= channel * alpha < 255 * (r + 1),
        r <= alpha,
        r <= channel,
{
    proof {
        lemma_scaled_bounds(channel, alpha);
    }
    ((channel as u32 * alpha as u32) / 255) as u8
}

proof fn lemma_scaled_bounds(channel: u8, alpha: u8)
    ensures
        0 <= channel * alpha <= 255 * 255,
        0 <= scaled(channel, alpha) <= alpha,
        scaled(channel, alpha) <= channel,
{
    assert(0 <= channel * alpha <= 255 * alpha && channel * alpha <= channel * 255
        && 255 * alpha <= 255 * 255) by (nonlinear_arith)
        requires
            0 <= channel <= 255,
            0 <= alpha <= 255,
    ;
}

/// What masking leaves of byte `k` of an image, where `mask` holds one alpha value
/// per pixel: the colours are scaled by the alpha value of their pixel, and the
/// alpha byte is that value.
pub open spec fn masked_byte(pixels: Seq<u8>, mask: Seq<u8>, k: int) -> int {
    if k % 4 == 3 {
        mask[k / 4] as int
    } else {
        scaled(pixels[k], mask[k / 4])
    }
}

/// An image with an alpha mask laid over it.
pub open spec fn masked(pixels: Seq<u8>, mask: Seq<u8>) -> Seq<u8> {
    Seq::new(pixels.len(), |k: int| masked_byte(pixels, mask, k) as u8)
}

/// Lays an alpha mask, one value per pixel, over an image: the colours become
/// premultiplied and the alpha bytes are replaced.
pub fn apply_mask(pixels: &mut Vec<u8>, mask: &Vec<u8>)
    requires
        old(pixels)@.len() == 4 * mask@.len(),
    ensures
        final(pixels)@ == masked(old(pixels)@, mask@),
{
    let total: usize = pixels.len();
    let mut i: usize = 0;
    while i < mask.len()
        invariant
            i <= mask@.len(),
            pixels@.len() == total,
            pixels@.len() == old(pixels)@.len(),
            pixels@.len() == 4 * mask@.len(),
            forall|k: int|
                0 <= k < 4 * i ==> #[trigger] pixels@[k] == masked_byte(
                    old(pixels)@,
                    mask@,
                    k,
                ),
            forall|k: int|
                4 * i <= k < pixels@.len() ==> #[trigger] pixels@[k] == old(pixels)@[k],
        decreases mask@.len() - i,
    {
        let at: usize = i * 4;
        let alpha: u8 = mask[i];
        let b: u8 = scale_channel(pixels[at], alpha);
        let g: u8 = scale_channel(pixels[at + 1], alpha);
        let r: u8 = scale_channel(pixels[at + 2], alpha);
        pixels.set(at, b);
        pixels.set(at + 1, g);
        pixels.set(at + 2, r);
        pixels.set(at + 3, alpha);
        i += 1;
    }
}

/// The byte of channel `c` of the pixel in column `x` and row `y` of an image
/// `width` pixels wide.
pub open spec fn channel_at(pixels: Seq<u8>, width: int, x: int, y: int, c: int) -> u8 {
    pixels[(y * width + x) * 4 + c]
}

/// The mean, rounded down, of the two-by-two block of a `2 * size` wide image that
/// falls on one pixel of the `size` wide one.
pub open spec fn block_mean(pixels: Seq<u8>, size: int, x: int, y: int, c: int) -> int {
    (channel_at(pixels, 2 * size, 2 * x, 2 * y, c) + channel_at(
        pixels,
        2 * size,
        2 * x + 1,
        2 * y,
        c,
    ) + channel_at(pixels, 2 * size, 2 * x, 2 * y + 1, c) + channel_at(
        pixels,
        2 * size,
        2 * x + 1,
        2 * y + 1,
        c,
    )) / 4
}

/// `half` is the box-filtered half-size version of `pixels`.
pub open spec fn is_half_of(half: Seq<u8>, pixels: Seq<u8>, size: int) -> bool {
    &&& half.len() == image_bytes(size)
    &&& forall|x: int, y: int, c: int|
        0 <= x < size && 0 <= y < size && 0 <= c < 4 ==> #[trigger] channel_at(half, size, x, y, c)
            == block_mean(pixels, size, x, y, c)
}

/// A bubble of `size` pixels can be rendered at twice its size: every byte of the
/// double-size image has a 32-bit signed index.
pub open spec fn renderable(size: int) -> bool {
    0 <= size && 16 * (size * size) <= i32::MAX
}

/// Whether a bubble of `size` pixels can be rendered at twice its size.
pub fn is_renderable(size: i32) -> (b: bool)
    ensures
        b == renderable(size as int),
{
    proof {
        lemma_renderable_bound(size as int);
    }
    0 <= size && size <= 11585
}

/// 11585 is the largest renderable size.
pub proof fn lemma_renderable_bound(size: int)
    ensures
        renderable(size) <==> 0 <= size <= 11585,
{
    if 0 <= size <= 11585 {
        assert(size * size <= 11585 * 11585) by (nonlinear_arith)
            requires
                0 <= size <= 11585,
        ;
    } else if size > 11585 {
        assert(size * size >= 11586 * 11586) by (nonlinear_arith)
            requires
                size >= 11586,
        ;
    }
}

/// The number of bytes in a square image.
pub open spec fn image_bytes(side: int) -> int {
    (side * side) * 4
}

proof fn lemma_pixel_index(side: int, x: int, y: int, c: int)
    requires
        0 <= x < side,
        0 <= y < side,
        0 <= c < 4,
    ensures
        0 <= (y * side + x) * 4 + c < image_bytes(side),
        0 <= y * side,
        y * side + side == (y + 1) * side,
        (y + 1) * side <= side * side,
{
    assert(0 <= y * side && y * side + side == (y + 1) * side && (y + 1) * side <= side * side)
        by (nonlinear_arith)
        requires
            0 <= y < side,
    ;
}

pub(crate) proof fn lemma_earlier_pixel(side: int, x: int, y: int, x0: int, y0: int)
    requires
        0 <= x < side,
        0 <= x0 < side,
        0 <= y0,
        y0 < y || (y0 == y && x0 < x),
    ensures
        0 <= y0 * side + x0 < y * side + x,
{
    assert(y0 < y ==> y0 * side + side <= y * side) by (nonlinear_arith)
        requires
            0 < side,
    ;
    assert(0 <= y0 * side) by (nonlinear_arith)
        requires
            0 <= y0,
            0 < side,
    ;
}

/// One channel of one pixel of the half-size image.
fn mean_of_block(pixels: &Vec<u8>, size: usize, x: usize, y: usize, c: usize) -> (m: u8)
    requires
        renderable(size as int),
        pixels@.len() == image_bytes(2 * size),
        x < size,
        y < size,
        c < 4,
    ensures
        m == block_mean(pixels@, size as int, x as int, y as int, c as int),
{
    proof {
        lemma_renderable_bound(size as int);
    }
    let width: usize = size * 2;
    proof {
        lemma_pixel_index(width as int, 2 * x, 2 * y, c as int);
        lemma_pixel_index(width as int, 2 * x + 1, 2 * y, c as int);
        lemma_pixel_index(width as int, 2 * x, 2 * y + 1, c as int);
        lemma_pixel_index(width as int, 2 * x + 1, 2 * y + 1, c as int);
        assert(width * width <= 23170 * 23170) by (nonlinear_arith)
            requires
                0 <= width <= 23170,
        ;
    }
    let a: u8 = pixels[((y * 2) * width + x * 2) * 4 + c];
    let b: u8 = pixels[((y * 2) * width + (x * 2 + 1)) * 4 + c];
    let d: u8 = pixels[((y * 2 + 1) * width + x * 2) * 4 + c];
    let e: u8 = pixels[((y * 2 + 1) * width + (x * 2 + 1)) * 4 + c];
    ((a as u32 + b as u32 + d as u32 + e as u32) / 4) as u8
}

/// Halves an image of `2 * size` by `2 * size` pixels with a box filter: each
/// channel of each pixel is the mean, rounded down, of the block it stands for.
pub fn downsample(pixels: &Vec<u8>, size: usize) -> (half: Vec<u8>)
    requires
        renderable(size as int),
        pixels@.len() == image_bytes(2 * size),
    ensures
        is_half_of(half@, pixels@, size as int),
{
    let mut half: Vec<u8> = Vec::new();
    let mut y: usize = 0;
    while y < size
        invariant
            renderable(size as int),
            pixels@.len() == image_bytes(2 * size),
            y <= size,
            half@.len() == (y * size) * 4,
            forall|x0: int, y0: int, c: int|
                0 <= x0 < size && 0 <= y0 < y && 0 <= c < 4 ==> #[trigger] channel_at(
                    half@,
                    size as int,
                    x0,
                    y0,
                    c,
                ) == block_mean(pixels@, size as int, x0, y0, c),
        decreases size - y,
    {
        let mut x: usize = 0;
        while x < size
            invariant
                renderable(size as int),
                pixels@.len() == image_bytes(2 * size),
                y < size,
                x <= size,
                half@.len() == (y * size + x) * 4,
                forall|x0: int, y0: int, c: int|
                    0 <= x0 < size && 0 <= y0 && (y0 < y || (y0 == y && x0 < x)) && 0 <= c < 4
                        ==> #[trigger] channel_at(half@, size as int, x0, y0, c) == block_mean(
                        pixels@,
                        size as int,
                        x0,
                        y0,
                        c,
                    ),
            decreases size - x,
        {
            let ghost before = half@;
            let m0: u8 = mean_of_block(pixels, size, x, y, 0);
            let m1: u8 = mean_of_block(pixels, size, x, y, 1);
            let m2: u8 = mean_of_block(pixels, size, x, y, 2);
            let m3: u8 = mean_of_block(pixels, size, x, y, 3);
            half.push(m0);
            half.push(m1);
            half.push(m2);
            half.push(m3);
            proof {
                assert forall|x0: int, y0: int, c: int|
                    0 <= x0 < size && 0 <= y0 && (y0 < y || (y0 == y && x0 < x + 1)) && 0 <= c
                        < 4 implies #[trigger] channel_at(half@, size as int, x0, y0, c)
                    == block_mean(pixels@, size as int, x0, y0, c) by {
                    if y0 == y && x0 == x {
                        assert(c == 0 || c == 1 || c == 2 || c == 3);
                    } else {
                        lemma_earlier_pixel(size as int, x as int, y as int, x0, y0);
                        assert(channel_at(half@, size as int, x0, y0, c) == channel_at(
                            before,
                            size as int,
                            x0,
                            y0,
                            c,
                        ));
                    }
                }
            }
            x += 1;
        }
        proof {
            assert(y * size + size == (y + 1) * size) by (nonlinear_arith);
        }
        y += 1;
    }
    half
}

/// No colour channel of a square image exceeds the alpha value of its pixel.
pub open spec fn is_premultiplied(pixels: Seq<u8>, side: int) -> bool {
    forall|x: int, y: int, c: int|
        0 <= x < side && 0 <= y < side && 0 <= c < 3 ==> #[trigger] channel_at(
            pixels,
            side,
            x,
            y,
            c,
        ) <= channel_at(pixels, side, x, y, 3)
}

/// Whatever image and mask it is made of, a baked bubble is premultiplied.
pub proof fn lemma_baked_bubble_is_premultiplied(
    rendered: Seq<u8>,
    mask: Seq<u8>,
    bubble: Seq<u8>,
    size: int,
)
    requires
        renderable(size),
        rendered.len() == image_bytes(2 * size),
        4 * mask.len() == rendered.len(),
        is_half_of(bubble, masked(rendered, mask), size),
    ensures
        is_premultiplied(masked(rendered, mask), 2 * size),
        is_premultiplied(bubble, size),
{
    let m = masked(rendered, mask);
    assert forall|x: int, y: int, c: int|
        0 <= x < 2 * size && 0 <= y < 2 * size && 0 <= c < 3 implies #[trigger] channel_at(
        m,
        2 * size,
        x,
        y,
        c,
    ) <= channel_at(m, 2 * size, x, y, 3) by {
        lemma_masked_channel(rendered, mask, 2 * size, x, y);
        lemma_scaled_bounds(
            channel_at(rendered, 2 * size, x, y, c),
            mask[y * (2 * size) + x],
        );
    }
    assert forall|x: int, y: int, c: int|
        0 <= x < size && 0 <= y < size && 0 <= c < 3 implies #[trigger] channel_at(
        bubble,
        size,
        x,
        y,
        c,
    ) <= channel_at(bubble, size, x, y, 3) by {
        assert(channel_at(m, 2 * size, 2 * x, 2 * y, c) <= channel_at(
            m,
            2 * size,
            2 * x,
            2 * y,
            3,
        ));
        assert(channel_at(m, 2 * size, 2 * x + 1, 2 * y, c) <= channel_at(
            m,
            2 * size,
            2 * x + 1,
            2 * y,
            3,
        ));
        assert(channel_at(m, 2 * size, 2 * x, 2 * y + 1, c) <= channel_at(
            m,
            2 * size,
            2 * x,
            2 * y + 1,
            3,
        ));
        assert(channel_at(m, 2 * size, 2 * x + 1, 2 * y + 1, c) <= channel_at(
            m,
            2 * size,
            2 * x + 1,
            2 * y + 1,
            3,
        ));
        assert(channel_at(bubble, size, x, y, 3) == block_mean(m, size, x, y, 3));
    }
}

/// The channels of one pixel of a masked square image.
proof fn lemma_masked_channel(pixels: Seq<u8>, mask: Seq<u8>, side: int, x: int, y: int)
    requires
        0 <= x < side,
        0 <= y < side,
        pixels.len() == image_bytes(side),
        4 * mask.len() == pixels.len(),
    ensures
        channel_at(masked(pixels, mask), side, x, y, 3) == mask[y * side + x],
        forall|c: int|
            0 <= c < 3 ==> #[trigger] channel_at(masked(pixels, mask), side, x, y, c) == scaled(
                channel_at(pixels, side, x, y, c),
                mask[y * side + x],
            ),
{
    lemma_pixel_index(side, x, y, 3);
    assert forall|c: int| 0 <= c < 3 implies #[trigger] channel_at(
        masked(pixels, mask),
        side,
        x,
        y,
        c,
    ) == scaled(channel_at(pixels, side, x, y, c), mask[y * side + x]) by {
        lemma_pixel_index(side, x, y, c);
        lemma_scaled_bounds(channel_at(pixels, side, x, y, c), mask[y * side + x]);
    }
}

/// Masking makes the mask the alpha channel. It keeps the colours where the mask is full,
/// and erases the pixel where it is empty.
pub proof fn lemma_mask_extremes(pixels: Seq<u8>, mask: Seq<u8>, side: int, x: int, y: int)
    requires
        0 <= x < side,
        0 <= y < side,
        pixels.len() == image_bytes(side),
        4 * mask.len() == pixels.len(),
    ensures
        channel_at(masked(pixels, mask), side, x, y, 3) == mask[y * side + x],
        mask[y * side + x] == 255 ==> forall|c: int|
            0 <= c < 3 ==> #[trigger] channel_at(masked(pixels, mask), side, x, y, c)
                == channel_at(pixels, side, x, y, c),
        mask[y * side + x] == 0 ==> forall|c: int|
            0 <= c < 4 ==> #[trigger] channel_at(masked(pixels, mask), side, x, y, c) == 0,
{
    lemma_masked_channel(pixels, mask, side, x, y);
}

/// The box filter keeps the value of a channel on which all four pixels of a block
/// agree, and never leaves the range of the four.
pub proof fn lemma_block_mean_is_between(
    pixels: Seq<u8>,
    size: int,
    x: int,
    y: int,
    c: int,
    low: u8,
    high: u8,
)
    requires
        forall|dx: int, dy: int|
            0 <= dx < 2 && 0 <= dy < 2 ==> low <= #[trigger] channel_at(
                pixels,
                2 * size,
                2 * x + dx,
                2 * y + dy,
                c,
            ) <= high,
    ensures
        low <= block_mean(pixels, size, x, y, c) <= high,
{
    assert(low <= channel_at(pixels, 2 * size, 2 * x + 0, 2 * y + 0, c) <= high);
    assert(low <= channel_at(pixels, 2 * size, 2 * x + 1, 2 * y + 0, c) <= high);
    assert(low <= channel_at(pixels, 2 * size, 2 * x + 0, 2 * y + 1, c) <= high);
    assert(low <= channel_at(pixels, 2 * size, 2 * x + 1, 2 * y + 1, c) <= high);
}

/// The crop is the largest centred square: as wide as the image or as high, no larger than
/// it either way, and with the rest of the image in equal parts on both sides of it, the
/// odd pixel after it. A side of 2^31 or more reads as that much less 2^32.
pub proof fn lemma_crop_is_largest(width: u32, height: u32)
    ensures
        ({
            let crop = crop_of(width, height);
            let side = if crop.side >= 0 {
                crop.side as int
            } else {
                crop.side + 0x1_0000_0000
            };
            &&& side <= width && side <= height
            &&& side == width || side == height
            &&& 2 * crop.x + side == width || 2 * crop.x + side + 1 == width
            &&& 2 * crop.y + side == height || 2 * crop.y + side + 1 == height
        }),
{
}

/// A scaled channel is the largest whole number whose share of 255 is no more than the
/// alpha value's share of the channel; the two can change places.
pub proof fn lemma_scaling_rounds_down(channel: u8, alpha: u8)
    ensures
        255 * scaled(channel, alpha) <= channel * alpha,
        channel * alpha < 255 * (scaled(channel, alpha) + 1),
        scaled(channel, alpha) == scaled(alpha, channel),
{
    assert(channel * alpha == alpha * channel) by (nonlinear_arith);
}

/// Masking replaces the last byte of every pixel by the alpha value of that pixel, and
/// scales each of the three before it by that value, rounding down.
pub proof fn lemma_masking(pixels: Seq<u8>, mask: Seq<u8>, pixel: int, c: int)
    requires
        pixels.len() == 4 * mask.len(),
        0 <= pixel < mask.len(),
        0 <= c < 3,
    ensures
        masked(pixels, mask).len() == pixels.len(),
        masked(pixels, mask)[4 * pixel + 3] == mask[pixel],
        255 * masked(pixels, mask)[4 * pixel + c] <= pixels[4 * pixel + c] * mask[pixel],
        pixels[4 * pixel + c] * mask[pixel] < 255 * (masked(pixels, mask)[4 * pixel + c] + 1),
{
    let k = 4 * pixel + c;
    assert(k / 4 == pixel && k % 4 == c);
    assert((4 * pixel + 3) / 4 == pixel && (4 * pixel + 3) % 4 == 3);
    lemma_scaled_bounds(pixels[k], mask[pixel]);
    lemma_scaling_rounds_down(pixels[k], mask[pixel]);
}

/// Four times a channel of a half-size pixel is at most the sum of that channel over the
/// four pixels of its block, and more than that sum less four.
pub proof fn lemma_half_is_the_mean(
    half: Seq<u8>,
    pixels: Seq<u8>,
    size: int,
    x: int,
    y: int,
    c: int,
)
    requires
        is_half_of(half, pixels, size),
        0 <= x < size,
        0 <= y < size,
        0 <= c < 4,
    ensures
        half.len() == 4 * (size * size),
        ({
            let upper = (2 * y) * (2 * size);
            let lower = (2 * y + 1) * (2 * size);
            let sum = pixels[(upper + 2 * x) * 4 + c] + pixels[(upper + 2 * x + 1) * 4 + c]
                + pixels[(lower + 2 * x) * 4 + c] + pixels[(lower + 2 * x + 1) * 4 + c];
            let mean = half[(y * size + x) * 4 + c];
            4 * mean <= sum < 4 * (mean + 1)
        }),
{
    assert(channel_at(half, size, x, y, c) == block_mean(pixels, size, x, y, c));
}

/// Two square images are each other's mirror image, left to right.
pub open spec fn mirrors(a: Seq<u8>, b: Seq<u8>, side: int) -> bool {
    forall|x: int, y: int, c: int|
        0 <= x < side && 0 <= y < side && 0 <= c < 4 ==> #[trigger] a[(y * side + x) * 4 + c]
            == b[(y * side + (side - 1 - x)) * 4 + c]
}

/// The half of an image mirrored left to right is the half of the image, mirrored.
pub proof fn lemma_halving_keeps_mirrors(
    half_a: Seq<u8>,
    half_b: Seq<u8>,
    a: Seq<u8>,
    b: Seq<u8>,
    size: int,
    x: int,
    y: int,
    c: int,
)
    requires
        is_half_of(half_a, a, size),
        is_half_of(half_b, b, size),
        mirrors(a, b, 2 * size),
        0 <= x < size,
        0 <= y < size,
        0 <= c < 4,
    ensures
        half_a[(y * size + x) * 4 + c] == half_b[(y * size + (size - 1 - x)) * 4 + c],
{
    let m = size - 1 - x;
    let wide = 2 * size;
    assert(channel_at(half_a, size, x, y, c) == block_mean(a, size, x, y, c));
    assert(channel_at(half_b, size, m, y, c) == block_mean(b, size, m, y, c));
    assert(wide - 1 - 2 * x == 2 * m + 1 && wide - 1 - (2 * x + 1) == 2 * m);
    assert(a[((2 * y) * wide + 2 * x) * 4 + c] == b[((2 * y) * wide + (2 * m + 1)) * 4 + c]);
    assert(a[((2 * y) * wide + (2 * x + 1)) * 4 + c] == b[((2 * y) * wide + 2 * m) * 4 + c]);
    assert(a[((2 * y + 1) * wide + 2 * x) * 4 + c] == b[((2 * y + 1) * wide + (2 * m + 1)) * 4
        + c]);
    assert(a[((2 * y + 1) * wide + (2 * x + 1)) * 4 + c] == b[((2 * y + 1) * wide + 2 * m) * 4
        + c]);
}

} // verus!
