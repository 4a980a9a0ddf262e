//! The slide and the fade with which the panel comes and goes.
//!
//! An animation runs for [`ANIM_DURATION_MS`] milliseconds. The slide, and the fade
//! in, follow a cubic ease-in-out curve; the fade out is linear over the second half.
use vstd::prelude::*;

use crate::geometry::{fits, Placement};

verus! {

/// How long an animation runs.
pub const ANIM_DURATION_MS: u64 = 320;

/// How often a frame is due.
pub const ANIM_TIMER_INTERVAL_MS: u32 = 8;

/// How far below its resting place the panel starts and ends.
pub const ANIM_SLIDE_OFFSET: i32 = 34;

/// The value of [`ease_in_out_cubic`] that stands for one: the cube of the duration.
pub const EASE_ONE: u64 = 32_768_000;

/// An animation of the panel that is under way.
#[derive(Clone, Copy, PartialEq, Eq, Structural, Debug)]
pub struct Animation {
    /// Whether the panel is coming or going.
    pub opening: bool,
    /// When it started, in nanoseconds on the driver's clock.
    pub start_ns: u128,
    /// Where the panel rests.
    pub rest: Placement,
}

/// What one frame of an animation shows.
#[derive(Clone, Copy, PartialEq, Eq, Structural, Debug)]
pub struct Frame {
    pub y: i32,
    pub alpha: u8,
    /// This is the last frame.
    pub finished: bool,
}

/// Whole milliseconds from one reading of the clock to a later one; none if the
/// second reading is the earlier.
pub open spec fn elapsed(start_ns: u128, now_ns: u128) -> int {
    if now_ns >= start_ns {
        (now_ns - start_ns) / 1_000_000
    } else {
        0
    }
}

/// Whole milliseconds from one reading of the clock to a later one; none if the
/// second reading is the earlier.
pub fn elapsed_ms(start_ns: u128, now_ns: u128) -> (ms: u128)
    ensures
        ms == elapsed(start_ns, now_ns),
        start_ns <= now_ns ==> ms * 1_000_000 <= now_ns - start_ns < (ms + 1) * 1_000_000,
{
    if now_ns >= start_ns {
        (now_ns - start_ns) / 1_000_000
    } else {
        0
    }
}

/// The third power.
pub open spec fn cube(x: int) -> int {
    x * x * x
}

/// The cubic ease-in-out curve at `ms / 320`, as a fraction of [`EASE_ONE`]: `4 t^3`
/// up to the middle, `1 - 4 (1 - t)^3` from there on, and one after the end.
pub open spec fn eased(ms: int) -> int {
    if ms < 160 {
        4 * cube(ms)
    } else if ms < 320 {
        EASE_ONE - 4 * cube(320 - ms)
    } else {
        EASE_ONE as int
    }
}

/// The cubic ease-in-out curve at `ms / 320`, as a fraction of [`EASE_ONE`].
pub fn ease_in_out_cubic(ms: u128) -> (e: u64)
    ensures
        e == eased(ms as int),
        e <= EASE_ONE,
{
    proof {
        lemma_eased_range(ms as int);
    }
    if ms < 160 {
        let t: u64 = ms as u64;
        proof {
            lemma_small_cube(t as int);
        }
        4 * (t * t * t)
    } else if ms < 320 {
        let f: u64 = 320 - ms as u64;
        proof {
            lemma_small_cube(f as int);
        }
        EASE_ONE - 4 * (f * f * f)
    } else {
        EASE_ONE
    }
}

proof fn lemma_small_cube(x: int)
    requires
        0 <= x <= 160,
    ensures
        0 <= x * x <= 160 * 160,
        0 <= cube(x) <= 4_096_000,
{
    assert(0 <= x * x <= 160 * 160) by (nonlinear_arith)
        requires
            0 <= x <= 160,
    ;
    assert(0 <= (x * x) * x <= (160 * 160) * 160) by (nonlinear_arith)
        requires
            0 <= x <= 160,
            0 <= x * x <= 160 * 160,
    ;
}

proof fn lemma_cube_monotone(a: int, b: int)
    requires
        0 <= a <= b,
    ensures
        cube(a) <= cube(b),
{
    assert(0 <= a * a <= b * b) by (nonlinear_arith)
        requires
            0 <= a <= b,
    ;
    assert((a * a) * a <= (b * b) * b) by (nonlinear_arith)
        requires
            0 <= a <= b,
            0 <= a * a <= b * b,
    ;
}

proof fn lemma_eased_range(ms: int)
    requires
        0 <= ms,
    ensures
        0 <= eased(ms) <= EASE_ONE,
{
    if ms < 160 {
        lemma_small_cube(ms);
    } else if ms < 320 {
        lemma_small_cube(320 - ms);
    }
}

/// The curve runs from zero to one, never falls, and is point-symmetric about its
/// middle.
pub proof fn lemma_easing(a: int, b: int)
    requires
        0 <= a <= b,
    ensures
        eased(0) == 0,
        a >= 320 ==> eased(a) == EASE_ONE,
        eased(a) <= eased(b),
        a <= 320 ==> eased(a) + eased(320 - a) == EASE_ONE,
{
    assert(cube(0) == 0);
    assert(cube(160) == 4_096_000);
    lemma_eased_range(a);
    lemma_eased_range(b);
    if b < 160 {
        lemma_cube_monotone(a, b);
    } else if b < 320 {
        if a < 160 {
            lemma_cube_monotone(a, 160);
            lemma_cube_monotone(320 - b, 160);
        } else {
            lemma_cube_monotone(320 - b, 320 - a);
        }
    }
}

/// How far the panel has slid after `ms` milliseconds.
pub open spec fn slide(ms: int) -> int {
    ANIM_SLIDE_OFFSET * eased(ms) / (EASE_ONE as int)
}

/// The opacity of an opening panel after `ms` milliseconds.
pub open spec fn fade_in(ms: int) -> int {
    255 * eased(ms) / (EASE_ONE as int)
}

/// The fraction `ms / 320`, rounded to 53 binary places, in units of 2^-53.
pub open spec fn time_fraction(ms: int) -> int {
    (0x40_0000_0000_0000 * ms + 320) / 640
}

/// The opacity of a closing panel after `ms` milliseconds: full for the first half,
/// then falling with what is left of the time fraction.
pub open spec fn fade_out(ms: int) -> int {
    if ms < 160 {
        255
    } else if ms < 320 {
        255 * (2 * (0x20_0000_0000_0000 - time_fraction(ms))) / 0x20_0000_0000_0000
    } else {
        0
    }
}

/// How far the panel has slid after `ms` milliseconds.
pub fn slide_offset(ms: u128) -> (s: i32)
    ensures
        s == slide(ms as int),
        0 <= s <= ANIM_SLIDE_OFFSET,
{
    let e: u64 = ease_in_out_cubic(ms);
    (34 * e / EASE_ONE) as i32
}

/// The opacity of an opening panel after `ms` milliseconds.
pub fn opening_alpha(ms: u128) -> (a: u8)
    ensures
        a == fade_in(ms as int),
{
    let e: u64 = ease_in_out_cubic(ms);
    (255 * e / EASE_ONE) as u8
}

/// The opacity of a closing panel after `ms` milliseconds.
pub fn closing_alpha(ms: u128) -> (a: u8)
    ensures
        a == fade_out(ms as int),
{
    if ms < 160 {
        255
    } else if ms < 320 {
        let t: u64 = (0x40_0000_0000_0000 * (ms as u64) + 320) / 640;
        (255 * (2 * (0x20_0000_0000_0000 - t)) / 0x20_0000_0000_0000) as u8
    } else {
        0
    }
}

/// The fade out never rises, stays within the range of an opacity, starts full and
/// ends empty, and stays within one step below the exact line `255 (2 - 2 ms / 320)`.
pub proof fn lemma_fade_out(a: int, b: int)
    requires
        0 <= a <= b,
    ensures
        fade_out(a) >= fade_out(b),
        0 <= fade_out(a) <= 255,
        a <= 160 ==> fade_out(a) == 255,
        a >= 320 ==> fade_out(a) == 0,
        160 <= a <= 320 ==> (51 * (320 - a)) / 32 - 1 <= fade_out(a) <= (51 * (320 - a)) / 32,
{
}

impl Animation {
    /// What the panel shows `ms` milliseconds into the animation.
    pub open spec fn frame_at(self, ms: int) -> Frame {
        if self.opening {
            Frame {
                y: (self.rest.y + ANIM_SLIDE_OFFSET - slide(ms)) as i32,
                alpha: fade_in(ms) as u8,
                finished: ms >= ANIM_DURATION_MS,
            }
        } else {
            Frame {
                y: (self.rest.y + slide(ms)) as i32,
                alpha: fade_out(ms) as u8,
                finished: ms >= ANIM_DURATION_MS,
            }
        }
    }

    /// The frame can be computed without leaving the range of a coordinate.
    pub open spec fn has_frame_at(self, ms: int) -> bool {
        if self.opening {
            fits(self.rest.y + ANIM_SLIDE_OFFSET)
        } else {
            fits(self.rest.y + slide(ms))
        }
    }

    /// Whether the frame can be computed without leaving the range of a coordinate.
    pub fn can_show(&self, ms: u128) -> (b: bool)
        ensures
            b == self.has_frame_at(ms as int),
    {
        let s: i32 = slide_offset(ms);
        if self.opening {
            self.rest.y <= i32::MAX - ANIM_SLIDE_OFFSET
        } else {
            self.rest.y <= i32::MAX - s
        }
    }

    /// What the panel shows `ms` milliseconds into the animation.
    pub fn frame(&self, ms: u128) -> (f: Frame)
        requires
            self.has_frame_at(ms as int),
        ensures
            f == self.frame_at(ms as int),
            f.alpha == (if self.opening {
                fade_in(ms as int)
            } else {
                fade_out(ms as int)
            }),
            f.y == (if self.opening {
                self.rest.y + ANIM_SLIDE_OFFSET - slide(ms as int)
            } else {
                self.rest.y + slide(ms as int)
            }),
    {
        let s: i32 = slide_offset(ms);
        if self.opening {
            Frame {
                y: self.rest.y + ANIM_SLIDE_OFFSET - s,
                alpha: opening_alpha(ms),
                finished: ms >= ANIM_DURATION_MS as u128,
            }
        } else {
            Frame {
                y: self.rest.y + s,
                alpha: closing_alpha(ms),
                finished: ms >= ANIM_DURATION_MS as u128,
            }
        }
    }
}

/// An opening panel starts invisible one slide below its resting place, then only
/// rises and brightens, and its last frame shows it opaque at rest.
pub proof fn lemma_opening(anim: Animation, a: int, b: int)
    requires
        anim.opening,
        fits(anim.rest.y + ANIM_SLIDE_OFFSET),
        0 <= a <= b,
    ensures
        anim.frame_at(0) == (Frame {
            y: (anim.rest.y + ANIM_SLIDE_OFFSET) as i32,
            alpha: 0,
            finished: false,
        }),
        anim.frame_at(a).y >= anim.frame_at(b).y,
        anim.frame_at(a).alpha <= anim.frame_at(b).alpha,
        anim.rest.y <= anim.frame_at(a).y <= anim.rest.y + ANIM_SLIDE_OFFSET,
        anim.frame_at(a).finished <==> a >= ANIM_DURATION_MS,
        anim.frame_at(a).finished ==> anim.frame_at(a) == (Frame {
            y: anim.rest.y,
            alpha: 255,
            finished: true,
        }),
{
    lemma_easing(a, b);
    lemma_easing(0, a);
    lemma_eased_range(a);
    lemma_eased_range(b);
}

/// A closing panel starts opaque at rest, then only sinks and fades, and its last
/// frame shows it invisible one slide below its resting place.
pub proof fn lemma_closing(anim: Animation, a: int, b: int)
    requires
        !anim.opening,
        fits(anim.rest.y + ANIM_SLIDE_OFFSET),
        0 <= a <= b,
    ensures
        anim.frame_at(0) == (Frame { y: anim.rest.y, alpha: 255, finished: false }),
        anim.frame_at(a).y <= anim.frame_at(b).y,
        anim.frame_at(a).alpha >= anim.frame_at(b).alpha,
        anim.rest.y <= anim.frame_at(a).y <= anim.rest.y + ANIM_SLIDE_OFFSET,
        anim.frame_at(a).finished <==> a >= ANIM_DURATION_MS,
        anim.frame_at(a).finished ==> anim.frame_at(a) == (Frame {
            y: (anim.rest.y + ANIM_SLIDE_OFFSET) as i32,
            alpha: 0,
            finished: true,
        }),
{
    lemma_easing(a, b);
    lemma_easing(0, a);
    lemma_eased_range(a);
    lemma_eased_range(b);
    lemma_fade_out(a, b);
    lemma_fade_out(0, b);
}

/// From one reading of the clock to one not before it, the whole milliseconds are as many
/// as fit in between; a reading that is `k` milliseconds later counts `k` more. None have
/// passed at a reading before the start.
pub proof fn lemma_elapsed(start_ns: u128, now_ns: u128, later_ns: u128, k: int)
    requires
        0 <= k,
        later_ns == now_ns + k * 1_000_000,
    ensures
        start_ns <= now_ns ==> elapsed(start_ns, now_ns) * 1_000_000 <= now_ns - start_ns,
        start_ns <= now_ns ==> now_ns - start_ns < (elapsed(start_ns, now_ns) + 1) * 1_000_000,
        start_ns <= now_ns ==> elapsed(start_ns, later_ns) == elapsed(start_ns, now_ns) + k,
        now_ns < start_ns ==> elapsed(start_ns, now_ns) == 0,
{
}

/// Of `full` in all, `part` whole units have been covered `ms` milliseconds into a cubic
/// ease in and out that lasts 320: with `t` the part of the time that has passed, no more
/// than `4 t^3` of it in the first half and `1 - 4 (1 - t)^3` in the second, and less than
/// one unit short of that.
pub open spec fn on_curve(part: int, full: int, ms: int) -> bool {
    let left = 320 - ms;
    if ms < 160 {
        part * 8_192_000 <= full * (ms * ms * ms) < (part + 1) * 8_192_000
    } else if ms < 320 {
        part * 8_192_000 <= full * (8_192_000 - left * left * left) < (part + 1) * 8_192_000
    } else {
        part == full
    }
}

/// The slide and the fade in follow the curve. The curve itself is in proportion to the
/// third power of the time from the nearer end.
pub proof fn lemma_curve(ms: int, k: int)
    requires
        0 <= ms,
        0 <= k,
        k * ms <= 160,
    ensures
        on_curve(slide(ms), 34, ms),
        on_curve(fade_in(ms), 255, ms),
        eased(k * ms) * (ms * ms * ms) == eased(ms) * ((k * ms) * (k * ms) * (k * ms)) || ms > 160,
        eased(160) * 2 == EASE_ONE,
{
    assert(cube(160) == 4_096_000);
    assert(0 <= k * ms) by (nonlinear_arith)
        requires
            0 <= k,
            0 <= ms,
    ;
    if ms <= 160 {
        let m = k * ms;
        assert(eased(ms) == 4 * cube(ms));
        assert(eased(m) == 4 * cube(m));
        assert((4 * cube(m)) * cube(ms) == (4 * cube(ms)) * cube(m)) by (nonlinear_arith);
    }
}

/// Of a fade from 255 to nothing over the second half of 320 milliseconds, `alpha` is left
/// after `ms`: the line `255 (2 - 2 t)`, rounded down, with `t` the part of the time that
/// has passed. At four fifths and at nine tenths of the time, where the line falls on whole
/// numbers, `t` is rounded up, and `alpha` is the next lower number.
pub open spec fn on_line(alpha: int, ms: int) -> bool {
    if ms < 160 {
        alpha == 255
    } else if ms == 256 || ms == 288 {
        51 * (320 - ms) == 32 * (alpha + 1)
    } else if ms < 320 {
        32 * alpha <= 51 * (320 - ms) < 32 * (alpha + 1)
    } else {
        alpha == 0
    }
}

/// The fade out follows the line.
pub proof fn lemma_line(ms: int)
    requires
        0 <= ms,
    ensures
        on_line(fade_out(ms), ms),
{
}

/// A frame shows the panel on the curve between its resting place and 34 pixels below it,
/// on its way up while it opens and on its way down while it closes. An opening panel is
/// as opaque as the curve says; a closing one stays opaque for the first half and then
/// fades evenly. Only a frame that is at least 320 milliseconds in is the last.
pub proof fn lemma_frames_follow_the_curve(anim: Animation, ms: int)
    requires
        0 <= ms,
        anim.rest.y + 34 <= i32::MAX,
    ensures
        anim.has_frame_at(ms),
        anim.frame_at(ms).finished <==> 320 <= ms,
        anim.opening ==> {
            &&& on_curve(anim.rest.y + 34 - anim.frame_at(ms).y, 34, ms)
            &&& on_curve(anim.frame_at(ms).alpha as int, 255, ms)
        },
        !anim.opening ==> {
            &&& on_curve(anim.frame_at(ms).y - anim.rest.y, 34, ms)
            &&& on_line(anim.frame_at(ms).alpha as int, ms)
        },
{
    lemma_eased_range(ms);
    lemma_curve(ms, 0);
    lemma_line(ms);
}

/// An opening animation can be shown exactly if the place 34 pixels below its rest is in
/// range, a closing one exactly if the panel is, as far as it has sunk.
pub proof fn lemma_frames_in_range(anim: Animation, ms: int, sunk: int)
    requires
        0 <= ms,
        on_curve(sunk, 34, ms),
    ensures
        anim.opening ==> (anim.has_frame_at(ms) <==> anim.rest.y + 34 <= i32::MAX),
        !anim.opening ==> (anim.has_frame_at(ms) <==> anim.rest.y + sunk <= i32::MAX),
{
    lemma_eased_range(ms);
    lemma_curve(ms, 0);
}

} // verus!
