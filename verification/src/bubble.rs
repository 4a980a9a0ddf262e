//! The floating bubble and its bobbing.
use vstd::prelude::*;

use crate::geometry::{
    bubble_place, fits, has_bubble_corner, Placement, Rect, BUBBLE_MARGIN, BUBBLE_SIZE,
};
use crate::precision::{lemma_small_number_is_double, round_double, to_double};

verus! {

/// How far the bubble bobs to either side of its base.
pub const BUBBLE_BOB_AMPLITUDE: i32 = 5;

/// How long one full bob takes.
pub const BUBBLE_BOB_PERIOD_MS: u64 = 2600;

/// How often the bubble is moved.
pub const BUBBLE_TIMER_INTERVAL_MS: u32 = 10;

/// The bubble on the screen.
#[derive(Clone, Copy, PartialEq, Eq, Structural, Debug)]
pub struct Bubble {
    pub base_x: i32,
    pub base_y: i32,
    /// When it appeared, in nanoseconds on the driver's clock.
    pub start_ns: u128,
}

/// `5 sin(2 pi ms / 2600)`, rounded down, in the first quarter of the period: the
/// milliseconds at which the sine reaches one fifth, two fifths and so on.
pub open spec fn quarter_bob(ms: int) -> int {
    if ms < 84 {
        0
    } else if ms < 171 {
        1
    } else if ms < 267 {
        2
    } else if ms < 384 {
        3
    } else if ms < 650 {
        4
    } else {
        5
    }
}

/// `5 sin(2 pi ms / 2600)`, rounded towards zero: the second quarter of the period
/// mirrors the first, and the second half is the negative of the first half.
pub open spec fn wave(ms: int) -> int {
    let phase = ms % 2600;
    let half = phase % 1300;
    let size = if half <= 650 {
        quarter_bob(half)
    } else {
        quarter_bob(1300 - half)
    };
    if phase < 1300 {
        size
    } else {
        -size
    }
}

/// The vertical offset of the bubble `ms` milliseconds after it appeared. The time is
/// counted in double precision, so after 2^53 milliseconds it moves in larger steps.
pub open spec fn bob(ms: int) -> int {
    wave(to_double(ms as nat) as int)
}

/// The vertical offset of the bubble `ms` milliseconds after it appeared. No span of a
/// clock that counts nanoseconds in 128 bits is longer than the limit.
pub fn bob_offset(ms: u128) -> (offset: i32)
    requires
        ms <= u128::MAX / 1_000_000,
    ensures
        offset == bob(ms as int),
        -BUBBLE_BOB_AMPLITUDE <= offset <= BUBBLE_BOB_AMPLITUDE,
{
    let phase: u128 = round_double(ms) % 2600;
    let half: u128 = phase % 1300;
    let quarter: u128 = if half <= 650 {
        half
    } else {
        1300 - half
    };
    let size: i32 = if quarter < 84 {
        0
    } else if quarter < 171 {
        1
    } else if quarter < 267 {
        2
    } else if quarter < 384 {
        3
    } else if quarter < 650 {
        4
    } else {
        5
    };
    if phase < 1300 {
        size
    } else {
        -size
    }
}

/// The bob repeats with its period, turns over with half of it, and reads the same
/// forwards and backwards within a half period, as long as the time is counted in
/// milliseconds.
pub proof fn lemma_bob(ms: int)
    requires
        0 <= ms,
        ms + BUBBLE_BOB_PERIOD_MS <= 0x20_0000_0000_0000,
    ensures
        bob(ms + BUBBLE_BOB_PERIOD_MS) == bob(ms),
        bob(ms + 1300) == -bob(ms),
        ms <= 1300 ==> bob(1300 - ms) == bob(ms),
        bob(0) == 0,
        bob(650) == BUBBLE_BOB_AMPLITUDE,
        bob(1950) == -BUBBLE_BOB_AMPLITUDE,
{
    lemma_small_number_is_double(ms as nat);
    lemma_small_number_is_double((ms + 2600) as nat);
    lemma_small_number_is_double((ms + 1300) as nat);
    if ms <= 1300 {
        lemma_small_number_is_double((1300 - ms) as nat);
    }
    lemma_small_number_is_double(0);
    lemma_small_number_is_double(650);
    lemma_small_number_is_double(1950);
    let phase = ms % 2600;
    if phase < 1300 {
        assert((ms + 1300) % 2600 == phase + 1300);
    } else {
        assert((ms + 1300) % 2600 == phase - 1300);
    }
}

/// The bob stays within its amplitude for ever.
pub proof fn lemma_bob_is_bounded(ms: int)
    ensures
        -BUBBLE_BOB_AMPLITUDE <= bob(ms) <= BUBBLE_BOB_AMPLITUDE,
{
}

/// In the first quarter of the period the bob only rises.
pub proof fn lemma_bob_rises(a: int, b: int)
    requires
        0 <= a <= b <= 650,
    ensures
        bob(a) <= bob(b),
{
    lemma_small_number_is_double(a as nat);
    lemma_small_number_is_double(b as nat);
}

/// `120 d^5` times the polynomial `x - x^3/6 + x^5/120` at `x = n / d`, which is
/// nowhere below the sine for positive `x`.
pub open spec fn sine_above(n: int, d: int) -> int {
    120 * n * (d * d * d * d) - 20 * (n * n * n) * (d * d) + n * n * n * n * n
}

/// `5040 d^7` times the polynomial `x - x^3/6 + x^5/120 - x^7/5040` at `x = n / d`,
/// which is nowhere above the sine for positive `x`.
pub open spec fn sine_below(n: int, d: int) -> int {
    5040 * n * (d * d * d * d * d * d) - 840 * (n * n * n) * (d * d * d * d) + 42 * (n * n * n * n
        * n) * (d * d) - n * n * n * n * n * n * n
}

/// The first millisecond of a quarter period at which the bob reaches `k`.
pub open spec fn first_ms(k: int) -> int {
    if k == 1 {
        84
    } else if k == 2 {
        171
    } else if k == 3 {
        267
    } else if k == 4 {
        384
    } else {
        650
    }
}

/// The fifth power.
pub open spec fn fifth_power(d: int) -> int {
    d * d * d * d * d
}

/// The steps of the bob fall where the sine crosses the fifths: at the first
/// millisecond of the step to `k`, the polynomial below the sine has reached `k`
/// fifths, and a millisecond earlier the polynomial above it has not. The angle of a
/// millisecond is `pi / 1300`, and pi lies between 3.1415926 and 3.1415927.
pub proof fn lemma_bob_steps_follow_the_sine(k: int, ms: int)
    requires
        1 <= k <= 4,
        0 <= ms <= 650,
    ensures
        bob(ms) >= k <==> ms >= first_ms(k),
        5 * sine_above(31415927 * (first_ms(k) - 1), 13_000_000_000) < k * (120 * fifth_power(
            13_000_000_000,
        )),
        5 * sine_below(31415926 * first_ms(k), 13_000_000_000) >= k * (5040 * (13_000_000_000
            * 13_000_000_000 * fifth_power(13_000_000_000))),
{
    lemma_small_number_is_double(ms as nat);
    if k == 1 {
        assert(5 * sine_above(2607521941int, 13_000_000_000) < 1 * (120 * fifth_power(
            13_000_000_000,
        ))) by (nonlinear_arith);
        assert(5 * sine_below(2638937784int, 13_000_000_000) >= 1 * (5040 * (13_000_000_000
            * 13_000_000_000 * fifth_power(13_000_000_000)))) by (nonlinear_arith);
    } else if k == 2 {
        assert(5 * sine_above(5340707590int, 13_000_000_000) < 2 * (120 * fifth_power(
            13_000_000_000,
        ))) by (nonlinear_arith);
        assert(5 * sine_below(5372123346int, 13_000_000_000) >= 2 * (5040 * (13_000_000_000
            * 13_000_000_000 * fifth_power(13_000_000_000)))) by (nonlinear_arith);
    } else if k == 3 {
        assert(5 * sine_above(8356636582int, 13_000_000_000) < 3 * (120 * fifth_power(
            13_000_000_000,
        ))) by (nonlinear_arith);
        assert(5 * sine_below(8388052242int, 13_000_000_000) >= 3 * (5040 * (13_000_000_000
            * 13_000_000_000 * fifth_power(13_000_000_000)))) by (nonlinear_arith);
    } else {
        assert(5 * sine_above(12032300041int, 13_000_000_000) < 4 * (120 * fifth_power(
            13_000_000_000,
        ))) by (nonlinear_arith);
        assert(5 * sine_below(12063715584int, 13_000_000_000) >= 4 * (5040 * (13_000_000_000
            * 13_000_000_000 * fifth_power(13_000_000_000)))) by (nonlinear_arith);
    }
}

impl Bubble {
    /// The bubble can be placed `ms` milliseconds after it appeared.
    pub open spec fn can_bob(self, ms: int) -> bool {
        fits(self.base_y + bob(ms))
    }

    /// Whether the bubble can be placed `ms` milliseconds after it appeared.
    pub fn has_place(&self, ms: u128) -> (b: bool)
        requires
            ms <= u128::MAX / 1_000_000,
        ensures
            b == self.can_bob(ms as int),
    {
        let y: i64 = self.base_y as i64 + bob_offset(ms) as i64;
        i32::MIN as i64 <= y && y <= i32::MAX as i64
    }

    /// Where the bubble is `ms` milliseconds after it appeared.
    pub open spec fn place_at(self, ms: int) -> Placement {
        Placement {
            x: self.base_x,
            y: (self.base_y + bob(ms)) as i32,
            width: BUBBLE_SIZE,
            height: BUBBLE_SIZE,
        }
    }

    /// Where the bubble is `ms` milliseconds after it appeared.
    pub fn place(&self, ms: u128) -> (p: Placement)
        requires
            ms <= u128::MAX / 1_000_000,
            self.can_bob(ms as int),
        ensures
            p == self.place_at(ms as int),
            p.y == self.base_y + bob(ms as int),
    {
        Placement {
            x: self.base_x,
            y: self.base_y + bob_offset(ms),
            width: BUBBLE_SIZE,
            height: BUBBLE_SIZE,
        }
    }
}

/// On a desktop with room for it, the bubble never leaves the desktop, however long
/// it bobs.
pub proof fn lemma_bubble_stays_on_the_desktop(desktop: Rect, start_ns: u128, ms: int)
    requires
        has_bubble_corner(desktop),
        desktop.right - desktop.left >= BUBBLE_SIZE + BUBBLE_MARGIN,
        desktop.bottom - desktop.top >= BUBBLE_SIZE + BUBBLE_MARGIN + BUBBLE_BOB_AMPLITUDE,
        0 <= ms,
    ensures
        (Bubble {
            base_x: bubble_place(desktop).x,
            base_y: bubble_place(desktop).y,
            start_ns,
        }).place_at(ms).inside(desktop),
{
    lemma_bob_is_bounded(ms);
}

/// However long the bubble has been there, its offset is that of the same moment of its
/// first period, by the count in double precision.
pub proof fn lemma_bob_of_any_age(ms: int)
    requires
        0 <= ms,
    ensures
        bob(ms) == bob((to_double(ms as nat) % 2600) as int),
{
    let phase = to_double(ms as nat) % 2600;
    lemma_small_number_is_double(phase);
}

} // verus!
