use tray_guardian::animation::{
    closing_alpha, ease_in_out_cubic, elapsed_ms, opening_alpha, slide_offset, Animation, Frame,
    EASE_ONE,
};
use tray_guardian::geometry::Placement;

fn ease(t: f64) -> f64 {
    if t < 0.5 {
        4.0 * t * t * t
    } else {
        let f = -2.0 * t + 2.0;
        1.0 - (f * f * f) / 2.0
    }
}

fn fraction(ms: u128) -> f64 {
    (ms as f64 / 320.0).min(1.0)
}

fn rest() -> Placement {
    Placement { x: 1640, y: 760, width: 260, height: 260 }
}

#[test]
fn slide_and_fade_in_follow_the_curve_in_double_precision() {
    for ms in (0..2000).chain([u64::MAX as u128, u128::MAX]) {
        let eased = ease(fraction(ms));
        assert_eq!(slide_offset(ms), (34.0 * eased) as i32, "slide at {}", ms);
        assert_eq!(opening_alpha(ms), (255.0 * eased) as u8, "fade in at {}", ms);
    }
}

#[test]
fn fade_out_follows_the_line_in_double_precision() {
    for ms in (0..2000).chain([u64::MAX as u128, u128::MAX]) {
        let t = fraction(ms);
        let expected = if t < 0.5 {
            255u8
        } else {
            let t2 = (t - 0.5) / 0.5;
            (255.0 * (1.0 - t2)) as u8
        };
        assert_eq!(closing_alpha(ms), expected, "fade out at {}", ms);
    }
}

#[test]
fn fade_out_is_one_step_low_where_the_fraction_rounds_up() {
    assert_eq!(closing_alpha(192), 204);
    assert_eq!(closing_alpha(224), 153);
    assert_eq!(closing_alpha(256), 101);
    assert_eq!(closing_alpha(288), 50);
}

#[test]
fn curve_has_its_landmarks() {
    assert_eq!(ease_in_out_cubic(0), 0);
    assert_eq!(ease_in_out_cubic(80), 2_048_000);
    assert_eq!(ease_in_out_cubic(160), EASE_ONE / 2);
    assert_eq!(ease_in_out_cubic(240), EASE_ONE - 2_048_000);
    assert_eq!(ease_in_out_cubic(320), EASE_ONE);
    assert_eq!(ease_in_out_cubic(5000), EASE_ONE);
}

#[test]
fn curve_is_symmetric_and_never_falls() {
    for ms in 0..=320u128 {
        assert_eq!(ease_in_out_cubic(ms) + ease_in_out_cubic(320 - ms), EASE_ONE);
        assert!(ease_in_out_cubic(ms) <= ease_in_out_cubic(ms + 1));
    }
}

#[test]
fn opening_frames() {
    let anim = Animation { opening: true, start_ns: 0, rest: rest() };
    assert_eq!(anim.frame(0), Frame { y: 794, alpha: 0, finished: false });
    assert_eq!(anim.frame(160), Frame { y: 777, alpha: 127, finished: false });
    assert_eq!(anim.frame(319), Frame { y: 761, alpha: 254, finished: false });
    assert_eq!(anim.frame(320), Frame { y: 760, alpha: 255, finished: true });
}

#[test]
fn closing_frames() {
    let anim = Animation { opening: false, start_ns: 0, rest: rest() };
    assert_eq!(anim.frame(0), Frame { y: 760, alpha: 255, finished: false });
    assert_eq!(anim.frame(160), Frame { y: 777, alpha: 255, finished: false });
    assert_eq!(anim.frame(240), Frame { y: 791, alpha: 127, finished: false });
    assert_eq!(anim.frame(320), Frame { y: 794, alpha: 0, finished: true });
}

#[test]
fn frames_move_one_way() {
    for opening in [true, false] {
        let anim = Animation { opening, start_ns: 0, rest: rest() };
        for ms in 0..400u128 {
            let (a, b) = (anim.frame(ms), anim.frame(ms + 1));
            if opening {
                assert!(a.y >= b.y && a.alpha <= b.alpha);
            } else {
                assert!(a.y <= b.y && a.alpha >= b.alpha);
            }
            assert!(760 <= a.y && a.y <= 794);
        }
    }
}

#[test]
fn frames_at_the_edge_of_the_coordinates() {
    let low = Placement { y: i32::MAX - 33, ..rest() };
    assert!(!Animation { opening: true, start_ns: 0, rest: low }.can_show(320));
    let closing = Animation { opening: false, start_ns: 0, rest: low };
    assert!(closing.can_show(319));
    assert!(!closing.can_show(320));
}

#[test]
fn elapsed_time_is_cut_to_milliseconds() {
    assert_eq!(elapsed_ms(1_500_000, 3_499_999), 1);
    assert_eq!(elapsed_ms(1_500_000, 3_500_000), 2);
    assert_eq!(elapsed_ms(5_000_000, 1_000_000), 0);
    assert_eq!(elapsed_ms(7, 7), 0);
}
