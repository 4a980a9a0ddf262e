use tray_guardian::bubble::{bob_offset, Bubble};
use tray_guardian::geometry::{
    bubble_placement, desktop_has_bubble_corner, desktop_has_panel_corner, panel_placement,
    Placement, Rect,
};

fn full_hd() -> Rect {
    Rect { left: 0, top: 0, right: 1920, bottom: 1080 }
}

#[test]
fn bob_follows_the_sine_in_double_precision() {
    for ms in 0..5200u128 {
        let phase = (ms as f64 % 2600.0) / 2600.0;
        let expected = (5.0 * (phase * std::f64::consts::TAU).sin()) as i32;
        assert_eq!(bob_offset(ms), expected, "bob at {}", ms);
    }
}

#[test]
fn bob_counts_long_times_in_double_precision() {
    let mut times: Vec<u128> = Vec::new();
    for bits in [53, 54, 55, 60, 74, 100] {
        for step in 0..3000u128 {
            times.push((1u128 << bits) - 1500 + step);
        }
    }
    times.push(u64::MAX as u128 * 1000 + 999);
    times.push(u128::MAX / 1_000_000);
    for ms in times {
        let phase = (ms as f64 % 2600.0) / 2600.0;
        let expected = (5.0 * (phase * std::f64::consts::TAU).sin()) as i32;
        assert_eq!(bob_offset(ms), expected, "bob at {}", ms);
    }
}

#[test]
fn bob_landmarks() {
    assert_eq!(bob_offset(0), 0);
    assert_eq!(bob_offset(83), 0);
    assert_eq!(bob_offset(84), 1);
    assert_eq!(bob_offset(650), 5);
    assert_eq!(bob_offset(1300), 0);
    assert_eq!(bob_offset(1950), -5);
    assert_eq!(bob_offset(2600 + 650), 5);
}

#[test]
fn bob_turns_over_after_half_a_period() {
    for ms in 0..2600u128 {
        assert_eq!(bob_offset(ms + 1300), -bob_offset(ms));
        assert_eq!(bob_offset(ms + 2600), bob_offset(ms));
    }
}

#[test]
fn bubble_moves_up_and_down_only() {
    let bubble = Bubble { base_x: 1850, base_y: 1010, start_ns: 0 };
    assert_eq!(bubble.place(650), Placement { x: 1850, y: 1015, width: 46, height: 46 });
    assert_eq!(bubble.place(1950), Placement { x: 1850, y: 1005, width: 46, height: 46 });
}

#[test]
fn bubble_cannot_leave_the_coordinates() {
    let low = Bubble { base_x: 0, base_y: i32::MAX - 4, start_ns: 0 };
    assert!(low.has_place(384));
    assert!(!low.has_place(650));
    let high = Bubble { base_x: 0, base_y: i32::MIN, start_ns: 0 };
    assert!(high.has_place(650));
    assert!(!high.has_place(1950));
}

#[test]
fn places_on_a_desktop() {
    assert_eq!(
        panel_placement(&full_hd()),
        Placement { x: 1640, y: 760, width: 260, height: 260 }
    );
    assert_eq!(
        bubble_placement(&full_hd()),
        Placement { x: 1850, y: 1010, width: 46, height: 46 }
    );
}

#[test]
fn desktops_without_a_corner() {
    let edge = Rect { left: i32::MIN, top: i32::MIN, right: i32::MIN + 279, bottom: 0 };
    assert!(!desktop_has_panel_corner(&edge));
    assert!(desktop_has_panel_corner(&Rect { right: i32::MIN + 280, ..edge }));
    assert!(desktop_has_bubble_corner(&edge));
    assert!(!desktop_has_bubble_corner(&Rect { right: i32::MIN + 69, ..edge }));
}

#[test]
fn rectangles_by_edges_and_by_size() {
    let r = Rect { left: 10, top: -20, right: 110, bottom: 30 };
    assert!(r.is_measurable());
    assert_eq!(r.placement(), Placement { x: 10, y: -20, width: 100, height: 50 });
    let wide = Rect { left: i32::MIN, top: 0, right: i32::MAX, bottom: 0 };
    assert!(!wide.is_measurable());
    let inside_out = Rect { left: 5, top: 5, right: 0, bottom: 0 };
    assert_eq!(inside_out.placement(), Placement { x: 5, y: 5, width: -5, height: -5 });
}
