use tray_guardian::controls::{
    after_control, caption_text, class_name, hbrush_system, panel_controls, program_path,
    trackbar_range, AfterControl, Caption, ControlClass, Program,
};
use tray_guardian::tray::{
    kill_arguments, restart_script, tray_step, Lookup, TrayEffect, TrayStage, KILL_PROGRAM,
    SHELL_PROGRAM,
};

fn check(tray: Lookup, notify: Lookup) -> Vec<TrayEffect> {
    let (stage, mut effects) = tray_step(TrayStage::FindTray, tray);
    let (stage, more) = tray_step(stage, notify);
    assert_eq!(stage, TrayStage::Done);
    effects.extend(more);
    effects
}

#[test]
fn restart_stops_waits_and_starts() {
    assert_eq!(
        restart_script(),
        vec![TrayEffect::StopShell, TrayEffect::Pause(500), TrayEffect::StartShell]
    );
}

#[test]
fn check_heals_exactly_what_is_broken() {
    for tray in [Lookup::Failed, Lookup::Null, Lookup::Found] {
        for notify in [Lookup::Failed, Lookup::Null, Lookup::Found] {
            let whole = tray == Lookup::Found && notify == Lookup::Found;
            let expected = if whole { vec![] } else { restart_script() };
            assert_eq!(check(tray, notify), expected);
        }
    }
}

#[test]
fn notification_window_is_looked_for_in_the_taskbar() {
    assert_eq!(tray_step(TrayStage::FindTray, Lookup::Found).0, TrayStage::FindNotify);
    assert_eq!(tray_step(TrayStage::FindTray, Lookup::Null).0, TrayStage::Done);
    assert!(tray_step(TrayStage::Done, Lookup::Failed).1.is_empty());
}

#[test]
fn programs_of_a_restart() {
    assert_eq!(KILL_PROGRAM, "taskkill");
    assert_eq!(SHELL_PROGRAM, "explorer.exe");
    assert_eq!(kill_arguments(), ["/F", "/IM", "explorer.exe"]);
}

#[test]
fn panel_has_its_controls() {
    let controls = panel_controls();
    let seen: Vec<_> = controls
        .iter()
        .map(|c| {
            let b = c.bounds;
            (class_name(c.class), caption_text(c.caption), (b.x, b.y, b.width, b.height), c.id)
        })
        .collect();
    assert_eq!(
        seen,
        vec![
            ("BUTTON", Some("Restart Tray"), (10, 10, 230, 30), 101),
            ("BUTTON", Some("Open Chrome"), (10, 50, 110, 30), 102),
            ("BUTTON", Some("Open Spotify"), (130, 50, 110, 30), 103),
            ("STATIC", Some("Volume"), (10, 95, 230, 18), 0),
            ("msctls_trackbar32", None, (10, 115, 230, 30), 104),
            ("STATIC", Some("Battery: ..."), (10, 155, 230, 20), 105),
        ]
    );
    for control in &controls {
        assert_eq!(control.required, control.class == ControlClass::Trackbar);
    }
}

#[test]
fn after_each_control() {
    for control in &panel_controls() {
        if control.class == ControlClass::Trackbar {
            assert_eq!(after_control(control, true), AfterControl::SetRange(100 << 16));
            assert_eq!(after_control(control, false), AfterControl::Fail);
        } else {
            assert_eq!(after_control(control, true), AfterControl::GoOn);
            assert_eq!(after_control(control, false), AfterControl::GoOn);
        }
    }
}

#[test]
fn controls_do_not_overlap() {
    let controls = panel_controls();
    for (i, a) in controls.iter().enumerate() {
        let a = a.bounds;
        assert!(a.x >= 0 && a.y >= 0 && a.x + a.width <= 260 && a.y + a.height <= 260);
        for b in &controls[i + 1..] {
            let b = b.bounds;
            assert!(
                a.x + a.width <= b.x
                    || b.x + b.width <= a.x
                    || a.y + a.height <= b.y
                    || b.y + b.height <= a.y
            );
        }
    }
}

#[test]
fn blank_control_has_no_text() {
    assert_eq!(caption_text(Caption::Blank), None);
}

#[test]
fn trackbar_runs_to_a_hundred() {
    assert_eq!(trackbar_range(), 100 << 16);
}

#[test]
fn programs_of_the_panel() {
    assert_eq!(
        program_path(Program::Chrome),
        "C:\\Program Files\\Google\\Chrome\\Application\\chrome.exe"
    );
    assert_eq!(
        program_path(Program::Spotify),
        "C:\\Users\\gamer\\AppData\\Local\\Microsoft\\WindowsApps\\Spotify.exe"
    );
}

#[test]
fn system_brushes_are_numbered_from_one() {
    assert_eq!(hbrush_system(5), 6);
    assert_eq!(hbrush_system(-1), 0);
}
