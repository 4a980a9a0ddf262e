use tray_guardian::animation::Animation;
use tray_guardian::bubble::Bubble;
use tray_guardian::controls::Program;
use tray_guardian::geometry::{Placement, Rect};
use tray_guardian::guardian::{ask, After, Guardian, Stage, Verdict};
use tray_guardian::messages::{
    is_hotkey, low_word, WM_ACTIVATE, WM_CLOSE, WM_COMMAND, WM_DESTROY, WM_HOTKEY, WM_HSCROLL,
    WM_LBUTTONUP, WM_TIMER,
};
use tray_guardian::protocol::{Effect, Query, Reply, Target};
use tray_guardian::text::PowerStatus;

const MS: u128 = 1_000_000;

fn desktop() -> Rect {
    Rect { left: 0, top: 0, right: 1920, bottom: 1080 }
}

fn corner() -> Placement {
    Placement { x: 1640, y: 760, width: 260, height: 260 }
}

fn corner_rect() -> Rect {
    Rect { left: 1640, top: 760, right: 1900, bottom: 1020 }
}

fn with_panel() -> Guardian {
    Guardian { main_ready: true, panel_created: true, ..Guardian::new() }
}

/// Runs a procedure over some replies: every question, every effect, the last stage.
fn run(g: &mut Guardian, start: Stage, replies: &[Reply]) -> (Vec<Query>, Vec<Effect>, Stage) {
    let mut stage = start;
    let mut queries = Vec::new();
    let mut effects = Vec::new();
    for reply in replies {
        queries.push(ask(stage));
        assert!(g.can_work(stage, *reply));
        let (next, script) = g.step(stage, *reply);
        effects.extend(script);
        stage = next;
    }
    (queries, effects, stage)
}

fn start_timer() -> Effect {
    Effect::StartTimer(Target::Panel, 1, 8)
}

#[test]
fn first_toggle_makes_the_panel() {
    let mut g = Guardian::new();
    let start = g.toggle_panel();
    assert_eq!(start, Stage::Creating);
    let power = Some(PowerStatus { battery_percent: 80, ac_line: 1 });
    let (queries, effects, stage) = run(
        &mut g,
        start,
        &[
            Reply::Made(true),
            Reply::Rect(desktop()),
            Reply::Proceed,
            Reply::Found(true),
            Reply::Volume(Some(42)),
            Reply::Found(true),
            Reply::Power(power),
            Reply::Now(5 * MS),
            Reply::Threads(7, 9),
        ],
    );
    assert_eq!(
        queries,
        vec![
            Query::CreatePanel(260, 260),
            Query::DesktopRect,
            Query::Proceed,
            Query::FindControl(104),
            Query::Volume,
            Query::FindControl(105),
            Query::Power,
            Query::Clock,
            Query::Threads,
        ]
    );
    assert_eq!(
        effects,
        vec![
            Effect::CreateControls,
            Effect::UpdatePanel,
            Effect::SetTrackbar(42),
            Effect::SetBattery(power),
            Effect::Place(Target::Panel, Placement { y: 794, ..corner() }, false),
            Effect::SetAlpha(0),
            Effect::Show(Target::Panel),
            start_timer(),
            Effect::AttachInput(9, 7),
            Effect::BringPanelToFront,
            Effect::DetachInput(9, 7),
        ]
    );
    assert_eq!(stage, Stage::Done);
    assert_eq!(ask(stage), Query::Nothing);
    assert!(g.panel_created);
    assert_eq!(
        g.anim,
        Some(Animation { opening: true, start_ns: 5 * MS, rest: corner() })
    );
    assert_eq!(g.toggle_panel(), Stage::Toggling);
}

#[test]
fn toggle_hides_a_visible_panel() {
    let mut g = with_panel();
    let (queries, effects, stage) = run(
        &mut g,
        Stage::Toggling,
        &[Reply::Visible(true), Reply::Rect(corner_rect()), Reply::Now(3)],
    );
    assert_eq!(queries, vec![Query::PanelVisible, Query::PanelRect, Query::Clock]);
    assert_eq!(effects, vec![start_timer()]);
    assert_eq!(stage, Stage::Done);
    assert_eq!(g.anim, Some(Animation { opening: false, start_ns: 3, rest: corner() }));
}

#[test]
fn toggle_shows_a_hidden_panel_without_its_controls() {
    let mut g = with_panel();
    let (_, effects, stage) = run(
        &mut g,
        Stage::Toggling,
        &[
            Reply::Visible(false),
            Reply::Found(false),
            Reply::Found(false),
            Reply::Rect(corner_rect()),
            Reply::Now(3),
            Reply::Threads(4, 4),
        ],
    );
    assert_eq!(
        effects,
        vec![
            Effect::Place(Target::Panel, Placement { y: 794, ..corner() }, false),
            Effect::SetAlpha(0),
            Effect::Show(Target::Panel),
            start_timer(),
            Effect::BringPanelToFront,
        ]
    );
    assert_eq!(stage, Stage::Done);
    assert_eq!(g.anim, Some(Animation { opening: true, start_ns: 3, rest: corner() }));
}

#[test]
fn refresh_without_a_volume() {
    let mut g = with_panel();
    let (_, effects, stage) = run(
        &mut g,
        Stage::FindingTrackbar(After::ShowInPlace),
        &[Reply::Found(true), Reply::Volume(None), Reply::Found(true), Reply::Power(None)],
    );
    assert_eq!(effects, vec![Effect::SetBattery(None)]);
    assert_eq!(stage, Stage::ShowingWhere);
    assert_eq!(g, with_panel());
}

#[test]
fn ticks_of_an_opening_panel() {
    let mut g = with_panel();
    g.anim = Some(Animation { opening: true, start_ns: 0, rest: corner() });
    let (_, effects, stage) = run(&mut g, Stage::Ticking, &[Reply::Now(160 * MS)]);
    assert_eq!(
        effects,
        vec![
            Effect::Place(Target::Panel, Placement { y: 777, ..corner() }, false),
            Effect::SetAlpha(127),
        ]
    );
    assert_eq!(stage, Stage::Done);
    assert!(g.anim.is_some());
    let (queries, effects, stage) =
        run(&mut g, Stage::Ticking, &[Reply::Now(320 * MS), Reply::Proceed]);
    assert_eq!(queries, vec![Query::Clock, Query::Proceed]);
    assert_eq!(
        effects,
        vec![
            Effect::Place(Target::Panel, corner(), false),
            Effect::SetAlpha(255),
            Effect::StopTimer(1),
        ]
    );
    assert_eq!(stage, Stage::Done);
    assert_eq!(g.anim, None);
}

#[test]
fn last_tick_of_a_closing_panel() {
    let mut g = with_panel();
    g.anim = Some(Animation { opening: false, start_ns: MS, rest: corner() });
    let (_, effects, _) = run(&mut g, Stage::Ticking, &[Reply::Now(500 * MS), Reply::Proceed]);
    assert_eq!(
        effects,
        vec![
            Effect::Place(Target::Panel, Placement { y: 794, ..corner() }, false),
            Effect::SetAlpha(0),
            Effect::StopTimer(1),
            Effect::HidePanel,
            Effect::Place(Target::Panel, corner(), true),
        ]
    );
    assert_eq!(g, with_panel());
}

#[test]
fn hide_and_show_restores_the_place() {
    let mut g = with_panel();
    let r = corner_rect();
    run(&mut g, Stage::Toggling, &[Reply::Visible(true), Reply::Rect(r), Reply::Now(0)]);
    let (_, gone, _) = run(&mut g, Stage::Ticking, &[Reply::Now(320 * MS), Reply::Proceed]);
    assert_eq!(gone.last(), Some(&Effect::Place(Target::Panel, corner(), true)));
    let shown = [
        Reply::Visible(false),
        Reply::Found(false),
        Reply::Found(false),
        Reply::Rect(r),
        Reply::Now(400 * MS),
        Reply::Threads(1, 1),
    ];
    run(&mut g, Stage::Toggling, &shown);
    let (_, back, _) = run(&mut g, Stage::Ticking, &[Reply::Now(900 * MS), Reply::Proceed]);
    assert_eq!(back[0], Effect::Place(Target::Panel, corner(), false));
    assert_eq!(back[1], Effect::SetAlpha(255));
    assert_eq!(g, with_panel());
}

#[test]
fn losing_the_focus_hides_a_visible_panel_only() {
    let mut g = with_panel();
    let (_, effects, stage) = run(&mut g, Stage::Deactivating, &[Reply::Visible(false)]);
    assert!(effects.is_empty());
    assert_eq!(stage, Stage::Done);
    assert_eq!(g, with_panel());
    run(
        &mut g,
        Stage::Deactivating,
        &[Reply::Visible(true), Reply::Rect(corner_rect()), Reply::Now(1)],
    );
    assert!(!g.anim.unwrap().opening);
}

#[test]
fn scrolling_sets_the_volume() {
    let mut g = with_panel();
    let (queries, effects, stage) = run(&mut g, Stage::Scrolling, &[Reply::Position(37)]);
    assert_eq!(queries, vec![Query::TrackbarPosition]);
    assert_eq!(effects, vec![Effect::SetVolume(37)]);
    assert_eq!(stage, Stage::Done);
}

#[test]
fn bubble_is_made_with_its_bitmap() {
    let mut g = Guardian::new();
    let p = Placement { x: 1850, y: 1010, width: 46, height: 46 };
    let (queries, effects, stage) = run(
        &mut g,
        Stage::BubbleWhere,
        &[Reply::Rect(desktop()), Reply::Made(true), Reply::Made(true), Reply::Now(9)],
    );
    assert_eq!(
        queries,
        vec![Query::DesktopRect, Query::CreateBubble(p), Query::LoadBitmap(46), Query::Clock]
    );
    assert_eq!(
        effects,
        vec![
            Effect::PaintBubble(p),
            Effect::Show(Target::Bubble),
            Effect::Place(Target::Bubble, p, false),
            Effect::StartTimer(Target::Bubble, 2, 10),
        ]
    );
    assert_eq!(stage, Stage::Done);
    assert!(g.bitmap);
    assert_eq!(g.bubble, Some(Bubble { base_x: 1850, base_y: 1010, start_ns: 9 }));
}

#[test]
fn bubble_without_a_bitmap_or_a_window() {
    let mut g = Guardian::new();
    let (_, effects, _) = run(
        &mut g,
        Stage::BubbleWhere,
        &[Reply::Rect(desktop()), Reply::Made(true), Reply::Made(false), Reply::Now(9)],
    );
    assert_eq!(effects[0], Effect::Show(Target::Bubble));
    assert!(!g.bitmap && g.bubble.is_some());
    let mut g = Guardian::new();
    let (_, effects, stage) =
        run(&mut g, Stage::BubbleWhere, &[Reply::Rect(desktop()), Reply::Made(false)]);
    assert!(effects.is_empty());
    assert_eq!(stage, Stage::Done);
    assert_eq!(g, Guardian::new());
}

#[test]
fn bubble_bobs() {
    let mut g = Guardian::new();
    g.bubble = Some(Bubble { base_x: 1850, base_y: 1010, start_ns: 0 });
    let (_, effects, stage) = run(&mut g, Stage::Bobbing, &[Reply::Now(650 * MS)]);
    let p = Placement { x: 1850, y: 1015, width: 46, height: 46 };
    assert_eq!(effects, vec![Effect::Place(Target::Bubble, p, false)]);
    assert_eq!(stage, Stage::Done);
}

#[test]
fn replies_to_other_questions_are_passed_over() {
    let mut g = with_panel();
    let (next, script) = g.step(Stage::Toggling, Reply::Now(1));
    assert_eq!(next, Stage::Toggling);
    assert!(script.is_empty());
    let (next, script) = g.step(Stage::Done, Reply::Proceed);
    assert_eq!(next, Stage::Done);
    assert!(script.is_empty());
    assert_eq!(g, with_panel());
}

#[test]
fn ticks_without_an_animation_do_nothing() {
    let mut g = Guardian::new();
    for stage in [Stage::Ticking, Stage::Bobbing] {
        let (next, script) = g.step(stage, Reply::Now(1));
        assert_eq!(next, Stage::Done);
        assert!(script.is_empty());
    }
}

#[test]
fn replies_out_of_range() {
    let g = with_panel();
    assert!(!g.can_work(Stage::Creating, Reply::Made(false)));
    let huge = Rect { left: i32::MIN, top: 0, right: i32::MAX, bottom: 1 };
    assert!(!g.can_work(Stage::HidingWhere, Reply::Rect(huge)));
    assert!(!g.can_work(Stage::ShowingWhere, Reply::Rect(huge)));
    let low = Rect { left: 0, top: i32::MAX - 33, right: 1, bottom: i32::MAX };
    assert!(g.can_work(Stage::HidingWhere, Reply::Rect(low)));
    assert!(!g.can_work(Stage::ShowingWhere, Reply::Rect(low)));
    let nowhere = Rect { left: 0, top: 0, right: i32::MIN, bottom: 0 };
    assert!(!g.can_work(Stage::Placing, Reply::Rect(nowhere)));
    assert!(!g.can_work(Stage::BubbleWhere, Reply::Rect(nowhere)));
    let p = Placement { x: 0, y: i32::MAX, width: 1, height: 1 };
    assert!(!g.can_work(Stage::ReadingPower(After::ShowAt(p)), Reply::Power(None)));
}

#[test]
fn messages_to_the_main_window() {
    let g = with_panel();
    assert_eq!(g.main_wndproc(WM_HOTKEY, 1), Verdict::Enter(Stage::Toggling));
    assert_eq!(Guardian::new().main_wndproc(WM_HOTKEY, 1), Verdict::Enter(Stage::Creating));
    assert_eq!(g.main_wndproc(WM_HOTKEY, 2), Verdict::Handled);
    assert_eq!(g.main_wndproc(WM_DESTROY, 0), Verdict::Perform(Effect::Quit));
    assert_eq!(g.main_wndproc(WM_TIMER, 1), Verdict::Default);
    assert_eq!(g.main_wndproc(0, 0), Verdict::Default);
}

#[test]
fn messages_to_the_panel() {
    let mut g = with_panel();
    let launch = |p| Verdict::Perform(Effect::Launch(p));
    assert_eq!(g.panel_wndproc(WM_COMMAND, 101), Verdict::Perform(Effect::RestartTray));
    assert_eq!(g.panel_wndproc(WM_COMMAND, 102), launch(Program::Chrome));
    assert_eq!(g.panel_wndproc(WM_COMMAND, 0x1_0067), launch(Program::Spotify));
    assert_eq!(g.panel_wndproc(WM_COMMAND, 104), Verdict::Handled);
    assert_eq!(g.panel_wndproc(WM_HSCROLL, 5), Verdict::Enter(Stage::Scrolling));
    assert_eq!(g.panel_wndproc(WM_ACTIVATE, 0), Verdict::Enter(Stage::Deactivating));
    assert_eq!(g.panel_wndproc(WM_ACTIVATE, 0x1_0000), Verdict::Enter(Stage::Deactivating));
    assert_eq!(g.panel_wndproc(WM_ACTIVATE, 1), Verdict::Handled);
    assert_eq!(g.panel_wndproc(WM_CLOSE, 0), Verdict::Enter(Stage::HidingWhere));
    assert_eq!(g.panel_wndproc(WM_TIMER, 1), Verdict::Handled);
    g.anim = Some(Animation { opening: true, start_ns: 0, rest: corner() });
    assert_eq!(g.panel_wndproc(WM_TIMER, 1), Verdict::Enter(Stage::Ticking));
    assert_eq!(g.panel_wndproc(WM_TIMER, 2), Verdict::Handled);
    assert_eq!(g.panel_wndproc(WM_DESTROY, 0), Verdict::Default);
}

#[test]
fn messages_to_the_bubble() {
    let mut g = Guardian::new();
    assert_eq!(g.bubble_wndproc(WM_LBUTTONUP, 0), Verdict::Handled);
    g.main_created();
    assert_eq!(g.bubble_wndproc(WM_LBUTTONUP, 0), Verdict::Enter(Stage::Creating));
    assert_eq!(g.bubble_wndproc(WM_TIMER, 2), Verdict::Handled);
    g.bubble = Some(Bubble { base_x: 0, base_y: 0, start_ns: 0 });
    assert_eq!(g.bubble_wndproc(WM_TIMER, 2), Verdict::Enter(Stage::Bobbing));
    assert_eq!(g.bubble_wndproc(WM_TIMER, 1), Verdict::Handled);
    assert_eq!(g.bubble_wndproc(WM_HOTKEY, 1), Verdict::Default);
}

#[test]
fn bitmap_is_deleted_once() {
    let mut g = Guardian { bitmap: true, ..Guardian::new() };
    assert_eq!(g.bubble_wndproc(WM_DESTROY, 0), Verdict::Perform(Effect::DeleteBitmap));
    assert!(!g.bitmap);
    assert_eq!(g.bubble_wndproc(WM_DESTROY, 0), Verdict::Handled);
}

#[test]
fn parts_of_message_parameters() {
    assert_eq!(low_word(0x1234_5678), 0x5678);
    assert!(is_hotkey(1));
    assert!(!is_hotkey(0));
    assert!(!is_hotkey(0xffff_ffff));
    if usize::BITS == 64 {
        assert!(is_hotkey((1usize << 40) + 1));
    }
}

#[test]
fn message_numbers() {
    assert_eq!(
        [
            WM_DESTROY,
            WM_ACTIVATE,
            WM_CLOSE,
            WM_COMMAND,
            WM_TIMER,
            WM_HSCROLL,
            WM_LBUTTONUP,
            WM_HOTKEY,
        ],
        [2, 6, 16, 273, 275, 276, 514, 786]
    );
}
