//! What the core does to a desktop.
//!
//! A [`World`] holds what the system would answer; [`respond`] carries out the verdict on
//! a message in it, the way a driver does, and records every question and every effect.
//! The laws say, from the desktop's side, what the messages lead to.
use vstd::prelude::*;

use crate::animation::{
    elapsed, lemma_elapsed, lemma_frames_follow_the_curve, lemma_frames_in_range, on_curve, on_line,
    Animation,
};
use crate::bubble::{
    bob, first_ms, lemma_bob, lemma_bob_is_bounded, lemma_bob_steps_follow_the_sine, Bubble,
};
use crate::controls::Program;
use crate::geometry::{Placement, Rect};
use crate::guardian::{answers, query_of, After, Guardian, Stage, Verdict};
use crate::protocol::{Effect, Query, Reply, Target};
use crate::text::PowerStatus;

verus! {

/// The desktop around the program, at one moment.
pub struct World {
    pub panel_visible: bool,
    pub panel: Rect,
    /// How opaque the panel is.
    pub panel_alpha: u8,
    pub desktop: Rect,
    /// The panel has its trackbar.
    pub trackbar: bool,
    /// The master volume as a trackbar position.
    pub volume: Option<isize>,
    /// The panel has its battery label.
    pub label: bool,
    pub power: Option<PowerStatus>,
    /// The thread that owns the foreground window.
    pub foreground: u32,
    /// The thread of the program.
    pub own: u32,
    /// The position of the trackbar that was moved.
    pub slider: isize,
    /// The clock, in nanoseconds.
    pub now: u128,
    /// The window of the bubble can be made.
    pub bubble_possible: bool,
    /// The bitmap of the bubble can be made.
    pub bitmap_possible: bool,
}

/// What happened in the course of a procedure.
pub struct Course {
    pub guardian: Guardian,
    /// Where it stopped.
    pub stage: Stage,
    pub asked: Seq<Query>,
    pub effects: Seq<Effect>,
}

impl World {
    /// What the system answers. Making the panel succeeds.
    pub open spec fn answer(self, query: Query) -> Reply {
        match query {
            Query::Nothing | Query::Proceed => Reply::Proceed,
            Query::PanelVisible => Reply::Visible(self.panel_visible),
            Query::PanelRect => Reply::Rect(self.panel),
            Query::DesktopRect => Reply::Rect(self.desktop),
            Query::CreatePanel(_, _) => Reply::Made(true),
            Query::FindControl(id) => Reply::Found(
                (id == 104 && self.trackbar) || (id == 105 && self.label),
            ),
            Query::Volume => Reply::Volume(self.volume),
            Query::Power => Reply::Power(self.power),
            Query::Threads => Reply::Threads(self.foreground, self.own),
            Query::TrackbarPosition => Reply::Position(self.slider),
            Query::Clock => Reply::Now(self.now),
            Query::CreateBubble(_) => Reply::Made(self.bubble_possible),
            Query::LoadBitmap(_) => Reply::Made(self.bitmap_possible),
        }
    }

    /// What an effect does to the panel.
    pub open spec fn after(self, effect: Effect) -> World {
        match effect {
            Effect::Place(Target::Panel, p, _) => World {
                panel: Rect {
                    left: p.x,
                    top: p.y,
                    right: (p.x + p.width) as i32,
                    bottom: (p.y + p.height) as i32,
                },
                ..self
            },
            Effect::SetAlpha(alpha) => World { panel_alpha: alpha, ..self },
            Effect::Show(Target::Panel) => World { panel_visible: true, ..self },
            Effect::HidePanel => World { panel_visible: false, ..self },
            _ => self,
        }
    }

    /// What some effects in turn do to the panel.
    pub open spec fn after_all(self, effects: Seq<Effect>) -> World
        decreases effects.len(),
    {
        if effects.len() == 0 {
            self
        } else {
            self.after(effects[0]).after_all(effects.drop_first())
        }
    }

    /// The place of the panel, so much lower.
    pub open spec fn panel_lowered(self, by: int) -> Placement {
        Placement {
            x: self.panel.left,
            y: (self.panel.top + by) as i32,
            width: (self.panel.right - self.panel.left) as i32,
            height: (self.panel.bottom - self.panel.top) as i32,
        }
    }

    /// The panel, and the panel one slide lower, lie within the range of coordinates.
    pub open spec fn panel_in_range(self) -> bool {
        &&& -0x8000_0000 <= self.panel.right - self.panel.left <= 0x7fff_ffff
        &&& -0x8000_0000 <= self.panel.bottom - self.panel.top <= 0x7fff_ffff
        &&& self.panel.top + 34 <= 0x7fff_ffff
    }
}

/// Walks a procedure, asking the world.
pub open spec fn drive(w: World, g: Guardian, stage: Stage, fuel: nat) -> Course
    decreases fuel,
{
    if fuel == 0 || stage == Stage::Done {
        Course { guardian: g, stage, asked: seq![], effects: seq![] }
    } else {
        let query = query_of(stage);
        let reply = w.answer(query);
        if !g.workable(stage, reply) {
            Course { guardian: g, stage, asked: seq![query], effects: seq![] }
        } else {
            let rest = drive(
                w,
                g.updated(stage, reply),
                g.next(stage, reply),
                (fuel - 1) as nat,
            );
            Course {
                asked: seq![query] + rest.asked,
                effects: g.script(stage, reply) + rest.effects,
                ..rest
            }
        }
    }
}

/// Carries out the verdict on a message. No procedure takes more than twelve steps.
pub open spec fn respond(w: World, g: Guardian, verdict: Verdict) -> Course {
    match verdict {
        Verdict::Default | Verdict::Handled => Course {
            guardian: g,
            stage: Stage::Done,
            asked: seq![],
            effects: seq![],
        },
        Verdict::Perform(effect) => Course {
            guardian: g,
            stage: Stage::Done,
            asked: seq![],
            effects: seq![effect],
        },
        Verdict::Enter(stage) => drive(w, g, stage, 12),
    }
}

/// A course that ended, having asked and done all this.
pub open spec fn came_to(
    course: Course,
    guardian: Guardian,
    asked: Seq<Query>,
    effects: Seq<Effect>,
) -> bool {
    &&& course.stage == Stage::Done
    &&& course.guardian == guardian
    &&& course.asked == asked
    &&& course.effects == effects
}

/// The panel in front: shared input, if another thread has it, for just that moment.
pub open spec fn to_front(w: World) -> Seq<Effect> {
    if w.foreground == w.own {
        seq![Effect::BringPanelToFront]
    } else {
        seq![
            Effect::AttachInput(w.own, w.foreground),
            Effect::BringPanelToFront,
            Effect::DetachInput(w.own, w.foreground),
        ]
    }
}

/// The panel on its way in to a place: from 34 pixels below it and invisible.
pub open spec fn slide_in(p: Placement) -> Seq<Effect> {
    seq![
        Effect::Place(Target::Panel, Placement { y: (p.y + 34) as i32, ..p }, false),
        Effect::SetAlpha(0),
        Effect::Show(Target::Panel),
    ]
}

/// The controls that are there, brought up to date.
pub open spec fn up_to_date(w: World) -> Seq<Effect> {
    (if w.trackbar && w.volume is Some {
        seq![Effect::SetTrackbar(w.volume->0)]
    } else {
        seq![]
    }) + (if w.label {
        seq![Effect::SetBattery(w.power)]
    } else {
        seq![]
    })
}

/// What has to be asked to bring the controls up to date.
pub open spec fn controls_asked(w: World) -> Seq<Query> {
    (if w.trackbar {
        seq![Query::FindControl(104), Query::Volume]
    } else {
        seq![Query::FindControl(104)]
    }) + (if w.label {
        seq![Query::FindControl(105), Query::Power]
    } else {
        seq![Query::FindControl(105)]
    })
}

/// The guardian with an animation that starts now.
pub open spec fn animating(g: Guardian, opening: bool, now: u128, rest: Placement) -> Guardian {
    Guardian { anim: Some(Animation { opening, start_ns: now, rest }), ..g }
}

proof fn lemma_drive_front(w: World, g: Guardian, fuel: nat)
    requires
        fuel >= 1,
    ensures
        came_to(drive(w, g, Stage::Fronting, fuel), g, seq![Query::Threads], to_front(w)),
{
    reveal_with_fuel(drive, 2);
    let c = drive(w, g, Stage::Fronting, fuel);
    assert(c.asked =~= seq![Query::Threads]);
    assert(c.effects =~= to_front(w));
}

proof fn lemma_drive_show_when(w: World, g: Guardian, p: Placement, fuel: nat)
    requires
        fuel >= 2,
    ensures
        came_to(
            drive(w, g, Stage::ShowingWhen(p), fuel),
            animating(g, true, w.now, p),
            seq![Query::Clock, Query::Threads],
            seq![Effect::StartTimer(Target::Panel, 1, 8)] + to_front(w),
        ),
{
    lemma_drive_front(w, animating(g, true, w.now, p), (fuel - 1) as nat);
    let c = drive(w, g, Stage::ShowingWhen(p), fuel);
    assert(c.asked =~= seq![Query::Clock, Query::Threads]);
    assert(c.effects =~= seq![Effect::StartTimer(Target::Panel, 1, 8)] + to_front(w));
}

proof fn lemma_drive_show_where(w: World, g: Guardian, fuel: nat)
    requires
        fuel >= 3,
        w.panel_in_range(),
    ensures
        came_to(
            drive(w, g, Stage::ShowingWhere, fuel),
            animating(g, true, w.now, w.panel_lowered(0)),
            seq![Query::PanelRect, Query::Clock, Query::Threads],
            slide_in(w.panel_lowered(0)) + (seq![Effect::StartTimer(Target::Panel, 1, 8)]
                + to_front(w)),
        ),
{
    lemma_drive_show_when(w, g, w.panel_lowered(0), (fuel - 1) as nat);
    let c = drive(w, g, Stage::ShowingWhere, fuel);
    assert(c.asked =~= seq![Query::PanelRect, Query::Clock, Query::Threads]);
    assert(c.effects =~= slide_in(w.panel_lowered(0)) + (seq![
        Effect::StartTimer(Target::Panel, 1, 8),
    ] + to_front(w)));
}

/// What is asked after a refresh, and done, and where the panel then rests.
spec fn then_asked(after: After) -> Seq<Query> {
    match after {
        After::ShowInPlace => seq![Query::PanelRect, Query::Clock, Query::Threads],
        After::ShowAt(_) => seq![Query::Clock, Query::Threads],
    }
}

spec fn then_rest(w: World, after: After) -> Placement {
    match after {
        After::ShowInPlace => w.panel_lowered(0),
        After::ShowAt(p) => p,
    }
}

spec fn then_effects(w: World, after: After) -> Seq<Effect> {
    slide_in(then_rest(w, after)) + (seq![Effect::StartTimer(Target::Panel, 1, 8)] + to_front(w))
}

spec fn then_in_range(w: World, after: After) -> bool {
    match after {
        After::ShowInPlace => w.panel_in_range(),
        After::ShowAt(p) => p.y + 34 <= 0x7fff_ffff,
    }
}

proof fn lemma_drive_power(w: World, g: Guardian, after: After, fuel: nat)
    requires
        fuel >= 4,
        then_in_range(w, after),
    ensures
        came_to(
            drive(w, g, Stage::ReadingPower(after), fuel),
            animating(g, true, w.now, then_rest(w, after)),
            seq![Query::Power] + then_asked(after),
            seq![Effect::SetBattery(w.power)] + then_effects(w, after),
        ),
{
    let less = (fuel - 1) as nat;
    match after {
        After::ShowInPlace => lemma_drive_show_where(w, g, less),
        After::ShowAt(p) => lemma_drive_show_when(w, g, p, less),
    }
    let c = drive(w, g, Stage::ReadingPower(after), fuel);
    assert(c.asked =~= seq![Query::Power] + then_asked(after));
    assert(c.effects =~= seq![Effect::SetBattery(w.power)] + then_effects(w, after));
}

proof fn lemma_drive_label(w: World, g: Guardian, after: After, fuel: nat)
    requires
        fuel >= 5,
        then_in_range(w, after),
    ensures
        came_to(
            drive(w, g, Stage::FindingLabel(after), fuel),
            animating(g, true, w.now, then_rest(w, after)),
            (if w.label {
                seq![Query::FindControl(105), Query::Power]
            } else {
                seq![Query::FindControl(105)]
            }) + then_asked(after),
            (if w.label {
                seq![Effect::SetBattery(w.power)]
            } else {
                seq![]
            }) + then_effects(w, after),
        ),
{
    let less = (fuel - 1) as nat;
    let c = drive(w, g, Stage::FindingLabel(after), fuel);
    if w.label {
        lemma_drive_power(w, g, after, less);
        assert(c.asked =~= seq![Query::FindControl(105), Query::Power] + then_asked(after));
        assert(c.effects =~= seq![Effect::SetBattery(w.power)] + then_effects(w, after));
    } else {
        match after {
            After::ShowInPlace => lemma_drive_show_where(w, g, less),
            After::ShowAt(p) => lemma_drive_show_when(w, g, p, less),
        }
        assert(c.asked =~= seq![Query::FindControl(105)] + then_asked(after));
        assert(c.effects =~= seq![] + then_effects(w, after));
    }
}

proof fn lemma_drive_volume(w: World, g: Guardian, after: After, fuel: nat)
    requires
        fuel >= 6,
        then_in_range(w, after),
    ensures
        ({
            let rest = drive(w, g, Stage::FindingLabel(after), (fuel - 1) as nat);
            came_to(
                drive(w, g, Stage::ReadingVolume(after), fuel),
                rest.guardian,
                seq![Query::Volume] + rest.asked,
                (if w.volume is Some {
                    seq![Effect::SetTrackbar(w.volume->0)]
                } else {
                    seq![]
                }) + rest.effects,
            )
        }),
{
    lemma_drive_label(w, g, after, (fuel - 1) as nat);
    let rest = drive(w, g, Stage::FindingLabel(after), (fuel - 1) as nat);
    let c = drive(w, g, Stage::ReadingVolume(after), fuel);
    assert(c.effects =~= (if w.volume is Some {
        seq![Effect::SetTrackbar(w.volume->0)]
    } else {
        seq![]
    }) + rest.effects);
}

proof fn lemma_drive_refresh(w: World, g: Guardian, after: After, fuel: nat)
    requires
        fuel >= 7,
        then_in_range(w, after),
    ensures
        came_to(
            drive(w, g, Stage::FindingTrackbar(after), fuel),
            animating(g, true, w.now, then_rest(w, after)),
            controls_asked(w) + then_asked(after),
            up_to_date(w) + then_effects(w, after),
        ),
{
    let less = (fuel - 1) as nat;
    let c = drive(w, g, Stage::FindingTrackbar(after), fuel);
    if w.trackbar {
        lemma_drive_volume(w, g, after, less);
        lemma_drive_label(w, g, after, (less - 1) as nat);
    } else {
        lemma_drive_label(w, g, after, less);
    }
    assert(c.asked =~= controls_asked(w) + then_asked(after));
    assert(c.effects =~= up_to_date(w) + then_effects(w, after));
}

/// Shown at a place, the panel is brought up to date, starts to slide in to exactly that
/// place, and comes to the front.
pub proof fn lemma_panel_is_shown_at(w: World, g: Guardian, p: Placement)
    requires
        p.y + 34 <= 0x7fff_ffff,
    ensures
        came_to(
            drive(w, g, Stage::FindingTrackbar(After::ShowAt(p)), 12),
            animating(g, true, w.now, p),
            controls_asked(w) + seq![Query::Clock, Query::Threads],
            up_to_date(w) + (slide_in(p) + (seq![Effect::StartTimer(Target::Panel, 1, 8)]
                + to_front(w))),
        ),
{
    lemma_drive_refresh(w, g, After::ShowAt(p), 12);
}

/// The hot key, and a click on the bubble, show a hidden panel: it is brought up to date,
/// starts to slide in to exactly where it is, whatever else is on the desktop, and comes to
/// the front.
pub proof fn lemma_hot_key_shows(w: World, g: Guardian, hot_key: usize, click: usize)
    requires
        g.panel_created,
        !w.panel_visible,
        w.panel_in_range(),
        hot_key as int % 0x1_0000_0000 == 1,
    ensures
        came_to(
            respond(w, g, g.main_verdict(0x312, hot_key)),
            animating(g, true, w.now, w.panel_lowered(0)),
            seq![Query::PanelVisible] + controls_asked(w) + seq![
                Query::PanelRect,
                Query::Clock,
                Query::Threads,
            ],
            up_to_date(w) + slide_in(w.panel_lowered(0)) + seq![
                Effect::StartTimer(Target::Panel, 1, 8),
            ] + to_front(w),
        ),
        g.main_ready ==> g.bubble_verdict(0x202, click) == g.main_verdict(0x312, hot_key),
{
    lemma_drive_refresh(w, g, After::ShowInPlace, 11);
    let c = respond(w, g, g.main_verdict(0x312, hot_key));
    assert(c.asked =~= seq![Query::PanelVisible] + controls_asked(w) + seq![
        Query::PanelRect,
        Query::Clock,
        Query::Threads,
    ]);
    assert(c.effects =~= up_to_date(w) + slide_in(w.panel_lowered(0)) + seq![
        Effect::StartTimer(Target::Panel, 1, 8),
    ] + to_front(w));
}

/// The first hot key makes the panel, 260 pixels wide and high, puts it 20 pixels from the
/// right edge of the desktop and 60 from the bottom, fills it and shows it there.
pub proof fn lemma_hot_key_makes_the_panel(w: World, g: Guardian, hot_key: usize, p: Placement)
    requires
        !g.panel_created,
        p.x + 260 + 20 == w.desktop.right,
        p.y + 260 + 60 == w.desktop.bottom,
        p.width == 260 && p.height == 260,
        hot_key as int % 0x1_0000_0000 == 1,
    ensures
        came_to(
            respond(w, g, g.main_verdict(0x312, hot_key)),
            animating(Guardian { panel_created: true, ..g }, true, w.now, p),
            seq![Query::CreatePanel(260, 260), Query::DesktopRect, Query::Proceed]
                + controls_asked(w) + seq![Query::Clock, Query::Threads],
            seq![Effect::CreateControls, Effect::UpdatePanel] + up_to_date(w) + slide_in(p)
                + seq![Effect::StartTimer(Target::Panel, 1, 8)] + to_front(w),
        ),
{
    let made = Guardian { panel_created: true, ..g };
    lemma_drive_refresh(w, made, After::ShowAt(p), 9);
    let tail = drive(w, made, Stage::FindingTrackbar(After::ShowAt(p)), 9);
    let building = drive(w, g, Stage::Building(p), 10);
    assert(building.asked =~= seq![Query::Proceed] + tail.asked);
    assert(building.effects =~= tail.effects);
    let placing = drive(w, g, Stage::Placing, 11);
    assert(placing.asked =~= seq![Query::DesktopRect] + building.asked);
    assert(placing.effects =~= seq![Effect::CreateControls, Effect::UpdatePanel]
        + building.effects);
    let c = drive(w, g, Stage::Creating, 12);
    assert(c.asked =~= seq![Query::CreatePanel(260, 260), Query::DesktopRect, Query::Proceed]
        + controls_asked(w) + seq![Query::Clock, Query::Threads]);
    assert(c.effects =~= seq![Effect::CreateControls, Effect::UpdatePanel] + up_to_date(w)
        + slide_in(p) + seq![Effect::StartTimer(Target::Panel, 1, 8)] + to_front(w));
}

/// The width and the height of the panel are in range.
pub open spec fn panel_measurable(w: World) -> bool {
    &&& -0x8000_0000 <= w.panel.right - w.panel.left <= 0x7fff_ffff
    &&& -0x8000_0000 <= w.panel.bottom - w.panel.top <= 0x7fff_ffff
}

proof fn lemma_drive_hide(w: World, g: Guardian, fuel: nat)
    requires
        fuel >= 2,
        panel_measurable(w),
    ensures
        came_to(
            drive(w, g, Stage::HidingWhere, fuel),
            animating(g, false, w.now, w.panel_lowered(0)),
            seq![Query::PanelRect, Query::Clock],
            seq![Effect::StartTimer(Target::Panel, 1, 8)],
        ),
{
    reveal_with_fuel(drive, 3);
    let c = drive(w, g, Stage::HidingWhere, fuel);
    assert(c.asked =~= seq![Query::PanelRect, Query::Clock]);
    assert(c.effects =~= seq![Effect::StartTimer(Target::Panel, 1, 8)]);
}

/// The hot key, a click on the bubble, closing the panel and turning away from it all start
/// to hide a visible panel from exactly where it is, and do nothing else but start the
/// timer. Turning away from a hidden panel does nothing.
pub proof fn lemma_panel_is_hidden(
    w: World,
    g: Guardian,
    hot_key: usize,
    click: usize,
    close: usize,
    away: usize,
)
    requires
        panel_measurable(w),
        hot_key as int % 0x1_0000_0000 == 1,
        away as int % 0x1_0000 == 0,
    ensures
        ({
            let hiding = animating(g, false, w.now, w.panel_lowered(0));
            let timer = seq![Effect::StartTimer(Target::Panel, 1, 8)];
            let looked = seq![Query::PanelVisible, Query::PanelRect, Query::Clock];
            &&& came_to(
                respond(w, g, g.panel_verdict(0x10, close)),
                hiding,
                seq![Query::PanelRect, Query::Clock],
                timer,
            )
            &&& w.panel_visible ==> came_to(
                respond(w, g, g.panel_verdict(0x6, away)),
                hiding,
                looked,
                timer,
            )
            &&& !w.panel_visible ==> came_to(
                respond(w, g, g.panel_verdict(0x6, away)),
                g,
                seq![Query::PanelVisible],
                seq![],
            )
            &&& w.panel_visible && g.panel_created ==> came_to(
                respond(w, g, g.main_verdict(0x312, hot_key)),
                hiding,
                looked,
                timer,
            )
            &&& g.main_ready ==> g.bubble_verdict(0x202, click) == g.main_verdict(0x312, hot_key)
        }),
{
    lemma_drive_hide(w, g, 12);
    lemma_drive_hide(w, g, 11);
    let looked = seq![Query::PanelVisible, Query::PanelRect, Query::Clock];
    let timer = seq![Effect::StartTimer(Target::Panel, 1, 8)];
    let away_course = drive(w, g, Stage::Deactivating, 12);
    let key_course = drive(w, g, Stage::Toggling, 12);
    if w.panel_visible {
        assert(away_course.asked =~= looked);
        assert(away_course.effects =~= timer);
        assert(key_course.asked =~= looked);
        assert(key_course.effects =~= timer);
    } else {
        reveal_with_fuel(drive, 2);
        assert(away_course.asked =~= seq![Query::PanelVisible]);
        assert(away_course.effects =~= seq![]);
    }
}

/// Moving the trackbar sets the volume to the position it was moved to, and that is all.
pub proof fn lemma_volume_follows_the_trackbar(w: World, g: Guardian, wparam: usize)
    ensures
        came_to(
            respond(w, g, g.panel_verdict(0x114, wparam)),
            g,
            seq![Query::TrackbarPosition],
            seq![Effect::SetVolume(w.slider)],
        ),
{
    reveal_with_fuel(drive, 2);
    let c = respond(w, g, g.panel_verdict(0x114, wparam));
    assert(c.asked =~= seq![Query::TrackbarPosition]);
    assert(c.effects =~= seq![Effect::SetVolume(w.slider)]);
}

/// So many whole milliseconds have passed from one reading of the clock to another.
pub open spec fn passed(start: u128, now: u128, ms: int) -> bool {
    if start <= now {
        ms * 1_000_000 <= now - start < (ms + 1) * 1_000_000
    } else {
        ms == 0
    }
}

/// Whether the panel is coming or going, a message of its timer shows the frame of the
/// moment: the panel on the curve between its rest and 34 pixels below it. In the first 320
/// milliseconds the animation goes on. The first message after that ends it: a panel that
/// came is opaque at rest, a panel that went is hidden and put back to its rest.
pub proof fn lemma_timer_animates(w: World, g: Guardian, anim: Animation, ms: int)
    requires
        g.anim == Some(anim),
        anim.rest.y + 34 <= 0x7fff_ffff,
        passed(anim.start_ns, w.now, ms),
    ensures
        ({
            let c = respond(w, g, g.panel_verdict(0x113, 1));
            let over = Guardian { anim: None, ..g };
            let low = Placement { y: (anim.rest.y + 34) as i32, ..anim.rest };
            &&& ms < 320 ==> {
                &&& c.stage == Stage::Done && c.guardian == g && c.asked == seq![Query::Clock]
                &&& c.effects.len() == 2
                &&& c.effects[0] matches Effect::Place(Target::Panel, p, resized) && !resized && p
                    == (Placement { y: p.y, ..anim.rest }) && on_curve(
                    if anim.opening {
                        anim.rest.y + 34 - p.y
                    } else {
                        p.y - anim.rest.y
                    },
                    34,
                    ms,
                )
                &&& c.effects[1] matches Effect::SetAlpha(alpha) && (if anim.opening {
                    on_curve(alpha as int, 255, ms)
                } else {
                    on_line(alpha as int, ms)
                })
            }
            &&& ms >= 320 && anim.opening ==> came_to(
                c,
                over,
                seq![Query::Clock, Query::Proceed],
                seq![
                    Effect::Place(Target::Panel, anim.rest, false),
                    Effect::SetAlpha(255),
                    Effect::StopTimer(1),
                ],
            )
            &&& ms >= 320 && !anim.opening ==> came_to(
                c,
                over,
                seq![Query::Clock, Query::Proceed],
                seq![
                    Effect::Place(Target::Panel, low, false),
                    Effect::SetAlpha(0),
                    Effect::StopTimer(1),
                    Effect::HidePanel,
                    Effect::Place(Target::Panel, anim.rest, true),
                ],
            )
        }),
{
    reveal_with_fuel(drive, 3);
    lemma_elapsed(anim.start_ns, w.now, w.now, 0);
    assert(elapsed(anim.start_ns, w.now) == ms);
    assert(ms >= 0);
    lemma_frames_follow_the_curve(anim, ms);
    let c = respond(w, g, g.panel_verdict(0x113, 1));
    let frame = anim.frame_at(ms);
    let shown = seq![
        Effect::Place(Target::Panel, Placement { y: frame.y, ..anim.rest }, false),
        Effect::SetAlpha(frame.alpha),
    ];
    if ms < 320 {
        assert(c.asked =~= seq![Query::Clock]);
        assert(c.effects =~= shown);
    } else {
        assert(c.asked =~= seq![Query::Clock, Query::Proceed]);
        if anim.opening {
            assert(frame.y == anim.rest.y && frame.alpha == 255);
            assert(c.effects =~= seq![
                Effect::Place(Target::Panel, anim.rest, false),
                Effect::SetAlpha(255),
                Effect::StopTimer(1),
            ]);
        } else {
            let low = Placement { y: (anim.rest.y + 34) as i32, ..anim.rest };
            assert(frame.y == anim.rest.y + 34 && frame.alpha == 0);
            assert(c.effects =~= seq![
                Effect::Place(Target::Panel, low, false),
                Effect::SetAlpha(0),
                Effect::StopTimer(1),
                Effect::HidePanel,
                Effect::Place(Target::Panel, anim.rest, true),
            ]);
        }
    }
}

/// Without an animation, and for any other timer, a timer message to the panel does
/// nothing; nor does one to the bubble before it is there, or for any other timer.
pub proof fn lemma_other_timers_do_nothing(g: Guardian, timer: usize)
    ensures
        timer != 1 || g.anim is None ==> g.panel_verdict(0x113, timer) == Verdict::Handled,
        timer != 2 || g.bubble is None ==> g.bubble_verdict(0x113, timer) == Verdict::Handled,
{
}

/// The buttons of the panel do what they say, and other commands do nothing. Turning to
/// the panel does nothing. Any message that is none of the panel's five is left alone.
pub proof fn lemma_panel_messages(g: Guardian, msg: u32, wparam: usize)
    ensures
        ({
            let word = wparam as int % 0x1_0000;
            let command = g.panel_verdict(0x111, wparam);
            &&& word == 101 ==> command == Verdict::Perform(Effect::RestartTray)
            &&& word == 102 ==> command == Verdict::Perform(Effect::Launch(Program::Chrome))
            &&& word == 103 ==> command == Verdict::Perform(Effect::Launch(Program::Spotify))
            &&& word < 101 || 103 < word ==> command == Verdict::Handled
            &&& word != 0 ==> g.panel_verdict(0x6, wparam) == Verdict::Handled
            &&& msg != 0x111 && msg != 0x114 && msg != 0x6 && msg != 0x113 && msg != 0x10
                ==> g.panel_verdict(msg, wparam) == Verdict::Default
        }),
{
}

/// Another hot key does nothing, and the end of the main window ends the program. Any
/// message that is neither is left alone.
pub proof fn lemma_main_messages(g: Guardian, msg: u32, wparam: usize)
    ensures
        wparam as int % 0x1_0000_0000 != 1 ==> g.main_verdict(0x312, wparam) == Verdict::Handled,
        g.main_verdict(0x2, wparam) == Verdict::Perform(Effect::Quit),
        msg != 0x312 && msg != 0x2 ==> g.main_verdict(msg, wparam) == Verdict::Default,
{
}

/// A click on the bubble does nothing before the main window is there. The end of the
/// bubble takes its bitmap with it, if it has one, and no other message changes what is
/// remembered. Any message that is none of the bubble's three is left alone.
pub proof fn lemma_bubble_messages(g: Guardian, msg: u32, wparam: usize)
    ensures
        !g.main_ready ==> g.bubble_verdict(0x202, wparam) == Verdict::Handled,
        g.bitmap ==> g.bubble_verdict(0x2, wparam) == Verdict::Perform(Effect::DeleteBitmap),
        !g.bitmap ==> g.bubble_verdict(0x2, wparam) == Verdict::Handled,
        g.after_bubble_message(0x2) == (Guardian { bitmap: false, ..g }),
        msg != 0x2 ==> g.after_bubble_message(msg) == g,
        msg != 0x202 && msg != 0x113 && msg != 0x2 ==> g.bubble_verdict(msg, wparam)
            == Verdict::Default,
{
}

/// The bubble is made 24 pixels from the right and the bottom edge of the desktop, 46
/// pixels wide and high, with the bitmap if there is one, and set bobbing about that place
/// from now on. Without a window there is no bubble at all.
pub proof fn lemma_bubble_is_made(w: World, g: Guardian, p: Placement)
    requires
        p.x + 46 + 24 == w.desktop.right,
        p.y + 46 + 24 == w.desktop.bottom,
        p.width == 46 && p.height == 46,
    ensures
        ({
            let c = drive(w, g, Stage::BubbleWhere, 12);
            &&& !w.bubble_possible ==> came_to(
                c,
                g,
                seq![Query::DesktopRect, Query::CreateBubble(p)],
                seq![],
            )
            &&& w.bubble_possible ==> came_to(
                c,
                Guardian {
                    bitmap: w.bitmap_possible,
                    bubble: Some(Bubble { base_x: p.x, base_y: p.y, start_ns: w.now }),
                    ..g
                },
                seq![
                    Query::DesktopRect,
                    Query::CreateBubble(p),
                    Query::LoadBitmap(46),
                    Query::Clock,
                ],
                (if w.bitmap_possible {
                    seq![Effect::PaintBubble(p)]
                } else {
                    seq![]
                }) + seq![
                    Effect::Show(Target::Bubble),
                    Effect::Place(Target::Bubble, p, false),
                    Effect::StartTimer(Target::Bubble, 2, 10),
                ],
            )
        }),
{
    reveal_with_fuel(drive, 5);
    let c = drive(w, g, Stage::BubbleWhere, 12);
    if w.bubble_possible {
        assert(c.asked =~= seq![
            Query::DesktopRect,
            Query::CreateBubble(p),
            Query::LoadBitmap(46),
            Query::Clock,
        ]);
        assert(c.effects =~= (if w.bitmap_possible {
            seq![Effect::PaintBubble(p)]
        } else {
            seq![]
        }) + seq![
            Effect::Show(Target::Bubble),
            Effect::Place(Target::Bubble, p, false),
            Effect::StartTimer(Target::Bubble, 2, 10),
        ]);
    } else {
        assert(c.asked =~= seq![Query::DesktopRect, Query::CreateBubble(p)]);
        assert(c.effects =~= seq![]);
    }
}

/// The world at another time.
pub open spec fn at(w: World, now: u128) -> World {
    World { now, ..w }
}

/// Where the bubble is put by a message of its timer, as a height below its base.
pub open spec fn bobbed(w: World, g: Guardian, bubble: Bubble, below: int) -> bool {
    came_to(
        respond(w, g, g.bubble_verdict(0x113, 2)),
        g,
        seq![Query::Clock],
        seq![
            Effect::Place(
                Target::Bubble,
                Placement {
                    x: bubble.base_x,
                    y: (bubble.base_y + below) as i32,
                    width: 46,
                    height: 46,
                },
                false,
            ),
        ],
    )
}

proof fn lemma_bobbed(w: World, g: Guardian, bubble: Bubble, ms: int)
    requires
        g.bubble == Some(bubble),
        -0x8000_0000 + 5 <= bubble.base_y <= 0x7fff_ffff - 5,
        passed(bubble.start_ns, w.now, ms),
    ensures
        bobbed(w, g, bubble, bob(ms)),
{
    reveal_with_fuel(drive, 2);
    lemma_elapsed(bubble.start_ns, w.now, w.now, 0);
    assert(elapsed(bubble.start_ns, w.now) == ms);
    lemma_bob_is_bounded(ms);
    let c = respond(w, g, g.bubble_verdict(0x113, 2));
    assert(c.asked =~= seq![Query::Clock]);
    assert(c.effects =~= seq![
        Effect::Place(
            Target::Bubble,
            Placement {
                x: bubble.base_x,
                y: (bubble.base_y + bob(ms)) as i32,
                width: 46,
                height: 46,
            },
            false,
        ),
    ]);
}

/// A message of its timer moves the bubble straight up or down, at most 5 pixels from its
/// base. It is at the same place 2.6 seconds later, and at the mirrored one 1.3 seconds
/// later; within the first quarter of that time it reaches each of the pixels below its
/// base when the sine does.
pub proof fn lemma_bubble_bobs(
    w: World,
    g: Guardian,
    bubble: Bubble,
    ms: int,
    half: u128,
    full: u128,
    k: int,
) -> (below: int)
    requires
        g.bubble == Some(bubble),
        -0x8000_0000 + 5 <= bubble.base_y <= 0x7fff_ffff - 5,
        bubble.start_ns <= w.now,
        passed(bubble.start_ns, w.now, ms),
        ms + 2600 <= 0x20_0000_0000_0000,
        half == w.now + 1_300_000_000,
        full == w.now + 2_600_000_000,
        1 <= k <= 4,
    ensures
        -5 <= below <= 5,
        bobbed(w, g, bubble, below),
        bobbed(at(w, full), g, bubble, below),
        bobbed(at(w, half), g, bubble, -below),
        ms <= 650 ==> (below >= k <==> ms >= first_ms(k)),
        ms == 0 ==> below == 0,
        ms == 650 ==> below == 5,
{
    lemma_bob(ms);
    lemma_bob_is_bounded(ms);
    lemma_bobbed(w, g, bubble, ms);
    lemma_bobbed(at(w, full), g, bubble, ms + 2600);
    lemma_bobbed(at(w, half), g, bubble, ms + 1300);
    if ms <= 650 {
        lemma_bob_steps_follow_the_sine(k, ms);
    }
    bob(ms)
}

/// What a stage waits for.
pub open spec fn awaited(stage: Stage, reply: Reply) -> bool {
    match stage {
        Stage::Done => false,
        Stage::Toggling | Stage::Deactivating => reply is Visible,
        Stage::Creating | Stage::BubbleWindow(_) | Stage::BubbleBitmap(_) => reply is Made,
        Stage::Placing | Stage::ShowingWhere | Stage::HidingWhere | Stage::BubbleWhere => reply
            is Rect,
        Stage::Building(_) | Stage::Ending => reply is Proceed,
        Stage::FindingTrackbar(_) | Stage::FindingLabel(_) => reply is Found,
        Stage::ReadingVolume(_) => reply is Volume,
        Stage::ReadingPower(_) => reply is Power,
        Stage::Fronting => reply is Threads,
        Stage::Scrolling => reply is Position,
        Stage::ShowingWhen(_) | Stage::HidingWhen(_) | Stage::Ticking | Stage::Bobbing
        | Stage::BubbleWhen(_) => reply is Now,
    }
}

/// A reply that is not waited for changes nothing. The world's answers are waited for, and
/// a reply that is waited for is what the question of the stage asks.
pub proof fn lemma_only_answers_count(w: World, g: Guardian, stage: Stage, reply: Reply)
    ensures
        !awaited(stage, reply) ==> g.next(stage, reply) == stage,
        !awaited(stage, reply) ==> g.updated(stage, reply) == g,
        !awaited(stage, reply) ==> g.script(stage, reply) == Seq::<Effect>::empty(),
        stage != Stage::Done ==> awaited(stage, w.answer(query_of(stage))),
        awaited(stage, reply) <==> answers(query_of(stage), reply),
        awaited(stage, reply) ==> g.next(stage, reply) != stage,
{
    if !awaited(stage, reply) {
        assert(g.script(stage, reply) =~= Seq::<Effect>::empty());
    }
}

/// Which rectangles and times can be worked with: exactly those with which no coordinate
/// leaves the range of 32 bits. And without the panel there is no going on.
pub proof fn lemma_what_can_be_worked_with(g: Guardian, r: Rect, now: u128, ms: int, sunk: int)
    ensures
        g.workable(Stage::Creating, Reply::Made(true)),
        !g.workable(Stage::Creating, Reply::Made(false)),
        g.workable(Stage::Placing, Reply::Rect(r)) <==> r.right - 280 >= -0x8000_0000 && r.bottom
            - 320 >= -0x8000_0000,
        g.workable(Stage::BubbleWhere, Reply::Rect(r)) <==> r.right - 70 >= -0x8000_0000
            && r.bottom - 70 >= -0x8000_0000,
        g.workable(Stage::HidingWhere, Reply::Rect(r)) <==> -0x8000_0000 <= r.right - r.left
            <= 0x7fff_ffff && -0x8000_0000 <= r.bottom - r.top <= 0x7fff_ffff,
        g.workable(Stage::ShowingWhere, Reply::Rect(r)) <==> g.workable(
            Stage::HidingWhere,
            Reply::Rect(r),
        ) && r.top + 34 <= 0x7fff_ffff,
        g.anim is None ==> g.workable(Stage::Ticking, Reply::Now(now)),
        g.anim matches Some(anim) ==> passed(anim.start_ns, now, ms) && on_curve(sunk, 34, ms) ==> (
        g.workable(Stage::Ticking, Reply::Now(now)) <==> anim.rest.y + (if anim.opening {
            34
        } else {
            sunk
        }) <= 0x7fff_ffff),
        g.bubble is None ==> g.workable(Stage::Bobbing, Reply::Now(now)),
        g.bubble matches Some(bubble) ==> passed(bubble.start_ns, now, ms) ==> (g.workable(
            Stage::Bobbing,
            Reply::Now(now),
        ) <==> -0x8000_0000 <= bubble.base_y + bob(ms) <= 0x7fff_ffff),
{
    if let Some(anim) = g.anim {
        if passed(anim.start_ns, now, ms) && on_curve(sunk, 34, ms) {
            lemma_elapsed(anim.start_ns, now, now, 0);
            assert(elapsed(anim.start_ns, now) == ms);
            lemma_frames_in_range(anim, ms, sunk);
        }
    }
    if let Some(bubble) = g.bubble {
        if passed(bubble.start_ns, now, ms) {
            lemma_elapsed(bubble.start_ns, now, now, 0);
            assert(elapsed(bubble.start_ns, now) == ms);
        }
    }
}

proof fn lemma_after_all_concat(w: World, a: Seq<Effect>, b: Seq<Effect>)
    ensures
        w.after_all(a + b) == w.after_all(a).after_all(b),
    decreases a.len(),
{
    if a.len() == 0 {
        assert(a + b =~= b);
    } else {
        assert((a + b).drop_first() =~= a.drop_first() + b);
        lemma_after_all_concat(w.after(a[0]), a.drop_first(), b);
    }
}

/// Some effects leave the panel's place, its opacity and whether it is visible alone.
spec fn beside_the_panel(effects: Seq<Effect>) -> bool {
    forall|i: int, w: World|
        0 <= i < effects.len() ==> #[trigger] w.after(#[trigger] effects[i]) == w
}

proof fn lemma_beside_the_panel(w: World, effects: Seq<Effect>)
    requires
        beside_the_panel(effects),
    ensures
        w.after_all(effects) == w,
    decreases effects.len(),
{
    if effects.len() > 0 {
        assert(w.after(effects[0]) == w);
        let rest = effects.drop_first();
        assert forall|i: int, v: World| 0 <= i < rest.len() implies #[trigger] v.after(
            #[trigger] rest[i],
        ) == v by {
            assert(v.after(effects[i + 1]) == v);
        }
        lemma_beside_the_panel(w, rest);
    }
}

/// A panel that is shown stands 34 pixels below the place it slides in to, visible but
/// still transparent.
proof fn lemma_world_after_showing(w: World)
    requires
        w.panel_in_range(),
        w.panel.bottom + 34 <= 0x7fff_ffff,
    ensures
        w.after_all(
            up_to_date(w) + slide_in(w.panel_lowered(0)) + seq![
                Effect::StartTimer(Target::Panel, 1, 8),
            ] + to_front(w),
        ) == (World {
            panel_visible: true,
            panel_alpha: 0,
            panel: Rect {
                top: (w.panel.top + 34) as i32,
                bottom: (w.panel.bottom + 34) as i32,
                ..w.panel
            },
            ..w
        }),
{
    let timer = seq![Effect::StartTimer(Target::Panel, 1, 8)];
    let sliding = slide_in(w.panel_lowered(0));
    lemma_after_all_concat(w, up_to_date(w) + sliding + timer, to_front(w));
    lemma_after_all_concat(w, up_to_date(w) + sliding, timer);
    lemma_after_all_concat(w, up_to_date(w), sliding);
    lemma_beside_the_panel(w, up_to_date(w));
    reveal_with_fuel(World::after_all, 4);
    assert(sliding.drop_first().drop_first() =~= seq![sliding[2]]);
    assert(sliding.drop_first().drop_first().drop_first() =~= seq![]);
    let shown = w.after_all(sliding);
    lemma_beside_the_panel(shown, timer);
    lemma_beside_the_panel(shown, to_front(w));
}

proof fn lemma_world_after_last_frame(w: World, rest: Placement, low: Placement)
    ensures
        ({
            let placed = Rect {
                left: rest.x,
                top: rest.y,
                right: (rest.x + rest.width) as i32,
                bottom: (rest.y + rest.height) as i32,
            };
            &&& w.after_all(
                seq![
                    Effect::Place(Target::Panel, rest, false),
                    Effect::SetAlpha(255),
                    Effect::StopTimer(1),
                ],
            ) == (World { panel: placed, panel_alpha: 255, ..w })
            &&& w.after_all(
                seq![
                    Effect::Place(Target::Panel, low, false),
                    Effect::SetAlpha(0),
                    Effect::StopTimer(1),
                    Effect::HidePanel,
                    Effect::Place(Target::Panel, rest, true),
                ],
            ) == (World { panel: placed, panel_alpha: 0, panel_visible: false, ..w })
            &&& w.after_all(seq![Effect::StartTimer(Target::Panel, 1, 8)]) == w
        }),
{
    reveal_with_fuel(World::after_all, 6);
    let o = seq![
        Effect::Place(Target::Panel, rest, false),
        Effect::SetAlpha(255),
        Effect::StopTimer(1),
    ];
    assert(o.drop_first() =~= seq![o[1], o[2]]);
    assert(o.drop_first().drop_first() =~= seq![o[2]]);
    assert(o.drop_first().drop_first().drop_first() =~= seq![]);
    let e = seq![
        Effect::Place(Target::Panel, low, false),
        Effect::SetAlpha(0),
        Effect::StopTimer(1),
        Effect::HidePanel,
        Effect::Place(Target::Panel, rest, true),
    ];
    assert(e.drop_first() =~= seq![e[1], e[2], e[3], e[4]]);
    assert(e.drop_first().drop_first() =~= seq![e[2], e[3], e[4]]);
    assert(e.drop_first().drop_first().drop_first() =~= seq![e[3], e[4]]);
    assert(e.drop_first().drop_first().drop_first().drop_first() =~= seq![e[4]]);
    assert(e.drop_first().drop_first().drop_first().drop_first().drop_first() =~= seq![]);
    assert(seq![Effect::StartTimer(Target::Panel, 1, 8)].drop_first() =~= seq![]);
}

/// Opened and closed again, the panel is back where it was, and nothing is remembered of
/// either. A hidden panel slides in from 34 pixels below on the hot key; the first message
/// of its timer 320 milliseconds later or more leaves it visible and opaque at its place.
/// On the next hot key it starts to go, and the first message of its timer 320 milliseconds
/// later or more leaves it hidden, at its place. What lies in between may take any time.
pub proof fn lemma_open_and_close(
    w: World,
    g: Guardian,
    opened_at: u128,
    again_at: u128,
    closed_at: u128,
)
    requires
        g.panel_created,
        !w.panel_visible,
        w.panel_in_range(),
        w.panel.bottom + 34 <= 0x7fff_ffff,
        opened_at >= w.now + 320_000_000,
        closed_at >= again_at + 320_000_000,
    ensures
        ({
            let idle = Guardian { anim: None, ..g };
            let opening = respond(w, g, g.main_verdict(0x312, 1));
            let rising = w.after_all(opening.effects);
            let opened = respond(
                at(rising, opened_at),
                opening.guardian,
                opening.guardian.panel_verdict(0x113, 1),
            );
            let open = at(rising, opened_at).after_all(opened.effects);
            let closing = respond(at(open, again_at), idle, idle.main_verdict(0x312, 1));
            let sinking = at(open, again_at).after_all(closing.effects);
            let closed = respond(
                at(sinking, closed_at),
                closing.guardian,
                closing.guardian.panel_verdict(0x113, 1),
            );
            let end = at(sinking, closed_at).after_all(closed.effects);
            &&& rising.panel_visible && rising.panel_alpha == 0 && rising.panel.top
                == w.panel.top + 34
            &&& opened.guardian == idle
            &&& open == (World { panel_visible: true, panel_alpha: 255, now: opened_at, ..w })
            &&& sinking == at(open, again_at)
            &&& closed.guardian == idle
            &&& end == (World { panel_alpha: 0, now: closed_at, ..w })
        }),
{
    let idle = Guardian { anim: None, ..g };
    let rest = w.panel_lowered(0);
    let low = w.panel_lowered(34);
    lemma_hot_key_shows(w, g, 1, 0);
    lemma_world_after_showing(w);
    let opening = respond(w, g, g.main_verdict(0x312, 1));
    let rising = w.after_all(opening.effects);
    let anim = Animation { opening: true, start_ns: w.now, rest };
    lemma_elapsed(w.now, opened_at, opened_at, 0);
    lemma_timer_animates(
        at(rising, opened_at),
        opening.guardian,
        anim,
        elapsed(w.now, opened_at),
    );
    lemma_world_after_last_frame(at(rising, opened_at), rest, low);
    let open = World { panel_visible: true, panel_alpha: 255, now: opened_at, ..w };
    lemma_panel_is_hidden(at(open, again_at), idle, 1, 0, 0, 0);
    let closing = respond(at(open, again_at), idle, idle.main_verdict(0x312, 1));
    lemma_world_after_last_frame(at(open, again_at), rest, low);
    let leaving = Animation { opening: false, start_ns: again_at, rest };
    lemma_elapsed(again_at, closed_at, closed_at, 0);
    lemma_timer_animates(
        at(open, closed_at),
        closing.guardian,
        leaving,
        elapsed(again_at, closed_at),
    );
    lemma_world_after_last_frame(at(open, closed_at), rest, low);
}

} // verus!
