//! The behaviour of the three windows: the hidden main window, the panel and the
//! bubble.
//!
//! A message is first judged. If it sets off a procedure, the driver walks through its
//! stages: it asks the query of the stage, hands the reply to [`Guardian::step`],
//! performs the script that comes back, and goes on with the next stage. Other
//! messages may come in between, so all that lasts is kept in the [`Guardian`], and all
//! that belongs to one procedure in its [`Stage`].
use vstd::prelude::*;

use crate::animation::{
    elapsed, elapsed_ms, Animation, Frame, ANIM_SLIDE_OFFSET, ANIM_TIMER_INTERVAL_MS,
};
use crate::bubble::{Bubble, BUBBLE_TIMER_INTERVAL_MS};
use crate::controls::{
    Program, ID_BTN_CHROME, ID_BTN_RESTART, ID_BTN_SPOTIFY, ID_STATIC_BATTERY, ID_TRACKBAR_VOL,
};
use crate::geometry::{
    bubble_place, bubble_placement, desktop_has_bubble_corner, desktop_has_panel_corner, fits,
    has_bubble_corner, has_panel_corner, panel_place, panel_placement, Placement, BUBBLE_SIZE,
    PANEL_HEIGHT, PANEL_WIDTH,
};
use crate::messages::{
    is_hotkey, low_word, ANIM_TIMER_ID, BUBBLE_TIMER_ID, HOTKEY_ID, WM_ACTIVATE, WM_CLOSE,
    WM_COMMAND, WM_DESTROY, WM_HOTKEY, WM_HSCROLL, WM_LBUTTONUP, WM_TIMER,
};
use crate::protocol::{Effect, Query, Reply, Target};

verus! {

/// All that the program remembers from one message to the next.
#[derive(Clone, Copy, PartialEq, Eq, Structural, Debug)]
pub struct Guardian {
    /// The main window exists.
    pub main_ready: bool,
    /// The panel has been created. It is never destroyed, only hidden.
    pub panel_created: bool,
    /// The animation of the panel that is under way.
    pub anim: Option<Animation>,
    /// The bubble has a bitmap.
    pub bitmap: bool,
    /// The bubble, once it is on the screen.
    pub bubble: Option<Bubble>,
}

/// What comes after the contents of the panel have been refreshed.
#[derive(Clone, Copy, PartialEq, Eq, Structural, Debug)]
pub enum After {
    /// Show the panel where it is.
    ShowInPlace,
    /// Show the panel at this place.
    ShowAt(Placement),
}

/// Where a procedure stands: what it waits for.
#[derive(Clone, Copy, PartialEq, Eq, Structural, Debug)]
pub enum Stage {
    Done,
    /// Toggling: whether the panel is visible.
    Toggling,
    /// Toggling: the panel window.
    Creating,
    /// Toggling: the desktop, to place the new panel on.
    Placing,
    /// Toggling: the controls of the new panel.
    Building(Placement),
    /// Refreshing: the trackbar.
    FindingTrackbar(After),
    /// Refreshing: the volume.
    ReadingVolume(After),
    /// Refreshing: the battery label.
    FindingLabel(After),
    /// Refreshing: the power status.
    ReadingPower(After),
    /// Showing: the place of the panel.
    ShowingWhere,
    /// Showing: the time.
    ShowingWhen(Placement),
    /// Showing: the threads, to bring the panel to the front.
    Fronting,
    /// The panel was deactivated: whether it is visible.
    Deactivating,
    /// Hiding: the place of the panel.
    HidingWhere,
    /// Hiding: the time.
    HidingWhen(Placement),
    /// Scrolling: the position of the trackbar.
    Scrolling,
    /// Animating: the time.
    Ticking,
    /// Animating: the last frame has been shown.
    Ending,
    /// Bobbing: the time.
    Bobbing,
    /// Making the bubble: the desktop.
    BubbleWhere,
    /// Making the bubble: the window.
    BubbleWindow(Placement),
    /// Making the bubble: the bitmap.
    BubbleBitmap(Placement),
    /// Making the bubble: the time.
    BubbleWhen(Placement),
}

/// What is to be done about a message.
#[derive(Clone, Copy, PartialEq, Eq, Structural, Debug)]
pub enum Verdict {
    /// The system's own treatment.
    Default,
    /// Nothing more.
    Handled,
    /// One effect.
    Perform(Effect),
    /// The procedure that starts at this stage.
    Enter(Stage),
}

/// The question that goes with a stage.
pub open spec fn query_of(stage: Stage) -> Query {
    match stage {
        Stage::Done => Query::Nothing,
        Stage::Toggling | Stage::Deactivating => Query::PanelVisible,
        Stage::Creating => Query::CreatePanel(PANEL_WIDTH, PANEL_HEIGHT),
        Stage::Placing | Stage::BubbleWhere => Query::DesktopRect,
        Stage::Building(_) | Stage::Ending => Query::Proceed,
        Stage::FindingTrackbar(_) => Query::FindControl(ID_TRACKBAR_VOL),
        Stage::ReadingVolume(_) => Query::Volume,
        Stage::FindingLabel(_) => Query::FindControl(ID_STATIC_BATTERY),
        Stage::ReadingPower(_) => Query::Power,
        Stage::ShowingWhere | Stage::HidingWhere => Query::PanelRect,
        Stage::ShowingWhen(_) | Stage::HidingWhen(_) | Stage::Ticking | Stage::Bobbing
        | Stage::BubbleWhen(_) => Query::Clock,
        Stage::Fronting => Query::Threads,
        Stage::Scrolling => Query::TrackbarPosition,
        Stage::BubbleWindow(p) => Query::CreateBubble(p),
        Stage::BubbleBitmap(_) => Query::LoadBitmap(BUBBLE_SIZE),
    }
}

/// The question that goes with a stage.
pub fn ask(stage: Stage) -> (query: Query)
    ensures
        query == query_of(stage),
{
    match stage {
        Stage::Done => Query::Nothing,
        Stage::Toggling | Stage::Deactivating => Query::PanelVisible,
        Stage::Creating => Query::CreatePanel(PANEL_WIDTH, PANEL_HEIGHT),
        Stage::Placing | Stage::BubbleWhere => Query::DesktopRect,
        Stage::Building(_) | Stage::Ending => Query::Proceed,
        Stage::FindingTrackbar(_) => Query::FindControl(ID_TRACKBAR_VOL),
        Stage::ReadingVolume(_) => Query::Volume,
        Stage::FindingLabel(_) => Query::FindControl(ID_STATIC_BATTERY),
        Stage::ReadingPower(_) => Query::Power,
        Stage::ShowingWhere | Stage::HidingWhere => Query::PanelRect,
        Stage::ShowingWhen(_) | Stage::HidingWhen(_) | Stage::Ticking | Stage::Bobbing
        | Stage::BubbleWhen(_) => Query::Clock,
        Stage::Fronting => Query::Threads,
        Stage::Scrolling => Query::TrackbarPosition,
        Stage::BubbleWindow(p) => Query::CreateBubble(p),
        Stage::BubbleBitmap(_) => Query::LoadBitmap(BUBBLE_SIZE),
    }
}

/// The reply answers the question.
pub open spec fn answers(query: Query, reply: Reply) -> bool {
    match query {
        Query::Nothing => false,
        Query::Proceed => reply is Proceed,
        Query::PanelVisible => reply is Visible,
        Query::PanelRect | Query::DesktopRect => reply is Rect,
        Query::CreatePanel(_, _) | Query::CreateBubble(_) | Query::LoadBitmap(_) => reply is Made,
        Query::FindControl(_) => reply is Found,
        Query::Volume => reply is Volume,
        Query::Power => reply is Power,
        Query::Threads => reply is Threads,
        Query::TrackbarPosition => reply is Position,
        Query::Clock => reply is Now,
    }
}

/// A place one slide below another.
pub open spec fn lowered(p: Placement) -> Placement {
    Placement { y: (p.y + ANIM_SLIDE_OFFSET) as i32, ..p }
}

/// How the panel is made ready to slide in to a place: invisible, one slide below it.
pub open spec fn show_script(p: Placement) -> Seq<Effect> {
    seq![
        Effect::Place(Target::Panel, lowered(p), false),
        Effect::SetAlpha(0),
        Effect::Show(Target::Panel),
    ]
}

/// The stage after a refresh.
pub open spec fn after_stage(after: After) -> Stage {
    match after {
        After::ShowInPlace => Stage::ShowingWhere,
        After::ShowAt(p) => Stage::ShowingWhen(p),
    }
}

/// What follows a refresh at once.
pub open spec fn after_script(after: After) -> Seq<Effect> {
    match after {
        After::ShowInPlace => seq![],
        After::ShowAt(p) => show_script(p),
    }
}

/// How one frame of an animation is put on the screen. A panel that has gone is
/// hidden and put back to its resting place.
pub open spec fn tick_script(anim: Animation, ms: int) -> Seq<Effect> {
    let frame = anim.frame_at(ms);
    seq![
        Effect::Place(Target::Panel, Placement { y: frame.y, ..anim.rest }, false),
        Effect::SetAlpha(frame.alpha),
    ] + (if !frame.finished {
        seq![]
    } else if anim.opening {
        seq![Effect::StopTimer(ANIM_TIMER_ID)]
    } else {
        seq![
            Effect::StopTimer(ANIM_TIMER_ID),
            Effect::HidePanel,
            Effect::Place(Target::Panel, anim.rest, true),
        ]
    })
}

/// How the panel is brought to the front. While another thread owns the foreground,
/// its input state is shared for as long as it takes.
pub open spec fn front_script(foreground: u32, own: u32) -> Seq<Effect> {
    if foreground != own {
        seq![
            Effect::AttachInput(own, foreground),
            Effect::BringPanelToFront,
            Effect::DetachInput(own, foreground),
        ]
    } else {
        seq![Effect::BringPanelToFront]
    }
}

/// The coordinates that a stage carries can be lowered by one slide.
pub open spec fn stage_sound(stage: Stage) -> bool {
    match stage {
        Stage::Building(p)
        | Stage::FindingTrackbar(After::ShowAt(p))
        | Stage::ReadingVolume(After::ShowAt(p))
        | Stage::FindingLabel(After::ShowAt(p))
        | Stage::ReadingPower(After::ShowAt(p)) => fits(p.y + ANIM_SLIDE_OFFSET),
        _ => true,
    }
}

impl Guardian {
    /// Before the first window exists.
    pub fn new() -> (g: Guardian)
        ensures
            g == (Guardian {
                main_ready: false,
                panel_created: false,
                anim: None,
                bitmap: false,
                bubble: None,
            }),
    {
        Guardian {
            main_ready: false,
            panel_created: false,
            anim: None,
            bitmap: false,
            bubble: None,
        }
    }

    /// The reply can be worked with: the coordinates and times in it stay in range, and
    /// the panel, without which nothing can go on, was made.
    pub open spec fn workable(self, stage: Stage, reply: Reply) -> bool {
        &&& stage_sound(stage)
        &&& match (stage, reply) {
            (Stage::Creating, Reply::Made(made)) => made,
            (Stage::Placing, Reply::Rect(r)) => has_panel_corner(r),
            (Stage::ShowingWhere, Reply::Rect(r)) => r.measurable() && fits(
                r.top + ANIM_SLIDE_OFFSET,
            ),
            (Stage::HidingWhere, Reply::Rect(r)) => r.measurable(),
            (Stage::Ticking, Reply::Now(now)) => self.anim matches Some(anim)
                ==> anim.has_frame_at(elapsed(anim.start_ns, now)),
            (Stage::Bobbing, Reply::Now(now)) => self.bubble matches Some(bubble)
                ==> bubble.can_bob(elapsed(bubble.start_ns, now)),
            (Stage::BubbleWhere, Reply::Rect(r)) => has_bubble_corner(r),
            _ => true,
        }
    }

    /// The stage after a reply. A reply that does not answer the question is passed
    /// over.
    pub open spec fn next(self, stage: Stage, reply: Reply) -> Stage {
        match (stage, reply) {
            (Stage::Toggling, Reply::Visible(visible)) => if visible {
                Stage::HidingWhere
            } else {
                Stage::FindingTrackbar(After::ShowInPlace)
            },
            (Stage::Creating, Reply::Made(_)) => Stage::Placing,
            (Stage::Placing, Reply::Rect(r)) => Stage::Building(panel_place(r)),
            (Stage::Building(p), Reply::Proceed) => Stage::FindingTrackbar(After::ShowAt(p)),
            (Stage::FindingTrackbar(after), Reply::Found(found)) => if found {
                Stage::ReadingVolume(after)
            } else {
                Stage::FindingLabel(after)
            },
            (Stage::ReadingVolume(after), Reply::Volume(_)) => Stage::FindingLabel(after),
            (Stage::FindingLabel(after), Reply::Found(found)) => if found {
                Stage::ReadingPower(after)
            } else {
                after_stage(after)
            },
            (Stage::ReadingPower(after), Reply::Power(_)) => after_stage(after),
            (Stage::ShowingWhere, Reply::Rect(r)) => Stage::ShowingWhen(r.placed()),
            (Stage::ShowingWhen(_), Reply::Now(_)) => Stage::Fronting,
            (Stage::Fronting, Reply::Threads(_, _)) => Stage::Done,
            (Stage::Deactivating, Reply::Visible(visible)) => if visible {
                Stage::HidingWhere
            } else {
                Stage::Done
            },
            (Stage::HidingWhere, Reply::Rect(r)) => Stage::HidingWhen(r.placed()),
            (Stage::HidingWhen(_), Reply::Now(_)) => Stage::Done,
            (Stage::Scrolling, Reply::Position(_)) => Stage::Done,
            (Stage::Ticking, Reply::Now(now)) => match self.anim {
                Some(anim) if anim.frame_at(elapsed(anim.start_ns, now)).finished => Stage::Ending,
                _ => Stage::Done,
            },
            (Stage::Ending, Reply::Proceed) => Stage::Done,
            (Stage::Bobbing, Reply::Now(_)) => Stage::Done,
            (Stage::BubbleWhere, Reply::Rect(r)) => Stage::BubbleWindow(bubble_place(r)),
            (Stage::BubbleWindow(p), Reply::Made(made)) => if made {
                Stage::BubbleBitmap(p)
            } else {
                Stage::Done
            },
            (Stage::BubbleBitmap(p), Reply::Made(_)) => Stage::BubbleWhen(p),
            (Stage::BubbleWhen(_), Reply::Now(_)) => Stage::Done,
            _ => stage,
        }
    }

    /// What is remembered after a reply.
    pub open spec fn updated(self, stage: Stage, reply: Reply) -> Guardian {
        match (stage, reply) {
            (Stage::Building(_), Reply::Proceed) => Guardian { panel_created: true, ..self },
            (Stage::ShowingWhen(p), Reply::Now(now)) => Guardian {
                anim: Some(Animation { opening: true, start_ns: now, rest: p }),
                ..self
            },
            (Stage::HidingWhen(p), Reply::Now(now)) => Guardian {
                anim: Some(Animation { opening: false, start_ns: now, rest: p }),
                ..self
            },
            (Stage::Ending, Reply::Proceed) => Guardian { anim: None, ..self },
            (Stage::BubbleBitmap(_), Reply::Made(made)) => Guardian { bitmap: made, ..self },
            (Stage::BubbleWhen(p), Reply::Now(now)) => Guardian {
                bubble: Some(Bubble { base_x: p.x, base_y: p.y, start_ns: now }),
                ..self
            },
            _ => self,
        }
    }

    /// What is done between a reply and the next question, in order.
    pub open spec fn script(self, stage: Stage, reply: Reply) -> Seq<Effect> {
        match (stage, reply) {
            (Stage::Placing, Reply::Rect(_)) => seq![Effect::CreateControls, Effect::UpdatePanel],
            (Stage::ReadingVolume(_), Reply::Volume(Some(position))) => seq![
                Effect::SetTrackbar(position),
            ],
            (Stage::FindingLabel(after), Reply::Found(false)) => after_script(after),
            (Stage::ReadingPower(after), Reply::Power(status)) => seq![Effect::SetBattery(status)]
                + after_script(after),
            (Stage::ShowingWhere, Reply::Rect(r)) => show_script(r.placed()),
            (Stage::ShowingWhen(_), Reply::Now(_)) | (Stage::HidingWhen(_), Reply::Now(_)) => seq![
                Effect::StartTimer(Target::Panel, ANIM_TIMER_ID, ANIM_TIMER_INTERVAL_MS),
            ],
            (Stage::Fronting, Reply::Threads(foreground, own)) => front_script(foreground, own),
            (Stage::Scrolling, Reply::Position(position)) => seq![Effect::SetVolume(position)],
            (Stage::Ticking, Reply::Now(now)) => match self.anim {
                Some(anim) => tick_script(anim, elapsed(anim.start_ns, now)),
                None => seq![],
            },
            (Stage::Bobbing, Reply::Now(now)) => match self.bubble {
                Some(bubble) => seq![
                    Effect::Place(
                        Target::Bubble,
                        bubble.place_at(elapsed(bubble.start_ns, now)),
                        false,
                    ),
                ],
                None => seq![],
            },
            (Stage::BubbleBitmap(p), Reply::Made(made)) => (if made {
                seq![Effect::PaintBubble(p)]
            } else {
                seq![]
            }) + seq![Effect::Show(Target::Bubble), Effect::Place(Target::Bubble, p, false)],
            (Stage::BubbleWhen(_), Reply::Now(_)) => seq![
                Effect::StartTimer(Target::Bubble, BUBBLE_TIMER_ID, BUBBLE_TIMER_INTERVAL_MS),
            ],
            _ => seq![],
        }
    }

    /// Whether the reply can be worked with.
    pub fn can_work(&self, stage: Stage, reply: Reply) -> (b: bool)
        ensures
            b == self.workable(stage, reply),
    {
        let sound: bool = match stage {
            Stage::Building(p)
            | Stage::FindingTrackbar(After::ShowAt(p))
            | Stage::ReadingVolume(After::ShowAt(p))
            | Stage::FindingLabel(After::ShowAt(p))
            | Stage::ReadingPower(After::ShowAt(p)) => p.y <= i32::MAX - ANIM_SLIDE_OFFSET,
            _ => true,
        };
        let in_range: bool = match (stage, reply) {
            (Stage::Creating, Reply::Made(made)) => made,
            (Stage::Placing, Reply::Rect(r)) => desktop_has_panel_corner(&r),
            (Stage::ShowingWhere, Reply::Rect(r)) => r.is_measurable() && r.top <= i32::MAX
                - ANIM_SLIDE_OFFSET,
            (Stage::HidingWhere, Reply::Rect(r)) => r.is_measurable(),
            (Stage::Ticking, Reply::Now(now)) => match self.anim {
                Some(anim) => anim.can_show(elapsed_ms(anim.start_ns, now)),
                None => true,
            },
            (Stage::Bobbing, Reply::Now(now)) => match self.bubble {
                Some(bubble) => bubble.has_place(elapsed_ms(bubble.start_ns, now)),
                None => true,
            },
            (Stage::BubbleWhere, Reply::Rect(r)) => desktop_has_bubble_corner(&r),
            _ => true,
        };
        sound && in_range
    }

    /// Takes a procedure one reply further: the new stage, and what to do before its
    /// question is asked.
    pub fn step(&mut self, stage: Stage, reply: Reply) -> (step: (Stage, Vec<Effect>))
        requires
            old(self).workable(stage, reply),
        ensures
            step.0 == old(self).next(stage, reply),
            step.1@ == old(self).script(stage, reply),
            *final(self) == old(self).updated(stage, reply),
    {
        let mut script: Vec<Effect> = Vec::new();
        let next: Stage = match (stage, reply) {
            (Stage::Toggling, Reply::Visible(visible)) => if visible {
                Stage::HidingWhere
            } else {
                Stage::FindingTrackbar(After::ShowInPlace)
            },
            (Stage::Creating, Reply::Made(_)) => Stage::Placing,
            (Stage::Placing, Reply::Rect(desktop)) => {
                script.push(Effect::CreateControls);
                script.push(Effect::UpdatePanel);
                Stage::Building(panel_placement(&desktop))
            },
            (Stage::Building(p), Reply::Proceed) => {
                self.panel_created = true;
                Stage::FindingTrackbar(After::ShowAt(p))
            },
            (Stage::FindingTrackbar(after), Reply::Found(found)) => if found {
                Stage::ReadingVolume(after)
            } else {
                Stage::FindingLabel(after)
            },
            (Stage::ReadingVolume(after), Reply::Volume(volume)) => {
                if let Some(position) = volume {
                    script.push(Effect::SetTrackbar(position));
                }
                Stage::FindingLabel(after)
            },
            (Stage::FindingLabel(after), Reply::Found(found)) => if found {
                Stage::ReadingPower(after)
            } else {
                push_after(&mut script, after)
            },
            (Stage::ReadingPower(after), Reply::Power(status)) => {
                script.push(Effect::SetBattery(status));
                push_after(&mut script, after)
            },
            (Stage::ShowingWhere, Reply::Rect(r)) => {
                let p: Placement = r.placement();
                push_show(&mut script, p);
                Stage::ShowingWhen(p)
            },
            (Stage::ShowingWhen(p), Reply::Now(now)) => {
                self.anim = Some(Animation { opening: true, start_ns: now, rest: p });
                script.push(
                    Effect::StartTimer(Target::Panel, ANIM_TIMER_ID, ANIM_TIMER_INTERVAL_MS),
                );
                Stage::Fronting
            },
            (Stage::Fronting, Reply::Threads(foreground, own)) => {
                if foreground != own {
                    script.push(Effect::AttachInput(own, foreground));
                    script.push(Effect::BringPanelToFront);
                    script.push(Effect::DetachInput(own, foreground));
                } else {
                    script.push(Effect::BringPanelToFront);
                }
                Stage::Done
            },
            (Stage::Deactivating, Reply::Visible(visible)) => if visible {
                Stage::HidingWhere
            } else {
                Stage::Done
            },
            (Stage::HidingWhere, Reply::Rect(r)) => Stage::HidingWhen(r.placement()),
            (Stage::HidingWhen(p), Reply::Now(now)) => {
                self.anim = Some(Animation { opening: false, start_ns: now, rest: p });
                script.push(
                    Effect::StartTimer(Target::Panel, ANIM_TIMER_ID, ANIM_TIMER_INTERVAL_MS),
                );
                Stage::Done
            },
            (Stage::Scrolling, Reply::Position(position)) => {
                script.push(Effect::SetVolume(position));
                Stage::Done
            },
            (Stage::Ticking, Reply::Now(now)) => match self.anim {
                Some(anim) => push_tick(&mut script, &anim, elapsed_ms(anim.start_ns, now)),
                None => Stage::Done,
            },
            (Stage::Ending, Reply::Proceed) => {
                self.anim = None;
                Stage::Done
            },
            (Stage::Bobbing, Reply::Now(now)) => {
                if let Some(bubble) = self.bubble {
                    let p: Placement = bubble.place(elapsed_ms(bubble.start_ns, now));
                    script.push(Effect::Place(Target::Bubble, p, false));
                }
                Stage::Done
            },
            (Stage::BubbleWhere, Reply::Rect(desktop)) => Stage::BubbleWindow(
                bubble_placement(&desktop),
            ),
            (Stage::BubbleWindow(p), Reply::Made(made)) => if made {
                Stage::BubbleBitmap(p)
            } else {
                Stage::Done
            },
            (Stage::BubbleBitmap(p), Reply::Made(made)) => {
                self.bitmap = made;
                if made {
                    script.push(Effect::PaintBubble(p));
                }
                script.push(Effect::Show(Target::Bubble));
                script.push(Effect::Place(Target::Bubble, p, false));
                Stage::BubbleWhen(p)
            },
            (Stage::BubbleWhen(p), Reply::Now(now)) => {
                self.bubble = Some(Bubble { base_x: p.x, base_y: p.y, start_ns: now });
                script.push(
                    Effect::StartTimer(Target::Bubble, BUBBLE_TIMER_ID, BUBBLE_TIMER_INTERVAL_MS),
                );
                Stage::Done
            },
            _ => stage,
        };
        proof {
            assert(script@ =~= old(self).script(stage, reply));
        }
        (next, script)
    }
}

/// What a button of the panel does.
pub open spec fn command_effect(id: int) -> Option<Effect> {
    if id == ID_BTN_RESTART {
        Some(Effect::RestartTray)
    } else if id == ID_BTN_CHROME {
        Some(Effect::Launch(Program::Chrome))
    } else if id == ID_BTN_SPOTIFY {
        Some(Effect::Launch(Program::Spotify))
    } else {
        None
    }
}

impl Guardian {
    /// Where toggling the panel starts: the first time with making it.
    pub open spec fn toggle_stage(self) -> Stage {
        if self.panel_created {
            Stage::Toggling
        } else {
            Stage::Creating
        }
    }

    /// Where toggling the panel starts: the first time with making it.
    pub fn toggle_panel(&self) -> (stage: Stage)
        ensures
            stage == self.toggle_stage(),
    {
        if self.panel_created {
            Stage::Toggling
        } else {
            Stage::Creating
        }
    }

    /// What is done about a message to the main window.
    pub open spec fn main_verdict(self, msg: u32, wparam: usize) -> Verdict {
        if msg == WM_HOTKEY {
            if wparam as int % 0x1_0000_0000 == HOTKEY_ID {
                Verdict::Enter(self.toggle_stage())
            } else {
                Verdict::Handled
            }
        } else if msg == WM_DESTROY {
            Verdict::Perform(Effect::Quit)
        } else {
            Verdict::Default
        }
    }

    /// Judges a message to the main window: the hot key toggles the panel.
    pub fn main_wndproc(&self, msg: u32, wparam: usize) -> (v: Verdict)
        ensures
            v == self.main_verdict(msg, wparam),
    {
        if msg == WM_HOTKEY {
            if is_hotkey(wparam) {
                Verdict::Enter(self.toggle_panel())
            } else {
                Verdict::Handled
            }
        } else if msg == WM_DESTROY {
            Verdict::Perform(Effect::Quit)
        } else {
            Verdict::Default
        }
    }

    /// What is done about a message to the panel.
    pub open spec fn panel_verdict(self, msg: u32, wparam: usize) -> Verdict {
        if msg == WM_COMMAND {
            match command_effect(wparam as int % 0x10000) {
                Some(effect) => Verdict::Perform(effect),
                None => Verdict::Handled,
            }
        } else if msg == WM_HSCROLL {
            Verdict::Enter(Stage::Scrolling)
        } else if msg == WM_ACTIVATE {
            if wparam as int % 0x10000 == 0 {
                Verdict::Enter(Stage::Deactivating)
            } else {
                Verdict::Handled
            }
        } else if msg == WM_TIMER {
            if wparam == ANIM_TIMER_ID && self.anim is Some {
                Verdict::Enter(Stage::Ticking)
            } else {
                Verdict::Handled
            }
        } else if msg == WM_CLOSE {
            Verdict::Enter(Stage::HidingWhere)
        } else {
            Verdict::Default
        }
    }

    /// Judges a message to the panel: its buttons, its trackbar, its animation timer;
    /// losing the focus and closing hide it.
    pub fn panel_wndproc(&self, msg: u32, wparam: usize) -> (v: Verdict)
        ensures
            v == self.panel_verdict(msg, wparam),
    {
        if msg == WM_COMMAND {
            let id: usize = low_word(wparam);
            if id == ID_BTN_RESTART {
                Verdict::Perform(Effect::RestartTray)
            } else if id == ID_BTN_CHROME {
                Verdict::Perform(Effect::Launch(Program::Chrome))
            } else if id == ID_BTN_SPOTIFY {
                Verdict::Perform(Effect::Launch(Program::Spotify))
            } else {
                Verdict::Handled
            }
        } else if msg == WM_HSCROLL {
            Verdict::Enter(Stage::Scrolling)
        } else if msg == WM_ACTIVATE {
            if low_word(wparam) == 0 {
                Verdict::Enter(Stage::Deactivating)
            } else {
                Verdict::Handled
            }
        } else if msg == WM_TIMER {
            if wparam == ANIM_TIMER_ID && self.anim.is_some() {
                Verdict::Enter(Stage::Ticking)
            } else {
                Verdict::Handled
            }
        } else if msg == WM_CLOSE {
            Verdict::Enter(Stage::HidingWhere)
        } else {
            Verdict::Default
        }
    }

    /// What is done about a message to the bubble.
    pub open spec fn bubble_verdict(self, msg: u32, wparam: usize) -> Verdict {
        if msg == WM_LBUTTONUP {
            if self.main_ready {
                Verdict::Enter(self.toggle_stage())
            } else {
                Verdict::Handled
            }
        } else if msg == WM_TIMER {
            if wparam == BUBBLE_TIMER_ID && self.bubble is Some {
                Verdict::Enter(Stage::Bobbing)
            } else {
                Verdict::Handled
            }
        } else if msg == WM_DESTROY {
            if self.bitmap {
                Verdict::Perform(Effect::DeleteBitmap)
            } else {
                Verdict::Handled
            }
        } else {
            Verdict::Default
        }
    }

    /// What is remembered after a message to the bubble: a bitmap that is deleted is
    /// forgotten.
    pub open spec fn after_bubble_message(self, msg: u32) -> Guardian {
        if msg == WM_DESTROY {
            Guardian { bitmap: false, ..self }
        } else {
            self
        }
    }

    /// Judges a message to the bubble: a click toggles the panel, its timer makes it
    /// bob, and its end takes the bitmap with it.
    pub fn bubble_wndproc(&mut self, msg: u32, wparam: usize) -> (v: Verdict)
        ensures
            v == old(self).bubble_verdict(msg, wparam),
            *final(self) == old(self).after_bubble_message(msg),
    {
        if msg == WM_LBUTTONUP {
            if self.main_ready {
                Verdict::Enter(self.toggle_panel())
            } else {
                Verdict::Handled
            }
        } else if msg == WM_TIMER {
            if wparam == BUBBLE_TIMER_ID && self.bubble.is_some() {
                Verdict::Enter(Stage::Bobbing)
            } else {
                Verdict::Handled
            }
        } else if msg == WM_DESTROY {
            let had_bitmap: bool = self.bitmap;
            self.bitmap = false;
            if had_bitmap {
                Verdict::Perform(Effect::DeleteBitmap)
            } else {
                Verdict::Handled
            }
        } else {
            Verdict::Default
        }
    }

    /// Notes that the main window exists.
    pub fn main_created(&mut self)
        ensures
            *final(self) == (Guardian { main_ready: true, ..*old(self) }),
    {
        self.main_ready = true;
    }
}

fn push_show(script: &mut Vec<Effect>, p: Placement)
    requires
        fits(p.y + ANIM_SLIDE_OFFSET),
    ensures
        final(script)@ == old(script)@ + show_script(p),
{
    let start: Placement = Placement {
        x: p.x,
        y: p.y + ANIM_SLIDE_OFFSET,
        width: p.width,
        height: p.height,
    };
    script.push(Effect::Place(Target::Panel, start, false));
    script.push(Effect::SetAlpha(0));
    script.push(Effect::Show(Target::Panel));
    proof {
        assert(script@ =~= old(script)@ + show_script(p));
    }
}

fn push_after(script: &mut Vec<Effect>, after: After) -> (next: Stage)
    requires
        after matches After::ShowAt(p) ==> fits(p.y + ANIM_SLIDE_OFFSET),
    ensures
        next == after_stage(after),
        final(script)@ == old(script)@ + after_script(after),
{
    match after {
        After::ShowInPlace => {
            proof {
                assert(script@ =~= script@ + after_script(after));
            }
            Stage::ShowingWhere
        },
        After::ShowAt(p) => {
            push_show(script, p);
            Stage::ShowingWhen(p)
        },
    }
}

fn push_tick(script: &mut Vec<Effect>, anim: &Animation, ms: u128) -> (next: Stage)
    requires
        anim.has_frame_at(ms as int),
    ensures
        next == (if anim.frame_at(ms as int).finished {
            Stage::Ending
        } else {
            Stage::Done
        }),
        final(script)@ == old(script)@ + tick_script(*anim, ms as int),
{
    let frame: Frame = anim.frame(ms);
    let rest: Placement = anim.rest;
    let p: Placement = Placement { x: rest.x, y: frame.y, width: rest.width, height: rest.height };
    script.push(Effect::Place(Target::Panel, p, false));
    script.push(Effect::SetAlpha(frame.alpha));
    if frame.finished {
        script.push(Effect::StopTimer(ANIM_TIMER_ID));
        if !anim.opening {
            script.push(Effect::HidePanel);
            script.push(Effect::Place(Target::Panel, rest, true));
        }
    }
    proof {
        assert(script@ =~= old(script)@ + tick_script(*anim, ms as int));
    }
    if frame.finished {
        Stage::Ending
    } else {
        Stage::Done
    }
}

} // verus!
