//! What whole procedures come to, and what holds of every step of every procedure.
use vstd::prelude::*;

use crate::animation::{
    elapsed, lemma_closing, lemma_opening, Animation, ANIM_DURATION_MS, ANIM_SLIDE_OFFSET,
    ANIM_TIMER_INTERVAL_MS,
};
use crate::bubble::{lemma_bob_is_bounded, Bubble, BUBBLE_BOB_AMPLITUDE, BUBBLE_TIMER_INTERVAL_MS};
use crate::geometry::{bubble_place, fits, panel_place, Placement, Rect, BUBBLE_SIZE};
use crate::guardian::{
    after_script, after_stage, answers, front_script, lowered, query_of, show_script, stage_sound,
    After, Guardian, Stage, Verdict,
};
use crate::messages::{
    ANIM_TIMER_ID, BUBBLE_TIMER_ID, HOTKEY_ID, WM_ACTIVATE, WM_CLOSE, WM_COMMAND, WM_DESTROY,
    WM_HOTKEY, WM_HSCROLL, WM_LBUTTONUP, WM_TIMER,
};
use crate::protocol::{Effect, Reply, Target};
use crate::text::PowerStatus;

verus! {

/// The outcome of a procedure that is given some replies in turn.
pub struct Outcome {
    pub guardian: Guardian,
    pub stage: Stage,
    /// Everything that was done, in order.
    pub effects: Seq<Effect>,
}

/// Runs a procedure from a stage on.
pub open spec fn run(guardian: Guardian, stage: Stage, replies: Seq<Reply>) -> Outcome
    decreases replies.len(),
{
    if replies.len() == 0 {
        Outcome { guardian, stage, effects: seq![] }
    } else {
        let rest = run(
            guardian.updated(stage, replies[0]),
            guardian.next(stage, replies[0]),
            replies.drop_first(),
        );
        Outcome { effects: guardian.script(stage, replies[0]) + rest.effects, ..rest }
    }
}

/// How many replies a procedure still needs at most.
pub open spec fn replies_left(stage: Stage) -> nat {
    match stage {
        Stage::Done => 0,
        Stage::Fronting | Stage::HidingWhen(_) | Stage::Scrolling | Stage::Ending | Stage::Bobbing
        | Stage::BubbleWhen(_) => 1,
        Stage::ShowingWhen(_) | Stage::HidingWhere | Stage::Ticking | Stage::BubbleBitmap(_) => 2,
        Stage::ShowingWhere | Stage::Deactivating | Stage::BubbleWindow(_) => 3,
        Stage::ReadingPower(_) | Stage::BubbleWhere => 4,
        Stage::FindingLabel(_) => 5,
        Stage::ReadingVolume(_) => 6,
        Stage::FindingTrackbar(_) => 7,
        Stage::Building(_) | Stage::Toggling => 8,
        Stage::Placing => 9,
        Stage::Creating => 10,
    }
}

/// Every procedure ends: a reply that answers the question brings the end nearer.
/// Any other reply changes nothing.
pub proof fn lemma_procedures_end(guardian: Guardian, stage: Stage, reply: Reply)
    ensures
        answers(query_of(stage), reply) ==> replies_left(guardian.next(stage, reply))
            < replies_left(stage),
        !answers(query_of(stage), reply) ==> {
            &&& guardian.next(stage, reply) == stage
            &&& guardian.updated(stage, reply) == guardian
            &&& guardian.script(stage, reply) == Seq::<Effect>::empty()
        },
{
}

/// The coordinates that a stage carries stay in range from step to step.
pub proof fn lemma_stages_stay_sound(guardian: Guardian, stage: Stage, reply: Reply)
    requires
        guardian.workable(stage, reply),
    ensures
        stage_sound(guardian.next(stage, reply)),
{
}

/// The panel is made at most once: once it exists it is never forgotten, toggling no
/// longer starts with making it, and no other procedure leads there.
pub proof fn lemma_panel_is_made_once(guardian: Guardian, stage: Stage, reply: Reply)
    requires
        guardian.panel_created,
    ensures
        guardian.updated(stage, reply).panel_created,
        guardian.toggle_stage() != Stage::Creating,
        stage != Stage::Creating ==> guardian.next(stage, reply) != Stage::Creating,
{
}

/// What a refresh of the panel does, given which controls it finds and what the system
/// reports.
pub open spec fn refresh_effects(
    trackbar: bool,
    volume: Option<isize>,
    label: bool,
    power: Option<PowerStatus>,
) -> Seq<Effect> {
    (match volume {
        Some(position) if trackbar => seq![Effect::SetTrackbar(position)],
        _ => seq![],
    }) + (if label {
        seq![Effect::SetBattery(power)]
    } else {
        seq![]
    })
}

/// The replies that a refresh of the panel is given.
pub open spec fn refresh_replies(
    trackbar: bool,
    volume: Option<isize>,
    label: bool,
    power: Option<PowerStatus>,
) -> Seq<Reply> {
    (if trackbar {
        seq![Reply::Found(true), Reply::Volume(volume)]
    } else {
        seq![Reply::Found(false)]
    }) + (if label {
        seq![Reply::Found(true), Reply::Power(power)]
    } else {
        seq![Reply::Found(false)]
    })
}

/// The effect that starts the animation timer of the panel.
pub open spec fn start_anim_timer() -> Effect {
    Effect::StartTimer(Target::Panel, ANIM_TIMER_ID, ANIM_TIMER_INTERVAL_MS)
}

/// Toggling a visible panel starts to hide it where it is, and does nothing else.
pub proof fn lemma_toggle_hides(guardian: Guardian, r: Rect, now: u128)
    requires
        guardian.panel_created,
    ensures
        run(
            guardian,
            guardian.toggle_stage(),
            seq![Reply::Visible(true), Reply::Rect(r), Reply::Now(now)],
        ) == (Outcome {
            guardian: Guardian {
                anim: Some(Animation { opening: false, start_ns: now, rest: r.placed() }),
                ..guardian
            },
            stage: Stage::Done,
            effects: seq![start_anim_timer()],
        }),
{
    let replies = seq![Reply::Visible(true), Reply::Rect(r), Reply::Now(now)];
    reveal_with_fuel(run, 4);
    let end = run(guardian, guardian.toggle_stage(), replies);
    assert(end.effects =~= seq![start_anim_timer()]);
}

/// A run over two lots of replies is the one run after the other.
proof fn lemma_run_concat(guardian: Guardian, stage: Stage, first: Seq<Reply>, second: Seq<Reply>)
    ensures
        ({
            let half = run(guardian, stage, first);
            let rest = run(half.guardian, half.stage, second);
            run(guardian, stage, first + second) == Outcome {
                effects: half.effects + rest.effects,
                ..rest
            }
        }),
    decreases first.len(),
{
    let all = first + second;
    if first.len() == 0 {
        assert(all =~= second);
        let rest = run(guardian, stage, second);
        assert(Seq::<Effect>::empty() + rest.effects =~= rest.effects);
    } else {
        assert(all.drop_first() =~= first.drop_first() + second);
        let g = guardian.updated(stage, first[0]);
        let s = guardian.next(stage, first[0]);
        lemma_run_concat(g, s, first.drop_first(), second);
        let half = run(g, s, first.drop_first());
        let rest = run(half.guardian, half.stage, second);
        assert(guardian.script(stage, first[0]) + (half.effects + rest.effects) =~= (
        guardian.script(stage, first[0]) + half.effects) + rest.effects);
    }
}

/// A refresh only touches the two controls, then goes on as planned.
pub proof fn lemma_refresh(
    guardian: Guardian,
    after: After,
    trackbar: bool,
    volume: Option<isize>,
    label: bool,
    power: Option<PowerStatus>,
)
    ensures
        run(
            guardian,
            Stage::FindingTrackbar(after),
            refresh_replies(trackbar, volume, label, power),
        ) == (Outcome {
            guardian,
            stage: after_stage(after),
            effects: refresh_effects(trackbar, volume, label, power) + after_script(after),
        }),
{
    reveal_with_fuel(run, 5);
    let replies = refresh_replies(trackbar, volume, label, power);
    let end = run(guardian, Stage::FindingTrackbar(after), replies);
    assert(end.effects =~= refresh_effects(trackbar, volume, label, power) + after_script(after));
}

/// What is left of showing the panel once its place is known.
proof fn lemma_show_tail(
    guardian: Guardian,
    p: Placement,
    now: u128,
    foreground: u32,
    own: u32,
)
    ensures
        run(
            guardian,
            Stage::ShowingWhen(p),
            seq![Reply::Now(now), Reply::Threads(foreground, own)],
        ) == (Outcome {
            guardian: Guardian {
                anim: Some(Animation { opening: true, start_ns: now, rest: p }),
                ..guardian
            },
            stage: Stage::Done,
            effects: seq![start_anim_timer()] + front_script(foreground, own),
        }),
{
    reveal_with_fuel(run, 3);
    assert(run(
        guardian,
        Stage::ShowingWhen(p),
        seq![Reply::Now(now), Reply::Threads(foreground, own)],
    ).effects =~= seq![start_anim_timer()] + front_script(foreground, own));
}

/// What is left of showing the panel where it is.
proof fn lemma_show_in_place_tail(
    guardian: Guardian,
    r: Rect,
    now: u128,
    foreground: u32,
    own: u32,
)
    ensures
        run(
            guardian,
            Stage::ShowingWhere,
            seq![Reply::Rect(r), Reply::Now(now), Reply::Threads(foreground, own)],
        ) == (Outcome {
            guardian: Guardian {
                anim: Some(Animation { opening: true, start_ns: now, rest: r.placed() }),
                ..guardian
            },
            stage: Stage::Done,
            effects: show_script(r.placed()) + (seq![start_anim_timer()] + front_script(
                foreground,
                own,
            )),
        }),
{
    let replies = seq![Reply::Rect(r), Reply::Now(now), Reply::Threads(foreground, own)];
    lemma_show_tail(guardian, r.placed(), now, foreground, own);
    assert(replies.drop_first() =~= seq![Reply::Now(now), Reply::Threads(foreground, own)]);
}

/// Toggling a hidden panel starts with a refresh.
proof fn lemma_start_refresh(guardian: Guardian)
    ensures
        run(guardian, Stage::Toggling, seq![Reply::Visible(false)]) == (Outcome {
            guardian,
            stage: Stage::FindingTrackbar(After::ShowInPlace),
            effects: seq![],
        }),
{
    reveal_with_fuel(run, 2);
    assert(run(guardian, Stage::Toggling, seq![Reply::Visible(false)]).effects =~= seq![]);
}

/// Toggling a hidden panel refreshes it, starts to slide it in to where it is, and
/// brings it to the front.
pub proof fn lemma_toggle_shows(
    guardian: Guardian,
    trackbar: bool,
    volume: Option<isize>,
    label: bool,
    power: Option<PowerStatus>,
    r: Rect,
    now: u128,
    foreground: u32,
    own: u32,
)
    requires
        guardian.panel_created,
    ensures
        run(
            guardian,
            guardian.toggle_stage(),
            seq![Reply::Visible(false)] + refresh_replies(trackbar, volume, label, power) + seq![
                Reply::Rect(r),
                Reply::Now(now),
                Reply::Threads(foreground, own),
            ],
        ) == (Outcome {
            guardian: Guardian {
                anim: Some(Animation { opening: true, start_ns: now, rest: r.placed() }),
                ..guardian
            },
            stage: Stage::Done,
            effects: refresh_effects(trackbar, volume, label, power) + show_script(r.placed())
                + seq![start_anim_timer()] + front_script(foreground, own),
        }),
{
    let refresh = refresh_replies(trackbar, volume, label, power);
    let tail = seq![Reply::Rect(r), Reply::Now(now), Reply::Threads(foreground, own)];
    let start = seq![Reply::Visible(false)];
    lemma_run_concat(guardian, Stage::Toggling, start + refresh, tail);
    lemma_run_concat(guardian, Stage::Toggling, start, refresh);
    lemma_refresh(guardian, After::ShowInPlace, trackbar, volume, label, power);
    lemma_show_in_place_tail(guardian, r, now, foreground, own);
    lemma_start_refresh(guardian);
    let fresh = refresh_effects(trackbar, volume, label, power);
    let front = seq![start_anim_timer()] + front_script(foreground, own);
    assert((Seq::<Effect>::empty() + (fresh + Seq::<Effect>::empty())) + (show_script(r.placed())
        + front) =~= fresh + show_script(r.placed()) + seq![start_anim_timer()] + front_script(
        foreground,
        own,
    ));
}

/// What comes before the first refresh of a new panel.
proof fn lemma_make_panel(guardian: Guardian, desktop: Rect)
    ensures
        run(
            guardian,
            Stage::Creating,
            seq![Reply::Made(true), Reply::Rect(desktop), Reply::Proceed],
        ) == (Outcome {
            guardian: Guardian { panel_created: true, ..guardian },
            stage: Stage::FindingTrackbar(After::ShowAt(panel_place(desktop))),
            effects: seq![Effect::CreateControls, Effect::UpdatePanel],
        }),
{
    reveal_with_fuel(run, 4);
    assert(run(
        guardian,
        Stage::Creating,
        seq![Reply::Made(true), Reply::Rect(desktop), Reply::Proceed],
    ).effects =~= seq![Effect::CreateControls, Effect::UpdatePanel]);
}

/// Toggling for the first time makes the panel, then shows it near the corner of the
/// desktop.
pub proof fn lemma_first_toggle_makes_the_panel(
    guardian: Guardian,
    desktop: Rect,
    trackbar: bool,
    volume: Option<isize>,
    label: bool,
    power: Option<PowerStatus>,
    now: u128,
    foreground: u32,
    own: u32,
)
    requires
        !guardian.panel_created,
    ensures
        run(
            guardian,
            guardian.toggle_stage(),
            seq![Reply::Made(true), Reply::Rect(desktop), Reply::Proceed] + refresh_replies(
                trackbar,
                volume,
                label,
                power,
            ) + seq![Reply::Now(now), Reply::Threads(foreground, own)],
        ) == (Outcome {
            guardian: Guardian {
                panel_created: true,
                anim: Some(
                    Animation { opening: true, start_ns: now, rest: panel_place(desktop) },
                ),
                ..guardian
            },
            stage: Stage::Done,
            effects: seq![Effect::CreateControls, Effect::UpdatePanel] + refresh_effects(
                trackbar,
                volume,
                label,
                power,
            ) + show_script(panel_place(desktop)) + seq![start_anim_timer()] + front_script(
                foreground,
                own,
            ),
        }),
{
    let p = panel_place(desktop);
    let refresh = refresh_replies(trackbar, volume, label, power);
    let tail = seq![Reply::Now(now), Reply::Threads(foreground, own)];
    let start = seq![Reply::Made(true), Reply::Rect(desktop), Reply::Proceed];
    let made = Guardian { panel_created: true, ..guardian };
    lemma_run_concat(guardian, Stage::Creating, start + refresh, tail);
    lemma_run_concat(guardian, Stage::Creating, start, refresh);
    lemma_refresh(made, After::ShowAt(p), trackbar, volume, label, power);
    lemma_make_panel(guardian, desktop);
    lemma_show_tail(made, p, now, foreground, own);
    let build = seq![Effect::CreateControls, Effect::UpdatePanel];
    let fresh = refresh_effects(trackbar, volume, label, power);
    let front = seq![start_anim_timer()] + front_script(foreground, own);
    assert((build + (fresh + show_script(p))) + front =~= build + fresh + show_script(p) + seq![
        start_anim_timer(),
    ] + front_script(foreground, own));
}

/// A panel that loses the focus is hidden where it is if it is visible; an invisible
/// one is left alone.
pub proof fn lemma_deactivation_hides(guardian: Guardian, r: Rect, now: u128)
    ensures
        run(
            guardian,
            Stage::Deactivating,
            seq![Reply::Visible(true), Reply::Rect(r), Reply::Now(now)],
        ) == (Outcome {
            guardian: Guardian {
                anim: Some(Animation { opening: false, start_ns: now, rest: r.placed() }),
                ..guardian
            },
            stage: Stage::Done,
            effects: seq![start_anim_timer()],
        }),
        run(guardian, Stage::Deactivating, seq![Reply::Visible(false)]) == (Outcome {
            guardian,
            stage: Stage::Done,
            effects: seq![],
        }),
{
    reveal_with_fuel(run, 4);
    assert(run(
        guardian,
        Stage::Deactivating,
        seq![Reply::Visible(true), Reply::Rect(r), Reply::Now(now)],
    ).effects =~= seq![start_anim_timer()]);
    assert(run(guardian, Stage::Deactivating, seq![Reply::Visible(false)]).effects =~= seq![]);
}

/// While an animation has time left, a tick moves the panel to between its resting
/// place and one slide below, and the animation goes on.
pub proof fn lemma_tick_goes_on(guardian: Guardian, anim: Animation, now: u128)
    requires
        guardian.anim == Some(anim),
        fits(anim.rest.y + ANIM_SLIDE_OFFSET),
        elapsed(anim.start_ns, now) < ANIM_DURATION_MS,
    ensures
        run(guardian, Stage::Ticking, seq![Reply::Now(now)]) == (Outcome {
            guardian,
            stage: Stage::Done,
            effects: seq![
                Effect::Place(
                    Target::Panel,
                    Placement {
                        y: anim.frame_at(elapsed(anim.start_ns, now)).y,
                        ..anim.rest
                    },
                    false,
                ),
                Effect::SetAlpha(anim.frame_at(elapsed(anim.start_ns, now)).alpha),
            ],
        }),
        anim.rest.y <= anim.frame_at(elapsed(anim.start_ns, now)).y <= anim.rest.y
            + ANIM_SLIDE_OFFSET,
{
    reveal_with_fuel(run, 2);
    let ms = elapsed(anim.start_ns, now);
    if anim.opening {
        lemma_opening(anim, ms, ms);
    } else {
        lemma_closing(anim, ms, ms);
    }
    assert(run(guardian, Stage::Ticking, seq![Reply::Now(now)]).effects =~= seq![
        Effect::Place(Target::Panel, Placement { y: anim.frame_at(ms).y, ..anim.rest }, false),
        Effect::SetAlpha(anim.frame_at(ms).alpha),
    ]);
}

/// The first tick after its time ends an animation and its timer. A panel that was
/// opening is left opaque at rest; one that was closing is hidden, and then put back
/// to where it rested.
pub proof fn lemma_tick_ends(guardian: Guardian, anim: Animation, now: u128)
    requires
        guardian.anim == Some(anim),
        fits(anim.rest.y + ANIM_SLIDE_OFFSET),
        elapsed(anim.start_ns, now) >= ANIM_DURATION_MS,
    ensures
        run(guardian, Stage::Ticking, seq![Reply::Now(now), Reply::Proceed]) == (Outcome {
            guardian: Guardian { anim: None, ..guardian },
            stage: Stage::Done,
            effects: if anim.opening {
                seq![
                    Effect::Place(Target::Panel, anim.rest, false),
                    Effect::SetAlpha(255),
                    Effect::StopTimer(ANIM_TIMER_ID),
                ]
            } else {
                seq![
                    Effect::Place(Target::Panel, lowered(anim.rest), false),
                    Effect::SetAlpha(0),
                    Effect::StopTimer(ANIM_TIMER_ID),
                    Effect::HidePanel,
                    Effect::Place(Target::Panel, anim.rest, true),
                ]
            },
        }),
{
    reveal_with_fuel(run, 3);
    let ms = elapsed(anim.start_ns, now);
    let end = run(guardian, Stage::Ticking, seq![Reply::Now(now), Reply::Proceed]);
    if anim.opening {
        lemma_opening(anim, ms, ms);
        assert(end.effects =~= seq![
            Effect::Place(Target::Panel, anim.rest, false),
            Effect::SetAlpha(255),
            Effect::StopTimer(ANIM_TIMER_ID),
        ]);
    } else {
        lemma_closing(anim, ms, ms);
        assert(end.effects =~= seq![
            Effect::Place(Target::Panel, lowered(anim.rest), false),
            Effect::SetAlpha(0),
            Effect::StopTimer(ANIM_TIMER_ID),
            Effect::HidePanel,
            Effect::Place(Target::Panel, anim.rest, true),
        ]);
    }
}

/// The panel comes back to where it was. Hidden at a place, it is put back there when
/// it has gone, and if the system then reports that place, the panel is shown again
/// there, opaque; nothing else is remembered of the whole round.
pub proof fn lemma_hide_and_show_restores(
    guardian: Guardian,
    r: Rect,
    hide_ns: u128,
    gone_ns: u128,
    refresh: (bool, Option<isize>, bool, Option<PowerStatus>),
    show_ns: u128,
    threads: (u32, u32),
    back_ns: u128,
)
    requires
        guardian.panel_created,
        r.measurable(),
        fits(r.top + ANIM_SLIDE_OFFSET),
        elapsed(hide_ns, gone_ns) >= ANIM_DURATION_MS,
        elapsed(show_ns, back_ns) >= ANIM_DURATION_MS,
    ensures
        ({
            let hiding = run(
                guardian,
                guardian.toggle_stage(),
                seq![Reply::Visible(true), Reply::Rect(r), Reply::Now(hide_ns)],
            );
            let gone = run(
                hiding.guardian,
                Stage::Ticking,
                seq![Reply::Now(gone_ns), Reply::Proceed],
            );
            let showing = run(
                gone.guardian,
                gone.guardian.toggle_stage(),
                seq![Reply::Visible(false)] + refresh_replies(
                    refresh.0,
                    refresh.1,
                    refresh.2,
                    refresh.3,
                ) + seq![
                    Reply::Rect(r),
                    Reply::Now(show_ns),
                    Reply::Threads(threads.0, threads.1),
                ],
            );
            let back = run(
                showing.guardian,
                Stage::Ticking,
                seq![Reply::Now(back_ns), Reply::Proceed],
            );
            &&& gone.effects.last() == Effect::Place(Target::Panel, r.placed(), true)
            &&& back.effects == seq![
                Effect::Place(Target::Panel, r.placed(), false),
                Effect::SetAlpha(255),
                Effect::StopTimer(ANIM_TIMER_ID),
            ]
            &&& back.guardian == (Guardian { anim: None, ..guardian })
        }),
{
    lemma_toggle_hides(guardian, r, hide_ns);
    let hiding = Guardian {
        anim: Some(Animation { opening: false, start_ns: hide_ns, rest: r.placed() }),
        ..guardian
    };
    lemma_tick_ends(hiding, hiding.anim->0, gone_ns);
    let gone = Guardian { anim: None, ..guardian };
    assert(gone == (Guardian { anim: None, ..hiding }));
    lemma_toggle_shows(
        gone,
        refresh.0,
        refresh.1,
        refresh.2,
        refresh.3,
        r,
        show_ns,
        threads.0,
        threads.1,
    );
    let showing = Guardian {
        anim: Some(Animation { opening: true, start_ns: show_ns, rest: r.placed() }),
        ..gone
    };
    lemma_tick_ends(showing, showing.anim->0, back_ns);
    assert(gone == (Guardian { anim: None, ..showing }));
}

/// Input that is shared with another thread is always taken back by the same script.
pub proof fn lemma_input_is_detached(
    guardian: Guardian,
    stage: Stage,
    reply: Reply,
    i: int,
    from: u32,
    to: u32,
)
    requires
        0 <= i < guardian.script(stage, reply).len(),
        guardian.script(stage, reply)[i] == Effect::AttachInput(from, to),
    ensures
        i + 2 < guardian.script(stage, reply).len(),
        guardian.script(stage, reply)[i + 1] == Effect::BringPanelToFront,
        guardian.script(stage, reply)[i + 2] == Effect::DetachInput(from, to),
{
}

/// The animation timer goes with the animation: a step starts it exactly when it sets
/// an animation going, and stops it exactly when the animation is about to be
/// forgotten.
pub proof fn lemma_timer_follows_animation(guardian: Guardian, stage: Stage, reply: Reply)
    ensures
        guardian.script(stage, reply).contains(start_anim_timer()) <==> reply is Now && (
        stage is ShowingWhen || stage is HidingWhen),
        reply is Now && (stage is ShowingWhen || stage is HidingWhen) ==> (guardian.updated(
            stage,
            reply,
        ).anim matches Some(anim) && anim.start_ns == reply->Now_0),
        stage != Stage::Ending ==> (guardian.script(stage, reply).contains(
            Effect::StopTimer(ANIM_TIMER_ID),
        ) <==> guardian.next(stage, reply) == Stage::Ending),
        guardian.updated(Stage::Ending, Reply::Proceed).anim is None,
        guardian.anim is Some && guardian.updated(stage, reply).anim is None ==> stage
            == Stage::Ending,
{
    let script = guardian.script(stage, reply);
    if reply is Now && (stage is ShowingWhen || stage is HidingWhen) {
        assert(script[0] == start_anim_timer());
    }
    if stage != Stage::Ending && guardian.next(stage, reply) == Stage::Ending {
        assert(script[2] == Effect::StopTimer(ANIM_TIMER_ID));
    }
}

/// Making the bubble puts it into the corner of the desktop, with its bitmap if there
/// is one, and sets it bobbing. Without a window nothing happens.
pub proof fn lemma_make_bubble(guardian: Guardian, desktop: Rect, bitmap: bool, now: u128)
    ensures
        run(
            guardian,
            Stage::BubbleWhere,
            seq![Reply::Rect(desktop), Reply::Made(true), Reply::Made(bitmap), Reply::Now(now)],
        ) == (Outcome {
            guardian: Guardian {
                bitmap,
                bubble: Some(
                    Bubble {
                        base_x: bubble_place(desktop).x,
                        base_y: bubble_place(desktop).y,
                        start_ns: now,
                    },
                ),
                ..guardian
            },
            stage: Stage::Done,
            effects: (if bitmap {
                seq![Effect::PaintBubble(bubble_place(desktop))]
            } else {
                seq![]
            }) + seq![
                Effect::Show(Target::Bubble),
                Effect::Place(Target::Bubble, bubble_place(desktop), false),
                Effect::StartTimer(Target::Bubble, BUBBLE_TIMER_ID, BUBBLE_TIMER_INTERVAL_MS),
            ],
        }),
        run(guardian, Stage::BubbleWhere, seq![Reply::Rect(desktop), Reply::Made(false)]) == (
        Outcome { guardian, stage: Stage::Done, effects: seq![] }),
{
    reveal_with_fuel(run, 5);
    let made = run(
        guardian,
        Stage::BubbleWhere,
        seq![Reply::Rect(desktop), Reply::Made(true), Reply::Made(bitmap), Reply::Now(now)],
    );
    assert(made.effects =~= (if bitmap {
        seq![Effect::PaintBubble(bubble_place(desktop))]
    } else {
        seq![]
    }) + seq![
        Effect::Show(Target::Bubble),
        Effect::Place(Target::Bubble, bubble_place(desktop), false),
        Effect::StartTimer(Target::Bubble, BUBBLE_TIMER_ID, BUBBLE_TIMER_INTERVAL_MS),
    ]);
    let not_made = run(
        guardian,
        Stage::BubbleWhere,
        seq![Reply::Rect(desktop), Reply::Made(false)],
    );
    assert(not_made.effects =~= seq![]);
}

/// A bobbing bubble only moves up and down, by its amplitude at most, and keeps its
/// size; bobbing changes nothing else.
pub proof fn lemma_bobbing_keeps_near(guardian: Guardian, bubble: Bubble, now: u128)
    requires
        guardian.bubble == Some(bubble),
        bubble.can_bob(elapsed(bubble.start_ns, now)),
    ensures
        run(guardian, Stage::Bobbing, seq![Reply::Now(now)]) == (Outcome {
            guardian,
            stage: Stage::Done,
            effects: seq![
                Effect::Place(
                    Target::Bubble,
                    bubble.place_at(elapsed(bubble.start_ns, now)),
                    false,
                ),
            ],
        }),
        ({
            let p = bubble.place_at(elapsed(bubble.start_ns, now));
            &&& p.x == bubble.base_x
            &&& -BUBBLE_BOB_AMPLITUDE <= p.y - bubble.base_y <= BUBBLE_BOB_AMPLITUDE
            &&& p.width == BUBBLE_SIZE && p.height == BUBBLE_SIZE
        }),
{
    reveal_with_fuel(run, 2);
    let ms = elapsed(bubble.start_ns, now);
    lemma_bob_is_bounded(ms);
    assert(run(guardian, Stage::Bobbing, seq![Reply::Now(now)]).effects =~= seq![
        Effect::Place(Target::Bubble, bubble.place_at(ms), false),
    ]);
}

/// The bitmap of the bubble is deleted once: after the first end of the bubble there is
/// none to delete.
pub proof fn lemma_bitmap_is_deleted_once(guardian: Guardian, wparam: usize, again: usize)
    ensures
        guardian.bitmap ==> guardian.bubble_verdict(WM_DESTROY, wparam) == Verdict::Perform(
            Effect::DeleteBitmap,
        ),
        guardian.after_bubble_message(WM_DESTROY).bubble_verdict(WM_DESTROY, again)
            == Verdict::Handled,
{
}

/// Once the main window exists, a click on the bubble and the hot key do the same.
pub proof fn lemma_click_is_hot_key(guardian: Guardian, wparam: usize)
    requires
        guardian.main_ready,
    ensures
        guardian.bubble_verdict(WM_LBUTTONUP, wparam) == guardian.main_verdict(
            WM_HOTKEY,
            HOTKEY_ID as usize,
        ),
        guardian.after_bubble_message(WM_LBUTTONUP) == guardian,
{
}

/// Every message that a window has no use for is left to the system.
pub proof fn lemma_other_messages_are_left(guardian: Guardian, msg: u32, wparam: usize)
    ensures
        guardian.main_verdict(msg, wparam) == Verdict::Default <==> msg != WM_HOTKEY && msg
            != WM_DESTROY,
        guardian.panel_verdict(msg, wparam) == Verdict::Default <==> msg != WM_COMMAND && msg
            != WM_HSCROLL && msg != WM_ACTIVATE && msg != WM_TIMER && msg != WM_CLOSE,
        guardian.bubble_verdict(msg, wparam) == Verdict::Default <==> msg != WM_LBUTTONUP && msg
            != WM_TIMER && msg != WM_DESTROY,
{
}

/// Whatever position the trackbar was moved to, the volume is set to that position, once;
/// nothing else is done, nothing else is remembered, and the procedure is over.
pub proof fn lemma_scrolling_sets_the_volume(guardian: Guardian, position: isize)
    ensures
        ({
            let outcome = run(guardian, Stage::Scrolling, seq![Reply::Position(position)]);
            &&& outcome.guardian == guardian
            &&& outcome.stage == Stage::Done
            &&& outcome.effects == seq![Effect::SetVolume(position)]
        }),
{
    reveal_with_fuel(run, 2);
    let outcome = run(guardian, Stage::Scrolling, seq![Reply::Position(position)]);
    assert(outcome.effects =~= seq![Effect::SetVolume(position)]);
}

} // verus!
