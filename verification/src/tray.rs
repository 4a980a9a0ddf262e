//! The watchdog over the notification area, and the restart that heals it.
use vstd::prelude::*;

verus! {

/// The program that stops the shell.
pub const KILL_PROGRAM: &'static str = "taskkill";

/// The program that is the shell.
pub const SHELL_PROGRAM: &'static str = "explorer.exe";

/// How long a restart waits between stopping the shell and starting it again.
pub const RESTART_PAUSE_MS: u64 = 500;

/// What came of looking for a window.
#[derive(Clone, Copy, PartialEq, Eq, Structural, Debug)]
pub enum Lookup {
    /// The call failed.
    Failed,
    /// The call gave the null handle.
    Null,
    Found,
}

/// Where a check of the notification area stands.
#[derive(Clone, Copy, PartialEq, Eq, Structural, Debug)]
pub enum TrayStage {
    /// The taskbar window is being looked for.
    FindTray,
    /// The notification window inside the taskbar is being looked for.
    FindNotify,
    Done,
}

/// One move of a restart of the shell.
#[derive(Clone, Copy, PartialEq, Eq, Structural, Debug)]
pub enum TrayEffect {
    StopShell,
    /// Wait this many milliseconds.
    Pause(u64),
    StartShell,
}

/// How the shell is restarted.
pub open spec fn restart() -> Seq<TrayEffect> {
    seq![TrayEffect::StopShell, TrayEffect::Pause(500), TrayEffect::StartShell]
}

/// How the shell is restarted: stopped, left alone for half a second, and started.
pub fn restart_script() -> (script: Vec<TrayEffect>)
    ensures
        script@ == restart(),
{
    let mut script: Vec<TrayEffect> = Vec::new();
    script.push(TrayEffect::StopShell);
    script.push(TrayEffect::Pause(RESTART_PAUSE_MS));
    script.push(TrayEffect::StartShell);
    proof {
        assert(script@ =~= restart());
    }
    script
}

/// The arguments with which the shell is stopped.
pub fn kill_arguments() -> (args: [&'static str; 3])
    ensures
        args@[0]@ == "/F"@ && args@[1]@ == "/IM"@ && args@[2]@ == SHELL_PROGRAM@,
{
    ["/F", "/IM", SHELL_PROGRAM]
}

/// The stage after a lookup: the notification window is looked for only inside a
/// taskbar that was found.
pub open spec fn tray_next(stage: TrayStage, lookup: Lookup) -> TrayStage {
    if stage == TrayStage::FindTray && lookup == Lookup::Found {
        TrayStage::FindNotify
    } else {
        TrayStage::Done
    }
}

/// What a lookup leads to: a restart as soon as one of the windows is missing.
pub open spec fn tray_script(stage: TrayStage, lookup: Lookup) -> Seq<TrayEffect> {
    if stage != TrayStage::Done && lookup != Lookup::Found {
        restart()
    } else {
        seq![]
    }
}

/// Takes a check one lookup further: the new stage, and what to do.
pub fn tray_step(stage: TrayStage, lookup: Lookup) -> (step: (TrayStage, Vec<TrayEffect>))
    ensures
        step.0 == tray_next(stage, lookup),
        step.1@ == tray_script(stage, lookup),
{
    match stage {
        TrayStage::FindTray => if lookup == Lookup::Found {
            (TrayStage::FindNotify, Vec::new())
        } else {
            (TrayStage::Done, restart_script())
        },
        TrayStage::FindNotify => if lookup == Lookup::Found {
            (TrayStage::Done, Vec::new())
        } else {
            (TrayStage::Done, restart_script())
        },
        TrayStage::Done => (TrayStage::Done, Vec::new()),
    }
}

/// Everything that a check does, given what the two lookups come to.
pub open spec fn tray_check(tray: Lookup, notify: Lookup) -> Seq<TrayEffect> {
    tray_script(TrayStage::FindTray, tray) + tray_script(
        tray_next(TrayStage::FindTray, tray),
        notify,
    )
}

/// A check restarts the shell exactly once if one of the two windows is missing, and
/// leaves it alone if both are there; it is over after two lookups.
pub proof fn lemma_check_heals(tray: Lookup, notify: Lookup)
    ensures
        tray_check(tray, notify) == (if tray == Lookup::Found && notify == Lookup::Found {
            Seq::<TrayEffect>::empty()
        } else {
            restart()
        }),
        tray_next(tray_next(TrayStage::FindTray, tray), notify) == TrayStage::Done,
{
    assert(tray_check(tray, notify) =~= (if tray == Lookup::Found && notify == Lookup::Found {
        Seq::<TrayEffect>::empty()
    } else {
        restart()
    }));
}

/// A check stops the shell, waits for half a second and starts it again if the taskbar is
/// not found, or if the notification window is not found in it; otherwise it does nothing.
/// The notification window is looked for exactly if the taskbar is found. A check that is
/// over stays over and does nothing more.
pub proof fn lemma_what_a_check_does(tray: Lookup, notify: Lookup)
    ensures
        ({
            let healing = seq![
                TrayEffect::StopShell,
                TrayEffect::Pause(500),
                TrayEffect::StartShell,
            ];
            let nothing = Seq::<TrayEffect>::empty();
            &&& tray is Found ==> tray_script(TrayStage::FindTray, tray) == nothing
            &&& !(tray is Found) ==> tray_script(TrayStage::FindTray, tray) == healing
            &&& tray is Found <==> tray_next(TrayStage::FindTray, tray) == TrayStage::FindNotify
            &&& !(tray is Found) <==> tray_next(TrayStage::FindTray, tray) == TrayStage::Done
            &&& notify is Found ==> tray_script(TrayStage::FindNotify, notify) == nothing
            &&& !(notify is Found) ==> tray_script(TrayStage::FindNotify, notify) == healing
            &&& tray_next(TrayStage::FindNotify, notify) == TrayStage::Done
            &&& tray_script(TrayStage::Done, notify) == nothing
            &&& tray_next(TrayStage::Done, notify) == TrayStage::Done
        }),
{
}

} // verus!
