//! The words in which the core and its driver talk: what the driver is asked, what it
//! answers, and what it is told to do.
use vstd::prelude::*;

use crate::controls::Program;
use crate::geometry::{Placement, Rect};
use crate::text::PowerStatus;

verus! {

/// A window that is moved, shown or timed.
#[derive(Clone, Copy, PartialEq, Eq, Structural, Debug)]
pub enum Target {
    Panel,
    Bubble,
}

/// What the driver is asked.
#[derive(Clone, Copy, PartialEq, Eq, Structural, Debug)]
pub enum Query {
    /// Nothing: the procedure is over.
    Nothing,
    /// Go on as soon as the script has been performed.
    Proceed,
    /// Is the panel visible?
    PanelVisible,
    /// Where is the panel?
    PanelRect,
    /// How large is the desktop?
    DesktopRect,
    /// Create the panel with this size.
    CreatePanel(i32, i32),
    /// Is there a control with this identifier in the panel?
    FindControl(usize),
    /// At which trackbar position does the master volume stand?
    Volume,
    /// How does the system describe its power supply?
    Power,
    /// Which threads own the foreground window and this program?
    Threads,
    /// Which position does the trackbar that was moved have?
    TrackbarPosition,
    /// What time is it?
    Clock,
    /// Create the bubble at this place.
    CreateBubble(Placement),
    /// Load the bitmap for a bubble of this size.
    LoadBitmap(i32),
}

/// What the driver answers.
#[derive(Clone, Copy, PartialEq, Eq, Structural, Debug)]
pub enum Reply {
    Proceed,
    Visible(bool),
    Rect(Rect),
    /// The window or bitmap was made, or was not.
    Made(bool),
    /// The control exists, or does not.
    Found(bool),
    /// The trackbar position of the master volume, if there is one.
    Volume(Option<isize>),
    Power(Option<PowerStatus>),
    /// The thread of the foreground window, and the driver's own.
    Threads(u32, u32),
    Position(isize),
    /// Nanoseconds on the driver's clock.
    Now(u128),
}

/// What the driver does without looking at the outcome.
#[derive(Clone, Copy, PartialEq, Eq, Structural, Debug)]
pub enum Effect {
    /// Put a window somewhere, above all others and without activating it. With the
    /// flag set the order of the windows is left as it is.
    Place(Target, Placement, bool),
    /// Make the panel this opaque.
    SetAlpha(u8),
    /// Show a window without activating it.
    Show(Target),
    HidePanel,
    /// Start or restart a timer of a window: its identifier and its interval.
    StartTimer(Target, usize, u32),
    /// Stop a timer of the panel.
    StopTimer(usize),
    CreateControls,
    UpdatePanel,
    SetTrackbar(isize),
    SetBattery(Option<PowerStatus>),
    /// Share the input state of two threads: from the first to the second.
    AttachInput(u32, u32),
    /// Take the sharing back.
    DetachInput(u32, u32),
    BringPanelToFront,
    /// Set the master volume to this trackbar position.
    SetVolume(isize),
    /// Put the bitmap on the bubble at this place.
    PaintBubble(Placement),
    DeleteBitmap,
    RestartTray,
    Launch(Program),
    /// End the message loop.
    Quit,
}

} // verus!
