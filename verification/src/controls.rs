//! The controls of the panel.
use vstd::prelude::*;

use crate::geometry::{Placement, PANEL_HEIGHT, PANEL_WIDTH};

verus! {

pub const ID_BTN_RESTART: usize = 101;

pub const ID_BTN_CHROME: usize = 102;

pub const ID_BTN_SPOTIFY: usize = 103;

pub const ID_TRACKBAR_VOL: usize = 104;

pub const ID_STATIC_BATTERY: usize = 105;

/// The identifier of a control that nothing refers to.
pub const ID_NONE: usize = 0;

/// Where Chrome is installed.
pub const CHROME_PATH: &'static str =
    "C:\\Program Files\\Google\\Chrome\\Application\\chrome.exe";

/// Where Spotify is installed.
pub const SPOTIFY_PATH: &'static str =
    "C:\\Users\\gamer\\AppData\\Local\\Microsoft\\WindowsApps\\Spotify.exe";

/// The window class of a control.
#[derive(Clone, Copy, PartialEq, Eq, Structural, Debug)]
pub enum ControlClass {
    Button,
    Static,
    Trackbar,
}

/// The text on a control.
#[derive(Clone, Copy, PartialEq, Eq, Structural, Debug)]
pub enum Caption {
    RestartTray,
    OpenChrome,
    OpenSpotify,
    Volume,
    Battery,
    /// No text at all.
    Blank,
}

/// A child window of the panel.
#[derive(Clone, Copy, PartialEq, Eq, Structural, Debug)]
pub struct Control {
    pub class: ControlClass,
    pub caption: Caption,
    /// Where it is, in the coordinates of the panel.
    pub bounds: Placement,
    pub id: usize,
    /// The panel cannot do without it.
    pub required: bool,
}

/// A program that the panel starts.
#[derive(Clone, Copy, PartialEq, Eq, Structural, Debug)]
pub enum Program {
    Chrome,
    Spotify,
}

/// The system name of a window class.
pub open spec fn class_text(class: ControlClass) -> Seq<char> {
    match class {
        ControlClass::Button => "BUTTON"@,
        ControlClass::Static => "STATIC"@,
        ControlClass::Trackbar => "msctls_trackbar32"@,
    }
}

/// The system name of a window class.
pub fn class_name(class: ControlClass) -> (name: &'static str)
    ensures
        name@ == class_text(class),
{
    match class {
        ControlClass::Button => "BUTTON",
        ControlClass::Static => "STATIC",
        ControlClass::Trackbar => "msctls_trackbar32",
    }
}

/// The text on a control, if it has one.
pub fn caption_text(caption: Caption) -> (text: Option<&'static str>)
    ensures
        text is None <==> caption == Caption::Blank,
        caption == Caption::RestartTray ==> text->0@ == "Restart Tray"@,
        caption == Caption::OpenChrome ==> text->0@ == "Open Chrome"@,
        caption == Caption::OpenSpotify ==> text->0@ == "Open Spotify"@,
        caption == Caption::Volume ==> text->0@ == "Volume"@,
        caption == Caption::Battery ==> text->0@ == "Battery: ..."@,
{
    match caption {
        Caption::RestartTray => Some("Restart Tray"),
        Caption::OpenChrome => Some("Open Chrome"),
        Caption::OpenSpotify => Some("Open Spotify"),
        Caption::Volume => Some("Volume"),
        Caption::Battery => Some("Battery: ..."),
        Caption::Blank => None,
    }
}

/// Where a program is installed.
pub fn program_path(program: Program) -> (path: &'static str)
    ensures
        path@ == (match program {
            Program::Chrome => CHROME_PATH@,
            Program::Spotify => SPOTIFY_PATH@,
        }),
{
    match program {
        Program::Chrome => CHROME_PATH,
        Program::Spotify => SPOTIFY_PATH,
    }
}

/// The handle that stands for a brush in a system colour: one more than the index of
/// the colour.
pub fn hbrush_system(color_index: i32) -> (handle: isize)
    requires
        color_index < i32::MAX,
    ensures
        handle == color_index + 1,
{
    (color_index + 1) as isize
}

/// A control with the given class, text, bounds and identifier.
pub open spec fn control(
    class: ControlClass,
    caption: Caption,
    x: i32,
    y: i32,
    width: i32,
    height: i32,
    id: usize,
) -> Control {
    Control {
        class,
        caption,
        bounds: Placement { x, y, width, height },
        id,
        required: class == ControlClass::Trackbar,
    }
}

/// The controls of the panel, in the order in which they are made.
pub open spec fn panel_layout() -> Seq<Control> {
    seq![
        control(ControlClass::Button, Caption::RestartTray, 10, 10, 230, 30, ID_BTN_RESTART),
        control(ControlClass::Button, Caption::OpenChrome, 10, 50, 110, 30, ID_BTN_CHROME),
        control(ControlClass::Button, Caption::OpenSpotify, 130, 50, 110, 30, ID_BTN_SPOTIFY),
        control(ControlClass::Static, Caption::Volume, 10, 95, 230, 18, ID_NONE),
        control(ControlClass::Trackbar, Caption::Blank, 10, 115, 230, 30, ID_TRACKBAR_VOL),
        control(ControlClass::Static, Caption::Battery, 10, 155, 230, 20, ID_STATIC_BATTERY),
    ]
}

fn make_control(
    class: ControlClass,
    caption: Caption,
    x: i32,
    y: i32,
    width: i32,
    height: i32,
    id: usize,
) -> (c: Control)
    ensures
        c == control(class, caption, x, y, width, height, id),
{
    Control {
        class,
        caption,
        bounds: Placement { x, y, width, height },
        id,
        required: class == ControlClass::Trackbar,
    }
}

/// The controls of the panel, in the order in which they are made.
pub fn panel_controls() -> (controls: Vec<Control>)
    ensures
        controls@ == panel_layout(),
{
    let mut c: Vec<Control> = Vec::new();
    c.push(
        make_control(ControlClass::Button, Caption::RestartTray, 10, 10, 230, 30, ID_BTN_RESTART),
    );
    c.push(
        make_control(ControlClass::Button, Caption::OpenChrome, 10, 50, 110, 30, ID_BTN_CHROME),
    );
    c.push(
        make_control(ControlClass::Button, Caption::OpenSpotify, 130, 50, 110, 30, ID_BTN_SPOTIFY),
    );
    c.push(make_control(ControlClass::Static, Caption::Volume, 10, 95, 230, 18, ID_NONE));
    c.push(
        make_control(ControlClass::Trackbar, Caption::Blank, 10, 115, 230, 30, ID_TRACKBAR_VOL),
    );
    c.push(
        make_control(ControlClass::Static, Caption::Battery, 10, 155, 230, 20, ID_STATIC_BATTERY),
    );
    proof {
        assert(c@ =~= panel_layout());
    }
    c
}

/// The largest position of the volume trackbar; the smallest is zero.
pub const TRACKBAR_MAX: u16 = 100;

/// The range of the volume trackbar as one message parameter: the smallest position
/// in the low word, the largest in the high word.
pub fn trackbar_range() -> (lparam: isize)
    ensures
        lparam == TRACKBAR_MAX * 0x10000,
{
    100 * 0x10000
}

/// What follows the attempt to make a control.
#[derive(Clone, Copy, PartialEq, Eq, Structural, Debug)]
pub enum AfterControl {
    /// The next control.
    GoOn,
    /// The range of the new trackbar is set, as this message parameter.
    SetRange(isize),
    /// The panel cannot be made.
    Fail,
}

/// What follows the attempt to make a control: a trackbar is given its range, and the
/// panel fails with a control that it needs. Any other control may be missing.
pub fn after_control(control: &Control, made: bool) -> (next: AfterControl)
    ensures
        next == (if !made && control.required {
            AfterControl::Fail
        } else if made && control.class == ControlClass::Trackbar {
            AfterControl::SetRange((TRACKBAR_MAX * 0x10000) as isize)
        } else {
            AfterControl::GoOn
        }),
{
    if !made && control.required {
        AfterControl::Fail
    } else if made && control.class == ControlClass::Trackbar {
        AfterControl::SetRange(trackbar_range())
    } else {
        AfterControl::GoOn
    }
}

/// Every control lies within the panel, no two of them overlap, and no two of them
/// share an identifier.
pub proof fn lemma_layout_is_sound(i: int, j: int)
    requires
        0 <= i < panel_layout().len(),
        0 <= j < panel_layout().len(),
    ensures
        panel_layout()[i].bounds.within(PANEL_WIDTH as int, PANEL_HEIGHT as int),
        i != j ==> panel_layout()[i].bounds.disjoint(panel_layout()[j].bounds),
        i != j ==> panel_layout()[i].id != panel_layout()[j].id,
{
    assert(i == 0 || i == 1 || i == 2 || i == 3 || i == 4 || i == 5);
    assert(j == 0 || j == 1 || j == 2 || j == 3 || j == 4 || j == 5);
}

} // verus!
