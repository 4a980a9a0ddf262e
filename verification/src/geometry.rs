//! Screen rectangles, and where the panel and the bubble go.
use vstd::prelude::*;

verus! {

/// A rectangle given by its edges.
#[derive(Clone, Copy, PartialEq, Eq, Structural, Debug)]
pub struct Rect {
    pub left: i32,
    pub top: i32,
    pub right: i32,
    pub bottom: i32,
}

/// A rectangle given by its upper left corner and its size.
#[derive(Clone, Copy, PartialEq, Eq, Structural, Debug)]
pub struct Placement {
    pub x: i32,
    pub y: i32,
    pub width: i32,
    pub height: i32,
}

/// The width of the panel.
pub const PANEL_WIDTH: i32 = 260;

/// The height of the panel.
pub const PANEL_HEIGHT: i32 = 260;

/// How far the panel stays from the right edge of the desktop.
pub const PANEL_MARGIN_RIGHT: i32 = 20;

/// How far the panel stays from the bottom edge of the desktop, to clear the taskbar.
pub const PANEL_MARGIN_BOTTOM: i32 = 60;

/// The side of the bubble.
pub const BUBBLE_SIZE: i32 = 46;

/// How far the bubble stays from the right and bottom edges of the desktop.
pub const BUBBLE_MARGIN: i32 = 24;

/// A value of an `i32`.
pub open spec fn fits(value: int) -> bool {
    i32::MIN <= value <= i32::MAX
}

impl Rect {
    /// The width and the height can be represented.
    pub open spec fn measurable(self) -> bool {
        fits(self.right - self.left) && fits(self.bottom - self.top)
    }

    /// Whether the width and the height can be represented.
    pub fn is_measurable(&self) -> (b: bool)
        ensures
            b == self.measurable(),
    {
        let width: i64 = self.right as i64 - self.left as i64;
        let height: i64 = self.bottom as i64 - self.top as i64;
        i32::MIN as i64 <= width && width <= i32::MAX as i64 && i32::MIN as i64 <= height && height
            <= i32::MAX as i64
    }

    /// The same rectangle by corner and size.
    pub open spec fn placed(self) -> Placement {
        Placement {
            x: self.left,
            y: self.top,
            width: (self.right - self.left) as i32,
            height: (self.bottom - self.top) as i32,
        }
    }

    /// The same rectangle by corner and size.
    pub fn placement(&self) -> (p: Placement)
        requires
            self.measurable(),
        ensures
            p == self.placed(),
            p.x == self.left && p.y == self.top,
            p.x + p.width == self.right && p.y + p.height == self.bottom,
    {
        Placement {
            x: self.left,
            y: self.top,
            width: self.right - self.left,
            height: self.bottom - self.top,
        }
    }
}

impl Placement {
    /// The two rectangles have no point in common.
    pub open spec fn disjoint(self, other: Placement) -> bool {
        ||| self.x + self.width <= other.x
        ||| other.x + other.width <= self.x
        ||| self.y + self.height <= other.y
        ||| other.y + other.height <= self.y
    }

    /// The rectangle lies within an area of the given size that starts at the origin.
    pub open spec fn within(self, width: int, height: int) -> bool {
        &&& 0 <= self.x && 0 <= self.y && 0 < self.width && 0 < self.height
        &&& self.x + self.width <= width && self.y + self.height <= height
    }

    /// The rectangle lies within another one.
    pub open spec fn inside(self, area: Rect) -> bool {
        &&& area.left <= self.x && area.top <= self.y
        &&& self.x + self.width <= area.right && self.y + self.height <= area.bottom
    }
}

/// The corner of the panel can be represented on this desktop.
pub open spec fn has_panel_corner(desktop: Rect) -> bool {
    fits(desktop.right - PANEL_WIDTH - PANEL_MARGIN_RIGHT) && fits(
        desktop.bottom - PANEL_HEIGHT - PANEL_MARGIN_BOTTOM,
    )
}

/// Whether the corner of the panel can be represented on this desktop.
pub fn desktop_has_panel_corner(desktop: &Rect) -> (b: bool)
    ensures
        b == has_panel_corner(*desktop),
{
    desktop.right >= i32::MIN + PANEL_WIDTH + PANEL_MARGIN_RIGHT && desktop.bottom >= i32::MIN
        + PANEL_HEIGHT + PANEL_MARGIN_BOTTOM
}

/// The resting place of the panel on a desktop.
pub open spec fn panel_place(desktop: Rect) -> Placement {
    Placement {
        x: (desktop.right - PANEL_WIDTH - PANEL_MARGIN_RIGHT) as i32,
        y: (desktop.bottom - PANEL_HEIGHT - PANEL_MARGIN_BOTTOM) as i32,
        width: PANEL_WIDTH,
        height: PANEL_HEIGHT,
    }
}

/// Puts the panel near the bottom right corner of the desktop, above the taskbar.
pub fn panel_placement(desktop: &Rect) -> (p: Placement)
    requires
        has_panel_corner(*desktop),
    ensures
        p == panel_place(*desktop),
        p.x + p.width + PANEL_MARGIN_RIGHT == desktop.right,
        p.y + p.height + PANEL_MARGIN_BOTTOM == desktop.bottom,
        p.width == PANEL_WIDTH && p.height == PANEL_HEIGHT,
{
    Placement {
        x: desktop.right - PANEL_WIDTH - PANEL_MARGIN_RIGHT,
        y: desktop.bottom - PANEL_HEIGHT - PANEL_MARGIN_BOTTOM,
        width: PANEL_WIDTH,
        height: PANEL_HEIGHT,
    }
}

/// The resting place of the bubble on a desktop.
pub open spec fn bubble_place(desktop: Rect) -> Placement {
    Placement {
        x: (desktop.right - BUBBLE_SIZE - BUBBLE_MARGIN) as i32,
        y: (desktop.bottom - BUBBLE_SIZE - BUBBLE_MARGIN) as i32,
        width: BUBBLE_SIZE,
        height: BUBBLE_SIZE,
    }
}

/// The corner of the bubble can be represented on this desktop.
pub open spec fn has_bubble_corner(desktop: Rect) -> bool {
    fits(desktop.right - BUBBLE_SIZE - BUBBLE_MARGIN) && fits(
        desktop.bottom - BUBBLE_SIZE - BUBBLE_MARGIN,
    )
}

/// Whether the corner of the bubble can be represented on this desktop.
pub fn desktop_has_bubble_corner(desktop: &Rect) -> (b: bool)
    ensures
        b == has_bubble_corner(*desktop),
{
    desktop.right >= i32::MIN + BUBBLE_SIZE + BUBBLE_MARGIN && desktop.bottom >= i32::MIN
        + BUBBLE_SIZE + BUBBLE_MARGIN
}

/// Puts the bubble into the bottom right corner of the desktop.
pub fn bubble_placement(desktop: &Rect) -> (p: Placement)
    requires
        has_bubble_corner(*desktop),
    ensures
        p == bubble_place(*desktop),
        p.x + p.width + BUBBLE_MARGIN == desktop.right,
        p.y + p.height + BUBBLE_MARGIN == desktop.bottom,
        p.width == BUBBLE_SIZE && p.height == BUBBLE_SIZE,
{
    Placement {
        x: desktop.right - BUBBLE_SIZE - BUBBLE_MARGIN,
        y: desktop.bottom - BUBBLE_SIZE - BUBBLE_MARGIN,
        width: BUBBLE_SIZE,
        height: BUBBLE_SIZE,
    }
}

/// On a desktop that is large enough for it, the panel lies wholly on the desktop.
pub proof fn lemma_panel_is_on_the_desktop(desktop: Rect)
    requires
        has_panel_corner(desktop),
        desktop.right - desktop.left >= PANEL_WIDTH + PANEL_MARGIN_RIGHT,
        desktop.bottom - desktop.top >= PANEL_HEIGHT + PANEL_MARGIN_BOTTOM,
    ensures
        panel_place(desktop).inside(desktop),
{
}

} // verus!
