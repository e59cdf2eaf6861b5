//! Where things go on the screen: the list within its margins, the gap in
//! the status bar, the cursor in the input line and the help overlay.

use vstd::prelude::*;

verus! {

/// The widest the help overlay gets.
pub const HELP_MAX_WIDTH: u16 = 60;

/// The tallest the help overlay gets.
pub const HELP_MAX_HEIGHT: u16 = 18;

/// The columns and rows left free around the help overlay, both sides
/// together, where the screen is large enough.
pub const HELP_CLEARANCE: u16 = 4;

/// A rectangle of screen cells.
#[derive(Debug, Clone, Copy, PartialEq, Eq, Structural)]
pub struct Area {
    pub x: u16,
    pub y: u16,
    pub width: u16,
    pub height: u16,
}

/// `a - b`, or zero where `b` is the greater.
pub open spec fn minus_or_zero(a: int, b: int) -> int {
    if a >= b {
        a - b
    } else {
        0
    }
}

/// The area of the list inside `area`: one column in from the left, and
/// narrower by one column on either side.
pub fn list_area(area: Area) -> (inner: Area)
    requires
        area.x < u16::MAX,
    ensures
        inner == (Area {
            x: (area.x + 1) as u16,
            y: area.y,
            width: minus_or_zero(area.width as int, 2) as u16,
            height: area.height,
        }),
{
    Area {
        x: area.x + 1,
        y: area.y,
        width: if area.width >= 2 {
            area.width - 2
        } else {
            0
        },
        height: area.height,
    }
}

/// The blanks between the left and the right text of a status bar `width`
/// cells wide: what the two texts leave free.
pub fn status_gap(width: u16, left_len: usize, right_len: usize) -> (gap: usize)
    ensures
        gap == minus_or_zero(width as int, left_len + right_len),
{
    let width = width as usize;
    if left_len >= width {
        return 0;
    }
    let free = width - left_len;
    if right_len >= free {
        0
    } else {
        free - right_len
    }
}

/// The column of the cursor behind an input line of `input_len` bytes, kept
/// within a line `width` cells wide.
pub fn cursor_column(input_len: usize, width: u16) -> (column: u16)
    ensures
        column == vstd::math::min(
            (input_len % 0x1_0000) as int,
            minus_or_zero(width as int, 1),
        ),
{
    let wrapped: u16 = (input_len % 0x1_0000) as u16;
    let last: u16 = if width >= 1 {
        width - 1
    } else {
        0
    };
    if wrapped <= last {
        wrapped
    } else {
        last
    }
}

/// The area of the help overlay on a screen of `width` by `height` cells:
/// at most sixty by eighteen, smaller than the screen by four where that is
/// less, and in the middle.
pub fn help_area(width: u16, height: u16) -> (popup: Area)
    ensures
        popup.width == vstd::math::min(
            HELP_MAX_WIDTH as int,
            minus_or_zero(width as int, HELP_CLEARANCE as int),
        ),
        popup.height == vstd::math::min(
            HELP_MAX_HEIGHT as int,
            minus_or_zero(height as int, HELP_CLEARANCE as int),
        ),
        popup.x == (width - popup.width) / 2,
        popup.y == (height - popup.height) / 2,
        popup.x + popup.width <= width,
        popup.y + popup.height <= height,
{
    let free_width: u16 = if width >= HELP_CLEARANCE {
        width - HELP_CLEARANCE
    } else {
        0
    };
    let free_height: u16 = if height >= HELP_CLEARANCE {
        height - HELP_CLEARANCE
    } else {
        0
    };
    let popup_width: u16 = if HELP_MAX_WIDTH <= free_width {
        HELP_MAX_WIDTH
    } else {
        free_width
    };
    let popup_height: u16 = if HELP_MAX_HEIGHT <= free_height {
        HELP_MAX_HEIGHT
    } else {
        free_height
    };
    Area {
        x: (width - popup_width) / 2,
        y: (height - popup_height) / 2,
        width: popup_width,
        height: popup_height,
    }
}

} // verus!
