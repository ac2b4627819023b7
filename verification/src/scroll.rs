//! Vertical scrolling of the history pane.

use vstd::prelude::*;

verus! {

/// The largest offset at which the viewport still ends on the last line of
/// the content: zero when the content fits, else the overhang.
pub open spec fn max_offset(content_height: u16, viewport_height: u16) -> u16 {
    if content_height > viewport_height {
        (content_height - viewport_height) as u16
    } else {
        0
    }
}

/// The offset that `clamp` gives: `offset` itself, cut down to `max_offset`.
pub open spec fn clamped(content_height: u16, viewport_height: u16, offset: u16) -> u16 {
    if offset > max_offset(content_height, viewport_height) {
        max_offset(content_height, viewport_height)
    } else {
        offset
    }
}

/// Brings a scroll offset into the range in which the viewport shows content.
pub fn clamp(content_height: u16, viewport_height: u16, offset: u16) -> (r: u16)
    ensures
        r == clamped(content_height, viewport_height, offset),
        content_height <= viewport_height ==> r == 0,
        r <= offset,
{
    if content_height > viewport_height {
        let limit: u16 = content_height - viewport_height;
        if offset > limit {
            limit
        } else {
            offset
        }
    } else {
        0
    }
}

/// The offset one line up, or one line down, that stops at the ends of the
/// 16-bit range.
pub open spec fn stepped(offset: u16, up: bool) -> u16 {
    if up {
        if offset > 0 {
            (offset - 1) as u16
        } else {
            0
        }
    } else if offset < u16::MAX {
        (offset + 1) as u16
    } else {
        u16::MAX
    }
}

/// Moves a scroll offset by one line, up or down. The offset is held to
/// the 16-bit range, not to the height of the content.
pub fn scroll(offset: u16, up: bool) -> (r: u16)
    ensures
        r == stepped(offset, up),
{
    if up {
        if offset > 0 {
            offset - 1
        } else {
            0
        }
    } else if offset < u16::MAX {
        offset + 1
    } else {
        u16::MAX
    }
}

/// The offset at which the viewport ends on the last line of the content.
pub fn scroll_to_bottom(content_height: u16, viewport_height: u16) -> (r: u16)
    ensures
        r == max_offset(content_height, viewport_height),
        r == clamped(content_height, viewport_height, u16::MAX),
{
    clamp(content_height, viewport_height, u16::MAX)
}

} // verus!
