//! The selection's resize handles.

use vstd::prelude::*;

verus! {

#[derive(Clone, Copy, PartialEq, Eq, Debug, Structural)]
pub enum Handle {
    TopLeft,
    Top,
    TopRight,
    Left,
    Right,
    BottomLeft,
    Bottom,
    BottomRight,
}

/// Every handle, in the order they are tested against the pointer.
pub const HANDLES: [Handle; 8] = [
    Handle::TopLeft,
    Handle::Top,
    Handle::TopRight,
    Handle::Left,
    Handle::Right,
    Handle::BottomLeft,
    Handle::Bottom,
    Handle::BottomRight,
];

/// The pointer shape shown over the selection.
#[derive(Clone, Copy, PartialEq, Eq, Debug, Structural)]
pub enum ResizeCursor {
    /// Diagonal from top-left to bottom-right.
    NwseResize,
    /// Diagonal from bottom-left to top-right.
    NeswResize,
    /// Vertical.
    NsResize,
    /// Horizontal.
    EwResize,
    /// The ordinary arrow.
    Default,
}

/// The pointer shape for the handle under the pointer, if any: corners
/// resize diagonally, top and bottom vertically, left and right
/// horizontally.
pub open spec fn handle_cursor(handle: Option<Handle>) -> ResizeCursor {
    match handle {
        Some(Handle::TopLeft) | Some(Handle::BottomRight) => ResizeCursor::NwseResize,
        Some(Handle::BottomLeft) | Some(Handle::TopRight) => ResizeCursor::NeswResize,
        Some(Handle::Top) | Some(Handle::Bottom) => ResizeCursor::NsResize,
        Some(Handle::Left) | Some(Handle::Right) => ResizeCursor::EwResize,
        None => ResizeCursor::Default,
    }
}

pub fn cursor_for(handle: Option<Handle>) -> (c: ResizeCursor)
    ensures
        c == handle_cursor(handle),
{
    match handle {
        Some(Handle::TopLeft) | Some(Handle::BottomRight) => ResizeCursor::NwseResize,
        Some(Handle::BottomLeft) | Some(Handle::TopRight) => ResizeCursor::NeswResize,
        Some(Handle::Top) | Some(Handle::Bottom) => ResizeCursor::NsResize,
        Some(Handle::Left) | Some(Handle::Right) => ResizeCursor::EwResize,
        None => ResizeCursor::Default,
    }
}

} // verus!
