//! Annotation tools, the colour palette and the undo history of committed
//! shapes.

use vstd::prelude::*;

verus! {

/// Number of colours in the palette.
pub const PALETTE_LEN: usize = 7;

/// The annotation colours, in the order the colour button cycles through them.
pub const PALETTE: [[u8; 3]; 7] = [
    [239, 68, 68],
    [249, 115, 22],
    [250, 204, 21],
    [34, 197, 94],
    [59, 130, 246],
    [255, 255, 255],
    [15, 23, 42],
];

/// Opacity of marker strokes.
pub const MARKER_ALPHA: u8 = 80;

/// The colour that a palette index selects: indices wrap around the palette.
pub open spec fn palette_color(index: int) -> [u8; 3] {
    PALETTE[index % (PALETTE_LEN as int)]
}

pub fn active_color(index: usize) -> (c: [u8; 3])
    ensures
        c == palette_color(index as int),
{
    PALETTE[index % PALETTE_LEN]
}

/// Advancing the palette index by a full cycle selects the same colour.
pub proof fn law_palette_is_cyclic(index: int)
    requires
        0 <= index,
    ensures
        palette_color(index + PALETTE_LEN) == palette_color(index),
{
}

#[derive(Clone, Copy, PartialEq, Eq, Debug, Hash, Structural)]
pub enum Tool {
    Select,
    Pen,
    Line,
    Arrow,
    Box,
    Marker,
    Label,
}

/// The name shown for a tool.
pub open spec fn tool_label(tool: Tool) -> Seq<char> {
    match tool {
        Tool::Select => "Select"@,
        Tool::Pen => "Pen"@,
        Tool::Line => "Line"@,
        Tool::Arrow => "Arrow"@,
        Tool::Box => "Rectangle"@,
        Tool::Marker => "Marker"@,
        Tool::Label => "Text"@,
    }
}

/// Every tool, in toolbar order.
pub open spec fn all_tools() -> Seq<Tool> {
    seq![Tool::Select, Tool::Pen, Tool::Line, Tool::Arrow, Tool::Box, Tool::Marker, Tool::Label]
}

impl Tool {
    /// Every tool but selection draws an annotation.
    pub fn is_annotation(self) -> (r: bool)
        ensures
            r == (self != Tool::Select),
    {
        !matches!(self, Tool::Select)
    }

    pub fn label(self) -> (s: &'static str)
        ensures
            s@ == tool_label(self),
    {
        match self {
            Tool::Select => "Select",
            Tool::Pen => "Pen",
            Tool::Line => "Line",
            Tool::Arrow => "Arrow",
            Tool::Box => "Rectangle",
            Tool::Marker => "Marker",
            Tool::Label => "Text",
        }
    }

    pub fn all() -> (tools: &'static [Tool])
        ensures
            tools@ == all_tools(),
    {
        &[Tool::Select, Tool::Pen, Tool::Line, Tool::Arrow, Tool::Box, Tool::Marker, Tool::Label]
    }
}

/// Committed shapes, oldest first; undo removes the newest.
pub struct History<S> {
    applied: Vec<S>,
}

impl<S> View for History<S> {
    type V = Seq<S>;

    closed spec fn view(&self) -> Seq<S> {
        self.applied@
    }
}

impl<S> Default for History<S> {
    fn default() -> (h: Self)
        ensures
            h@ == Seq::<S>::empty(),
    {
        History { applied: Vec::new() }
    }
}

impl<S> History<S> {
    pub fn push(&mut self, shape: S)
        ensures
            final(self)@ == old(self)@.push(shape),
    {
        self.applied.push(shape);
    }

    /// Removes the newest shape; reports whether there was one.
    pub fn undo(&mut self) -> (removed: bool)
        ensures
            removed == (old(self)@.len() > 0),
            removed ==> final(self)@ == old(self)@.drop_last(),
            !removed ==> final(self)@ == old(self)@,
    {
        self.applied.pop().is_some()
    }

    pub fn shapes(&self) -> (s: &[S])
        ensures
            s@ == self@,
    {
        self.applied.as_slice()
    }

    pub fn can_undo(&self) -> (r: bool)
        ensures
            r == (self@.len() > 0),
    {
        !self.applied.is_empty()
    }
}

/// Undoing right after a push gives back the history as it was.
pub proof fn law_undo_reverts_push<S>(before: Seq<S>, shape: S)
    ensures
        before.push(shape).len() > 0,
        before.push(shape).drop_last() == before,
{
    assert(before.push(shape).drop_last() =~= before);
}

} // verus!
