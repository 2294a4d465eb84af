//! The overlay's decisions: what a toolbar command does to the session,
//! what a key press asks for, and what pressing and releasing the primary
//! button start and finish, given the geometric tests as booleans.

use crate::actions::{Deliverable, Shot};
use crate::annotate::{History, Tool, PALETTE_LEN};
use crate::geom::Handle;
use crate::render::Command;
use vstd::prelude::*;
use vstd::string::StrSliceExecFns;

verus! {

/// How an overlay session ends.
pub enum Outcome {
    Close,
    Deliver { deliverable: Deliverable, shot: Shot },
}

/// What the session has to do after a toolbar command.
#[derive(Clone, Copy, PartialEq, Eq, Debug, Structural)]
pub enum Reaction {
    /// Nothing beyond the state change.
    Nothing,
    /// The history changed: re-ink the committed shapes and redraw.
    Repaint,
    /// End the session without delivering.
    Close,
    /// Deliver the selection this way, if it can be delivered.
    Deliver(Deliverable),
}

/// Choosing a tool selects it, or returns to selection when it is already chosen.
pub open spec fn toggled_tool(current: Tool, chosen: Tool) -> Tool {
    if current == chosen {
        Tool::Select
    } else {
        chosen
    }
}

/// The tool and palette position that toolbar commands change.
pub struct ToolState {
    pub tool: Tool,
    pub palette_index: usize,
}

/// Carries out a toolbar command on the tool state and the history.
pub fn activate<S>(state: &mut ToolState, history: &mut History<S>, command: Command) -> (r: Reaction)
    requires
        old(state).palette_index < usize::MAX,
    ensures
        match command {
            Command::Tool(t) => final(state).tool == toggled_tool(old(state).tool, t)
                && final(state).palette_index == old(state).palette_index && final(history)@ == old(history)@
                && r == Reaction::Nothing,
            Command::NextColor => final(state).tool == old(state).tool && final(state).palette_index == (
            old(state).palette_index + 1) % (PALETTE_LEN as int) && final(history)@ == old(history)@ && r
                == Reaction::Nothing,
            Command::Undo => final(state).tool == old(state).tool && final(state).palette_index == old(
                state,
            ).palette_index && (if old(history)@.len() > 0 {
                final(history)@ == old(history)@.drop_last() && r == Reaction::Repaint
            } else {
                final(history)@ == old(history)@ && r == Reaction::Nothing
            }),
            Command::Close => final(state).tool == old(state).tool && final(state).palette_index == old(
                state,
            ).palette_index && final(history)@ == old(history)@ && r == Reaction::Close,
            Command::Deliver(d) => final(state).tool == old(state).tool && final(state).palette_index
                == old(state).palette_index && final(history)@ == old(history)@ && r == Reaction::Deliver(d),
        },
{
    match command {
        Command::Tool(tool) => {
            state.tool = if state.tool == tool {
                Tool::Select
            } else {
                tool
            };
            Reaction::Nothing
        },
        Command::NextColor => {
            state.palette_index = (state.palette_index + 1) % PALETTE_LEN;
            Reaction::Nothing
        },
        Command::Undo => {
            if history.undo() {
                Reaction::Repaint
            } else {
                Reaction::Nothing
            }
        },
        Command::Close => Reaction::Close,
        Command::Deliver(deliverable) => Reaction::Deliver(deliverable),
    }
}

/// A key press that the overlay reacts to.
pub enum KeyPress {
    Escape,
    Enter,
    Backspace,
    /// A key that produces text.
    Text(String),
}

/// What a key press asks of the session.
#[derive(PartialEq, Eq, Debug)]
pub enum KeyAction {
    /// Leave the overlay without delivering.
    EndSession,
    /// Commit the caption being typed.
    CommitLabel,
    /// Copy the selection to the clipboard.
    CopySelection,
    /// Step the current tool's size up.
    GrowSize,
    /// Step the current tool's size down.
    ShrinkSize,
    /// Add text to the caption being typed.
    TypeText(String),
    /// Remove the last character of the caption being typed.
    EraseChar,
}

/// Whether a key's text is exactly one given character.
pub open spec fn is_char(text: Seq<char>, c: char) -> bool {
    text == seq![c]
}

/// What a key press asks for: Ctrl+C copies; `[` and `]` shrink and grow
/// the size of a drawing tool when no caption is being typed; other text
/// goes to the caption.
pub open spec fn key_meaning(key: KeyPress, control: bool, tool: Tool, typing: bool) -> KeyAction {
    match key {
        KeyPress::Escape => KeyAction::EndSession,
        KeyPress::Enter => KeyAction::CommitLabel,
        KeyPress::Backspace => KeyAction::EraseChar,
        KeyPress::Text(text) => if (is_char(text@, 'c') || is_char(text@, 'C')) && control {
            KeyAction::CopySelection
        } else if (is_char(text@, '[') || is_char(text@, ']')) && tool != Tool::Select && !typing {
            if is_char(text@, ']') {
                KeyAction::GrowSize
            } else {
                KeyAction::ShrinkSize
            }
        } else {
            KeyAction::TypeText(text)
        },
    }
}

fn is_single(text: &str, c: char) -> (r: bool)
    ensures
        r == is_char(text@, c),
{
    if text.unicode_len() != 1 {
        assert(text@.len() != 1);
        assert(text@ != seq![c]);
        return false;
    }
    let first = text.get_char(0);
    if first == c {
        assert(text@ =~= seq![c]);
        true
    } else {
        assert(text@[0] != seq![c][0]);
        false
    }
}

/// Decides what a key press does, given whether Ctrl is held, the current
/// tool and whether a caption is being typed.
pub fn key_action(key: KeyPress, control: bool, tool: Tool, typing: bool) -> (a: KeyAction)
    ensures
        a == key_meaning(key, control, tool, typing),
{
    match key {
        KeyPress::Escape => KeyAction::EndSession,
        KeyPress::Enter => KeyAction::CommitLabel,
        KeyPress::Backspace => KeyAction::EraseChar,
        KeyPress::Text(text) => {
            let s = text.as_str();
            if (is_single(s, 'c') || is_single(s, 'C')) && control {
                KeyAction::CopySelection
            } else if (is_single(s, '[') || is_single(s, ']')) && tool.is_annotation() && !typing {
                if is_single(s, ']') {
                    KeyAction::GrowSize
                } else {
                    KeyAction::ShrinkSize
                }
            } else {
                KeyAction::TypeText(text)
            }
        },
    }
}

/// What a press of the primary button starts.
#[derive(Clone, Copy, PartialEq, Eq, Debug, Structural)]
pub enum Press {
    /// Activate the toolbar button under the pointer.
    Activate,
    /// Resize the selection by this handle.
    Resize(Handle),
    /// Drag the selection.
    Move,
    /// Drop the selection and drag out a new one.
    Rubber,
    /// Start typing a caption at the pointer.
    Type,
    /// Start a new shape of the current tool at the pointer.
    Draw,
}

/// What a press means: over a selection, a toolbar button wins; with the
/// selection tool, a handle under the pointer resizes and a point inside
/// the selection moves it; otherwise the selection tool starts a new
/// selection, the caption tool starts typing and a drawing tool starts a
/// shape.
pub open spec fn press_meaning(
    has_selection: bool,
    on_button: bool,
    tool: Tool,
    handle: Option<Handle>,
    inside_selection: bool,
) -> Press {
    if has_selection && on_button {
        Press::Activate
    } else if has_selection && tool == Tool::Select && handle is Some {
        Press::Resize(handle->0)
    } else if has_selection && tool == Tool::Select && inside_selection {
        Press::Move
    } else if tool == Tool::Select {
        Press::Rubber
    } else if tool == Tool::Label {
        Press::Type
    } else {
        Press::Draw
    }
}

/// Decides what a press of the primary button starts, given whether there
/// is a selection, whether the pointer is on a toolbar button, the current
/// tool, the selection handle under the pointer and whether the pointer is
/// inside the selection.
pub fn press_action(
    has_selection: bool,
    on_button: bool,
    tool: Tool,
    handle: Option<Handle>,
    inside_selection: bool,
) -> (p: Press)
    ensures
        p == press_meaning(has_selection, on_button, tool, handle, inside_selection),
{
    if has_selection {
        if on_button {
            return Press::Activate;
        }
        if tool == Tool::Select {
            if let Some(h) = handle {
                return Press::Resize(h);
            }
            if inside_selection {
                return Press::Move;
            }
        }
    }
    match tool {
        Tool::Select => Press::Rubber,
        Tool::Label => Press::Type,
        _ => Press::Draw,
    }
}

/// What the pointer is busy with, without the positions it carries.
#[derive(Clone, Copy, PartialEq, Eq, Debug, Structural)]
pub enum Gesture {
    Idle,
    Rubber,
    Draw,
    Move,
    Resize,
    Type,
}

/// What releasing the primary button finishes.
#[derive(Clone, Copy, PartialEq, Eq, Debug, Structural)]
pub enum Release {
    /// Keep the dragged-out selection if it is large enough to deliver.
    SettleSelection,
    /// Ink the finished shape and add it to the history.
    CommitShape,
    /// Nothing to finish.
    Nothing,
}

/// What a release finishes, and the gesture that follows it: a caption
/// being typed outlasts the release, every other gesture ends; a drawn
/// shape is kept only when complete.
pub open spec fn release_meaning(gesture: Gesture, shape_complete: bool) -> (Release, Gesture) {
    match gesture {
        Gesture::Rubber => (Release::SettleSelection, Gesture::Idle),
        Gesture::Draw => (if shape_complete {
            Release::CommitShape
        } else {
            Release::Nothing
        }, Gesture::Idle),
        Gesture::Type => (Release::Nothing, Gesture::Type),
        _ => (Release::Nothing, Gesture::Idle),
    }
}

/// Decides what releasing the primary button finishes, given the current
/// gesture and, while drawing, whether the shape is complete.
pub fn release_action(gesture: Gesture, shape_complete: bool) -> (r: (Release, Gesture))
    ensures
        r == release_meaning(gesture, shape_complete),
{
    match gesture {
        Gesture::Rubber => (Release::SettleSelection, Gesture::Idle),
        Gesture::Draw => {
            if shape_complete {
                (Release::CommitShape, Gesture::Idle)
            } else {
                (Release::Nothing, Gesture::Idle)
            }
        },
        Gesture::Type => (Release::Nothing, Gesture::Type),
        _ => (Release::Nothing, Gesture::Idle),
    }
}

/// A press followed by a release never leaves the pointer dragging: from an
/// idle session, or one typing a caption, the release leaves it idle or
/// typing, and typing only when the caption tool was pressed or a caption
/// was already being typed (a toolbar button keeps the gesture as it was).
pub proof fn law_press_then_release_settles(
    prior: Gesture,
    has_selection: bool,
    on_button: bool,
    tool: Tool,
    handle: Option<Handle>,
    inside_selection: bool,
    shape_complete: bool,
)
    requires
        prior == Gesture::Idle || prior == Gesture::Type,
    ensures
        ({
            let started = match press_meaning(has_selection, on_button, tool, handle, inside_selection) {
                Press::Activate => prior,
                Press::Resize(_) => Gesture::Resize,
                Press::Move => Gesture::Move,
                Press::Rubber => Gesture::Rubber,
                Press::Type => Gesture::Type,
                Press::Draw => Gesture::Draw,
            };
            let after = release_meaning(started, shape_complete).1;
            &&& after == Gesture::Idle || after == Gesture::Type
            &&& after == Gesture::Type ==> tool == Tool::Label || prior == Gesture::Type
        }),
{
}

/// What a press starts, case by case: a toolbar button under the pointer
/// (there are buttons only over a selection) wins; otherwise the caption
/// tool always starts typing and a drawing tool always starts a shape,
/// whatever the selection; only the selection tool resizes, moves or starts
/// a new selection, resizing by the handle under the pointer, moving when
/// the pointer is inside the selection off its handles, and starting afresh
/// when neither applies.
pub proof fn law_press_by_tool(
    has_selection: bool,
    on_button: bool,
    tool: Tool,
    handle: Option<Handle>,
    inside_selection: bool,
)
    ensures
        ({
            let p = press_meaning(has_selection, on_button, tool, handle, inside_selection);
            let button = has_selection && on_button;
            &&& p == Press::Activate <==> button
            &&& !button && tool == Tool::Label ==> p == Press::Type
            &&& !button && tool != Tool::Label && tool != Tool::Select ==> p == Press::Draw
            &&& p == Press::Type ==> tool == Tool::Label
            &&& p == Press::Draw ==> tool != Tool::Label && tool != Tool::Select
            &&& p is Resize ==> !button && has_selection && tool == Tool::Select && handle == Some(p->0)
            &&& !button && has_selection && tool == Tool::Select && handle is Some ==> p is Resize
            &&& p == Press::Move <==> (!button && has_selection && tool == Tool::Select && handle is None
                && inside_selection)
            &&& p == Press::Rubber <==> (!button && tool == Tool::Select && !(has_selection && (handle is Some
                || inside_selection)))
        }),
{
}

/// What a release finishes: only a dragged-out selection is settled, only a
/// complete shape being drawn is committed, and only a caption being typed
/// outlasts the release.
pub proof fn law_release_by_gesture(gesture: Gesture, shape_complete: bool)
    ensures
        ({
            let (r, next) = release_meaning(gesture, shape_complete);
            &&& r == Release::SettleSelection <==> gesture == Gesture::Rubber
            &&& r == Release::CommitShape <==> (gesture == Gesture::Draw && shape_complete)
            &&& next == Gesture::Type <==> gesture == Gesture::Type
            &&& next == Gesture::Idle <==> gesture != Gesture::Type
        }),
{
}

/// What a key press asks for, over every key and state: Escape, Enter and
/// Backspace always end the session, commit the caption and erase a
/// character; copying needs Ctrl held and the key `c` or `C`; sizes step
/// only for `[` (down) and `]` (up) with a drawing tool and no caption being
/// typed; any other text key types its text.
pub proof fn law_key_by_key(key: KeyPress, control: bool, tool: Tool, typing: bool)
    ensures
        ({
            let k = key_meaning(key, control, tool, typing);
            &&& key is Escape ==> k == KeyAction::EndSession
            &&& key is Enter ==> k == KeyAction::CommitLabel
            &&& key is Backspace ==> k == KeyAction::EraseChar
            &&& k == KeyAction::CopySelection ==> control && (key matches KeyPress::Text(t) && (t@ == seq!['c']
                || t@ == seq!['C']))
            &&& control && (key matches KeyPress::Text(t) && (t@ == seq!['c'] || t@ == seq!['C'])) ==> k
                == KeyAction::CopySelection
            &&& k == KeyAction::GrowSize ==> !typing && tool != Tool::Select && (key matches KeyPress::Text(t)
                && t@ == seq![']'])
            &&& k == KeyAction::ShrinkSize ==> !typing && tool != Tool::Select && (key matches KeyPress::Text(
                t,
            ) && t@ == seq!['['])
            &&& !typing && tool != Tool::Select && (key matches KeyPress::Text(t) && t@ == seq![']']) ==> k
                == KeyAction::GrowSize
            &&& !typing && tool != Tool::Select && (key matches KeyPress::Text(t) && t@ == seq!['[']) ==> k
                == KeyAction::ShrinkSize
            &&& (key matches KeyPress::Text(t) && !(control && (t@ == seq!['c'] || t@ == seq!['C'])) && !(
            !typing && tool != Tool::Select && (t@ == seq!['['] || t@ == seq![']']))) ==> k
                == KeyAction::TypeText(key->Text_0)
        }),
{
    if let KeyPress::Text(t) = key {
        let c = seq!['c'];
        let cc = seq!['C'];
        let open = seq!['['];
        let close = seq![']'];
        assert(c[0] == 'c' && cc[0] == 'C' && open[0] == '[' && close[0] == ']');
        assert(c != open && c != close && cc != open && cc != close && open != close);
    }
}

/// Choosing a tool other than the current one twice ends in selection.
pub proof fn law_tool_choice_toggles(current: Tool, chosen: Tool)
    requires
        current != chosen,
    ensures
        toggled_tool(current, chosen) == chosen,
        toggled_tool(toggled_tool(current, chosen), chosen) == Tool::Select,
{
}

/// Stepping through the palette from any colour comes back to it after a full cycle.
pub proof fn law_color_cycle_returns(start: int)
    requires
        0 <= start < PALETTE_LEN,
    ensures
        ({
            let step = |i: int| (i + 1) % (PALETTE_LEN as int);
            step(step(step(step(step(step(step(start))))))) == start
        }),
{
}

} // verus!
