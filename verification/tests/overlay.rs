use slightshot::actions::Deliverable;
use slightshot::annotate::{History, Tool};
use slightshot::geom::{cursor_for, Handle, ResizeCursor, HANDLES};
use slightshot::hotkey::Trigger;
use slightshot::overlay::{
    activate, key_action, press_action, release_action, Gesture, KeyAction, KeyPress, Press, Reaction,
    Release, ToolState,
};
use slightshot::render::Command;

#[test]
fn choosing_a_tool_twice_returns_to_selection() {
    let mut state = ToolState { tool: Tool::Select, palette_index: 0 };
    let mut history: History<u8> = History::default();
    assert_eq!(activate(&mut state, &mut history, Command::Tool(Tool::Pen)), Reaction::Nothing);
    assert_eq!(state.tool, Tool::Pen);
    activate(&mut state, &mut history, Command::Tool(Tool::Arrow));
    assert_eq!(state.tool, Tool::Arrow);
    activate(&mut state, &mut history, Command::Tool(Tool::Arrow));
    assert_eq!(state.tool, Tool::Select);
}

#[test]
fn next_color_cycles_the_palette() {
    let mut state = ToolState { tool: Tool::Pen, palette_index: 5 };
    let mut history: History<u8> = History::default();
    activate(&mut state, &mut history, Command::NextColor);
    assert_eq!(state.palette_index, 6);
    activate(&mut state, &mut history, Command::NextColor);
    assert_eq!(state.palette_index, 0);
    for _ in 0..7 {
        activate(&mut state, &mut history, Command::NextColor);
    }
    assert_eq!(state.palette_index, 0);
}

#[test]
fn undo_repaints_only_when_something_was_undone() {
    let mut state = ToolState { tool: Tool::Pen, palette_index: 0 };
    let mut history = History::default();
    history.push(1u8);
    assert_eq!(activate(&mut state, &mut history, Command::Undo), Reaction::Repaint);
    assert!(!history.can_undo());
    assert_eq!(activate(&mut state, &mut history, Command::Undo), Reaction::Nothing);
    assert_eq!(activate(&mut state, &mut history, Command::Close), Reaction::Close);
    assert_eq!(
        activate(&mut state, &mut history, Command::Deliver(Deliverable::Save)),
        Reaction::Deliver(Deliverable::Save)
    );
}

#[test]
fn handles_map_to_resize_cursors() {
    assert_eq!(cursor_for(Some(Handle::TopLeft)), ResizeCursor::NwseResize);
    assert_eq!(cursor_for(Some(Handle::BottomRight)), ResizeCursor::NwseResize);
    assert_eq!(cursor_for(Some(Handle::TopRight)), ResizeCursor::NeswResize);
    assert_eq!(cursor_for(Some(Handle::Top)), ResizeCursor::NsResize);
    assert_eq!(cursor_for(Some(Handle::Right)), ResizeCursor::EwResize);
    assert_eq!(cursor_for(None), ResizeCursor::Default);
    assert_eq!(HANDLES.len(), 8);
    assert_ne!(Trigger::Capture, Trigger::Quit);
}

fn text(s: &str) -> KeyPress {
    KeyPress::Text(s.to_string())
}

#[test]
fn keys_map_to_session_actions() {
    assert_eq!(key_action(KeyPress::Escape, false, Tool::Pen, false), KeyAction::EndSession);
    assert_eq!(key_action(KeyPress::Enter, false, Tool::Label, true), KeyAction::CommitLabel);
    assert_eq!(key_action(KeyPress::Backspace, false, Tool::Label, true), KeyAction::EraseChar);
    assert_eq!(key_action(text("c"), true, Tool::Pen, false), KeyAction::CopySelection);
    assert_eq!(key_action(text("C"), true, Tool::Label, true), KeyAction::CopySelection);
    assert_eq!(key_action(text("c"), false, Tool::Label, true), KeyAction::TypeText("c".to_string()));
    assert_eq!(key_action(text("]"), false, Tool::Marker, false), KeyAction::GrowSize);
    assert_eq!(key_action(text("["), false, Tool::Marker, false), KeyAction::ShrinkSize);
    assert_eq!(key_action(text("["), false, Tool::Select, false), KeyAction::TypeText("[".to_string()));
    assert_eq!(key_action(text("]"), false, Tool::Label, true), KeyAction::TypeText("]".to_string()));
    assert_eq!(key_action(text("cc"), true, Tool::Pen, false), KeyAction::TypeText("cc".to_string()));
}

#[test]
fn a_press_picks_button_then_handle_then_inside_then_tool() {
    let top = Some(Handle::Top);
    assert_eq!(press_action(true, true, Tool::Select, top, true), Press::Activate);
    assert_eq!(press_action(true, false, Tool::Select, top, true), Press::Resize(Handle::Top));
    assert_eq!(press_action(true, false, Tool::Select, None, true), Press::Move);
    assert_eq!(press_action(true, false, Tool::Select, None, false), Press::Rubber);
    assert_eq!(press_action(true, false, Tool::Pen, top, true), Press::Draw);
    assert_eq!(press_action(false, true, Tool::Select, top, true), Press::Rubber);
    assert_eq!(press_action(false, false, Tool::Label, None, false), Press::Type);
    assert_eq!(press_action(false, false, Tool::Arrow, None, false), Press::Draw);
}

#[test]
fn a_release_ends_every_drag_but_keeps_a_caption() {
    assert_eq!(release_action(Gesture::Rubber, false), (Release::SettleSelection, Gesture::Idle));
    assert_eq!(release_action(Gesture::Draw, true), (Release::CommitShape, Gesture::Idle));
    assert_eq!(release_action(Gesture::Draw, false), (Release::Nothing, Gesture::Idle));
    assert_eq!(release_action(Gesture::Move, true), (Release::Nothing, Gesture::Idle));
    assert_eq!(release_action(Gesture::Resize, false), (Release::Nothing, Gesture::Idle));
    assert_eq!(release_action(Gesture::Idle, false), (Release::Nothing, Gesture::Idle));
    assert_eq!(release_action(Gesture::Type, false), (Release::Nothing, Gesture::Type));
}
