use slightshot::annotate::{active_color, History, Tool, PALETTE};

#[derive(Clone, Debug, PartialEq)]
struct Caption {
    at: (f32, f32),
    text: String,
    color: [u8; 3],
    size: f32,
}

fn dot(x: f32, y: f32) -> Caption {
    Caption {
        at: (x, y),
        text: "x".to_string(),
        color: PALETTE[0],
        size: 20.0,
    }
}

#[test]
fn undo_empties_the_history_in_reverse_order() {
    let mut history = History::default();
    history.push(dot(1.0, 1.0));
    history.push(dot(2.0, 2.0));
    assert!(history.undo());
    assert_eq!(history.shapes().len(), 1);
    assert_eq!(history.shapes()[0], dot(1.0, 1.0));
    assert!(history.undo());
    assert!(history.shapes().is_empty());
    assert!(!history.undo());
}

#[test]
fn can_undo_tracks_the_history() {
    let mut history: History<u32> = History::default();
    assert!(!history.can_undo());
    history.push(4);
    assert!(history.can_undo());
    history.push(5);
    assert!(history.undo());
    assert_eq!(history.shapes(), &[4]);
    assert!(history.undo());
    assert!(!history.can_undo());
}

#[test]
fn palette_indices_wrap_around() {
    assert_eq!(active_color(0), [239, 68, 68]);
    assert_eq!(active_color(6), [15, 23, 42]);
    assert_eq!(active_color(7), [239, 68, 68]);
    assert_eq!(active_color(9), [250, 204, 21]);
    for i in 0..20 {
        assert_eq!(active_color(i + 7), active_color(i));
    }
}

#[test]
fn tools_and_their_labels() {
    assert_eq!(
        Tool::all(),
        &[Tool::Select, Tool::Pen, Tool::Line, Tool::Arrow, Tool::Box, Tool::Marker, Tool::Label]
    );
    assert_eq!(Tool::Box.label(), "Rectangle");
    assert_eq!(Tool::Label.label(), "Text");
    assert!(!Tool::Select.is_annotation());
    assert!(Tool::all().iter().skip(1).all(|t| t.is_annotation()));
}
