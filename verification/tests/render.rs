use slightshot::actions::Deliverable;
use slightshot::annotate::Tool;
use slightshot::draw::{tint_pixels, Icon};
use slightshot::render::{blit, dimmed_copy, dimmed_pixels, pixmap_from_pixels, Command, Panels};
use tiny_skia::Pixmap;

#[test]
fn dimmed_copy_darkens_rgb_and_keeps_alpha() {
    let mut pm = Pixmap::new(2, 1).unwrap();
    pm.data_mut()
        .copy_from_slice(&[200, 100, 50, 255, 10, 20, 30, 128]);
    let dimmed = dimmed_copy(&pm);
    let px = dimmed.data();
    assert_eq!(px[0], ((200 * 150 + 127) / 255) as u8);
    assert_eq!(px[3], 255);
    assert_eq!(px[7], 128);
}

#[test]
fn dimmed_pixels_round_every_channel() {
    let out = dimmed_pixels(&[255, 0, 1, 7, 128, 2, 3, 0]);
    assert_eq!(out, vec![150, 0, 1, 7, 75, 1, 2, 0]);
}

#[test]
fn command_label_names_every_button() {
    let cases = [
        (Command::Tool(Tool::Select), "Select"),
        (Command::Tool(Tool::Pen), "Pen"),
        (Command::Tool(Tool::Line), "Line"),
        (Command::Tool(Tool::Arrow), "Arrow"),
        (Command::Tool(Tool::Box), "Rectangle"),
        (Command::Tool(Tool::Marker), "Marker"),
        (Command::Tool(Tool::Label), "Text"),
        (Command::NextColor, "Next color"),
        (Command::Undo, "Undo"),
        (Command::Close, "Close"),
        (Command::Deliver(Deliverable::Upload), "Upload"),
        (Command::Deliver(Deliverable::Copy), "Copy"),
        (Command::Deliver(Deliverable::Save), "Save"),
    ];
    for (command, expected) in cases {
        assert_eq!(command.label(), expected);
    }
}

#[test]
fn refresh_lays_out_panels_and_marks_state() {
    let mut panels = Panels::new();
    panels.refresh(Tool::Pen, false, false);
    assert_eq!(panels.tools.len(), 8);
    assert_eq!(panels.actions.len(), 4);
    assert!(panels.tools[0].active);
    assert!(panels.tools[1..].iter().all(|b| !b.active));
    assert!(!panels.tools[7].enabled);
    assert_eq!(panels.tools[7].command, Command::Undo);
    assert_eq!(panels.tools[6].command, Command::NextColor);
    assert!(panels.actions[..3].iter().all(|b| !b.enabled));
    let close = panels.actions.iter().find(|b| b.command == Command::Close);
    assert!(close.is_some_and(|b| b.enabled));

    panels.refresh(Tool::Marker, true, true);
    assert!(panels.tools[4].active);
    assert!(!panels.tools[0].active);
    assert!(panels.tools[7].enabled);
    assert!(panels.actions.iter().all(|b| b.enabled));
    assert_eq!(panels.actions[1].icon, Icon::CopyImage);

    panels.refresh(Tool::Select, false, false);
    assert!(panels.tools.iter().all(|b| !b.active));
}

#[test]
fn blit_copies_a_block_between_strides() {
    let source: Vec<u8> = (0..48).collect();
    let mut dest = vec![0u8; 48];
    // 2x2 pixels from (1, 1) of a 4-pixel-wide source to (0, 1) of a 4-pixel-wide dest
    blit(&mut dest, 4, 0, 1, &source, 4, 1, 1, 2, 2);
    let mut expected = vec![0u8; 48];
    expected[16..24].copy_from_slice(&source[20..28]);
    expected[32..40].copy_from_slice(&source[36..44]);
    assert_eq!(dest, expected);

    let mut crop = vec![0u8; 8];
    blit(&mut crop, 1, 0, 0, &source, 4, 2, 0, 1, 2);
    assert_eq!(crop, [8, 9, 10, 11, 24, 25, 26, 27]);
}

#[test]
fn tint_keeps_shape_and_paints_colour() {
    let mut data = vec![1, 2, 3, 255, 9, 9, 9, 0, 50, 50, 50, 128, 77];
    tint_pixels(&mut data, [240, 100, 0]);
    assert_eq!(&data[..4], &[240, 100, 0, 255]);
    assert_eq!(&data[4..8], &[0, 0, 0, 0]);
    assert_eq!(&data[8..12], &[120, 50, 0, 128]);
    assert_eq!(data[12], 77);
}

#[test]
fn dimming_never_brightens() {
    let all: Vec<u8> = (0..=255).collect();
    let out = dimmed_pixels(&all);
    for (j, (&before, &after)) in all.iter().zip(out.iter()).enumerate() {
        if j % 4 == 3 {
            assert_eq!(after, before);
        } else {
            assert!(after <= before);
        }
    }
}

#[test]
fn tint_is_exact_on_opaque_and_transparent_pixels() {
    for c in 0..=255u8 {
        let mut px = vec![9, 9, 9, 255, 9, 9, 9, 0];
        tint_pixels(&mut px, [c, 255 - c, c / 2]);
        assert_eq!(px, vec![c, 255 - c, c / 2, 255, 0, 0, 0, 0]);
    }
}

#[test]
fn refreshing_twice_changes_nothing() {
    let mut panels = Panels::new();
    panels.refresh(Tool::Arrow, true, false);
    let first: Vec<_> = panels.tools.iter().chain(panels.actions.iter()).copied().collect();
    panels.refresh(Tool::Arrow, true, false);
    let second: Vec<_> = panels.tools.iter().chain(panels.actions.iter()).copied().collect();
    assert_eq!(first, second);
}

#[test]
fn pixmap_from_pixels_takes_exactly_width_by_height_pixels() {
    let pm = pixmap_from_pixels(vec![200, 100, 50, 255, 10, 20, 30, 128], 2, 1).unwrap();
    assert_eq!((pm.width(), pm.height()), (2, 1));
    assert_eq!(pm.data(), &[200, 100, 50, 255, 10, 20, 30, 128]);
    assert!(pixmap_from_pixels(vec![0; 12], 2, 1).is_none());
    assert!(pixmap_from_pixels(vec![0; 4], 1, 2).is_none());
    assert!(pixmap_from_pixels(Vec::new(), 0, 1).is_none());
    assert!(pixmap_from_pixels(Vec::new(), 1, 0).is_none());
    let dimmed = dimmed_copy(&pm);
    assert_eq!(dimmed.data()[4..], [6, 12, 18, 128]);
}

#[test]
fn blit_leaves_bytes_outside_the_rows_alone() {
    let source = vec![9u8; 32];
    let mut dest: Vec<u8> = (100..132).collect();
    // one pixel per row, two rows, in a 4-pixel-wide destination
    blit(&mut dest, 4, 2, 0, &source, 4, 0, 0, 1, 2);
    for (i, b) in dest.iter().enumerate() {
        if (8..12).contains(&i) || (24..28).contains(&i) {
            assert_eq!(*b, 9);
        } else {
            assert_eq!(*b as usize, 100 + i);
        }
    }
}
