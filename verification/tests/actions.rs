use slightshot::actions::{png_bytes, stamp, stamp_for, stamp_since_epoch, Deliverable, PngError, Shot};
use std::io::Cursor;

#[test]
fn empty_shot_has_no_pixels() {
    let shot = Shot::empty();
    assert_eq!((shot.width, shot.height), (0, 0));
    assert!(shot.rgba.is_empty());
}

#[test]
fn stamp_names_a_png_in_the_slightshot_prefix() {
    let name = stamp();
    assert!(name.starts_with("slightshot_"));
    assert!(name.ends_with(".png"));
}

#[test]
fn png_round_trips_through_decode() {
    let shot = Shot {
        width: 2,
        height: 1,
        rgba: vec![10, 20, 30, 255, 40, 50, 60, 255],
    };
    let bytes = png_bytes(&shot).expect("encode");
    let decoder = png::Decoder::new(Cursor::new(bytes));
    let mut reader = decoder.read_info().expect("decode header");
    let info = reader.info();
    let (w, h) = (info.width, info.height);
    assert_eq!((w, h), (2, 1));
    let mut buf = vec![
        0;
        reader
            .output_buffer_size()
            .expect("the decoded PNG fits in memory")
    ];
    let _ = reader.next_frame(&mut buf).expect("decode frame");
    let expected = (w as usize) * (h as usize) * 4;
    assert_eq!(&buf[..expected], shot.rgba.as_slice());
}

#[test]
fn stamp_for_writes_the_seconds_in_decimal() {
    assert_eq!(stamp_for(0), "slightshot_0.png");
    assert_eq!(stamp_for(7), "slightshot_7.png");
    assert_eq!(stamp_for(1725029869), "slightshot_1725029869.png");
    assert_eq!(stamp_for(u64::MAX), "slightshot_18446744073709551615.png");
}

#[test]
fn png_bytes_rejects_empty_and_mismatched_shots() {
    assert_eq!(png_bytes(&Shot::empty()).unwrap_err(), PngError::EmptyImage);
    let short = Shot { width: 2, height: 2, rgba: vec![0; 15] };
    assert_eq!(png_bytes(&short).unwrap_err(), PngError::WrongLength);
    let zero_height = Shot { width: 3, height: 0, rgba: vec![] };
    assert_eq!(png_bytes(&zero_height).unwrap_err(), PngError::EmptyImage);
}

#[test]
fn png_bytes_start_with_the_png_signature() {
    let shot = Shot { width: 1, height: 1, rgba: vec![1, 2, 3, 255] };
    let bytes = png_bytes(&shot).unwrap();
    assert_eq!(&bytes[..8], &[137, 80, 78, 71, 13, 10, 26, 10]);
}

#[test]
fn deliverable_labels() {
    assert_eq!(Deliverable::Upload.label(), "Upload");
    assert_eq!(Deliverable::Copy.label(), "Copy");
    assert_eq!(Deliverable::Save.label(), "Save");
    assert_eq!(Deliverable::Close.label(), "Close");
}

#[test]
fn stamp_falls_back_to_zero_before_the_epoch() {
    assert_eq!(stamp_since_epoch(None), "slightshot_0.png");
    assert_eq!(stamp_since_epoch(Some(42)), "slightshot_42.png");
    assert_eq!(stamp_since_epoch(Some(0)), "slightshot_0.png");
}
