use slightshot::pixel::{swap_channels, swap_channels_to_words};

#[test]
fn swap_channels_matches_word_level_swap() {
    let src = [10u8, 20, 30, 0, 40, 50, 60, 99];
    let mut bytes = [0u8; 8];
    swap_channels(&src, &mut bytes);
    assert_eq!(bytes, [30, 20, 10, 255, 60, 50, 40, 255]);

    let mut words = [0u32; 2];
    swap_channels_to_words(&src, &mut words);
    assert_eq!(words[0].to_le_bytes(), [30, 20, 10, 255]);
    assert_eq!(words[1].to_le_bytes(), [60, 50, 40, 255]);
}

#[test]
fn swaps_channels_and_opaques_alpha() {
    let src = [
        10, 20, 30, 0, // BGRA -> RGBA 30,20,10,255
        40, 50, 60, 99, // -> 60,50,40,255
    ];
    let mut dst = vec![0u8; 8];
    swap_channels(&src, &mut dst);
    assert_eq!(dst, [30, 20, 10, 255, 60, 50, 40, 255]);
}

#[test]
fn converts_straight_rgba_rows_to_argb_words() {
    let rgba = [10u8, 20, 30, 0, 40, 50, 60, 99];
    let mut out = [0u32; 2];
    swap_channels_to_words(&rgba, &mut out);
    assert_eq!(out[0], (0xFFu32 << 24) | (10 << 16) | (20 << 8) | 30);
    assert_eq!(out[1], (0xFFu32 << 24) | (40 << 16) | (50 << 8) | 60);
}

#[test]
fn only_whole_pixels_that_fit_both_buffers_are_converted() {
    let src = [1u8, 2, 3, 4, 5, 6, 7];
    let mut dst = [9u8; 10];
    swap_channels(&src, &mut dst);
    assert_eq!(dst, [3, 2, 1, 255, 9, 9, 9, 9, 9, 9]);

    let mut words = [7u32; 3];
    swap_channels_to_words(&[1, 2, 3, 4, 5, 6, 7, 8], &mut words);
    assert_eq!(words, [0xFF01_0203, 0xFF05_0607, 7]);
}

#[test]
fn swapping_twice_restores_the_colours() {
    let src = [10u8, 20, 30, 40, 50, 60, 70, 80];
    let mut once = [0u8; 8];
    swap_channels(&src, &mut once);
    let mut twice = [0u8; 8];
    swap_channels(&once, &mut twice);
    assert_eq!(twice, [10, 20, 30, 255, 50, 60, 70, 255]);
}
