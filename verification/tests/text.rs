use slightshot::text::{blend, GlyphAtlas, GlyphMetrics};

fn pixel(pm: &[u8], pw: usize, x: usize, y: usize) -> [u8; 4] {
    let i = (y * pw + x) * 4;
    [pm[i], pm[i + 1], pm[i + 2], pm[i + 3]]
}

#[test]
fn blend_clips_the_glyph_to_the_buffer() {
    let mut pm = vec![0u8; 3 * 2 * 4];
    // a 2x2 glyph whose bottom row hangs below the buffer
    blend(&mut pm, 3, 2, 1, 1, 2, 2, &[255, 128, 7, 7], [200, 10, 250]);
    assert_eq!(pixel(&pm, 3, 1, 1), [200, 10, 250, 255]);
    assert_eq!(pixel(&pm, 3, 2, 1), [100, 5, 125, 128]);
    for (x, y) in [(0, 0), (1, 0), (2, 0), (0, 1)] {
        assert_eq!(pixel(&pm, 3, x, y), [0, 0, 0, 0]);
    }
}

#[test]
fn blend_mixes_partial_coverage_and_saturates_alpha() {
    let mut pm = vec![100, 100, 100, 230];
    blend(&mut pm, 1, 1, 0, 0, 1, 1, &[64], [200, 10, 250]);
    assert_eq!(pm, vec![125, 77, 137, 255]);
    let mut untouched = vec![1, 2, 3, 4];
    blend(&mut untouched, 1, 1, 0, 0, 1, 1, &[0], [200, 10, 250]);
    assert_eq!(untouched, vec![1, 2, 3, 4]);
}

#[test]
fn blend_handles_glyphs_left_and_above_the_buffer() {
    let mut pm = vec![0u8; 2 * 2 * 4];
    // glyph 2x2 at (-1, -1): only its bottom-right pixel lands, on (0, 0)
    blend(&mut pm, 2, 2, -1, -1, 2, 2, &[9, 9, 9, 255], [1, 2, 3]);
    assert_eq!(pixel(&pm, 2, 0, 0), [1, 2, 3, 255]);
    assert_eq!(&pm[4..], &[0u8; 12]);
    let before = pm.clone();
    blend(&mut pm, 2, 2, 2, 0, 3, 3, &[255; 9], [1, 2, 3]);
    blend(&mut pm, 2, 2, -3, 0, 3, 3, &[255; 9], [1, 2, 3]);
    blend(&mut pm, 2, 2, 0, 0, 0, 3, &[], [1, 2, 3]);
    assert_eq!(pm, before);
}

fn metrics(width: usize, height: usize) -> GlyphMetrics {
    GlyphMetrics { width, height, xmin: 1, ymin: -2, advance_bits: 11.5f32.to_bits() }
}

#[test]
fn repeated_glyphs_reuse_the_atlas_without_regrowing_it() {
    let mut atlas = GlyphAtlas::new();
    let bits = 20.0f32.to_bits();
    assert!(atlas.lookup('M', bits).is_none());
    let slot = atlas.insert('M', bits, metrics(2, 2), &[1, 2, 3, 4]);
    let after_first = atlas.stored_bytes();
    let again = atlas.lookup('M', bits).expect("stored glyph");
    assert_eq!(again, slot);
    assert_eq!(atlas.stored_bytes(), after_first);
    assert_eq!(atlas.coverage(again), &[1, 2, 3, 4]);
    assert_eq!(f32::from_bits(again.advance_bits), 11.5);
}

#[test]
fn glyphs_are_kept_per_character_and_size() {
    let mut atlas = GlyphAtlas::new();
    let small = 10.0f32.to_bits();
    let large = 40.0f32.to_bits();
    let a = atlas.insert('a', small, metrics(1, 1), &[5]);
    let b = atlas.insert('a', large, metrics(1, 2), &[6, 7]);
    let c = atlas.insert('b', small, metrics(0, 0), &[]);
    assert_eq!((a.offset, a.len), (0, 1));
    assert_eq!((b.offset, b.len), (1, 2));
    assert_eq!((c.offset, c.len), (3, 0));
    assert_eq!(atlas.coverage(a), &[5]);
    assert_eq!(atlas.coverage(b), &[6, 7]);
    assert_eq!(atlas.lookup('b', large), None);
    assert_eq!(atlas.lookup('a', large), Some(b));
}

#[test]
fn blend_reads_only_visible_coverage_and_spares_trailing_bytes() {
    // a 2x2 image followed by 4 spare bytes; a 3x3 glyph at (1, 1) shows
    // only its top-left pixel, so coverage past index 0 is never read
    let mut pm = vec![0u8; 2 * 2 * 4 + 4];
    blend(&mut pm, 2, 2, 1, 1, 3, 3, &[255], [7, 8, 9]);
    assert_eq!(pixel(&pm, 2, 1, 1), [7, 8, 9, 255]);
    assert_eq!(&pm[..12], &[0u8; 12]);
    assert_eq!(&pm[16..], &[0u8; 4]);
}
