//! Toolbar icons and the tinting of their sprites.

use vstd::prelude::*;

verus! {

#[derive(Clone, Copy, PartialEq, Eq, Debug, Structural)]
pub enum Icon {
    Pen,
    Marker,
    Arrow,
    Outline,
    Line,
    Letter,
    Undo,
    Upload,
    CopyImage,
    Save,
    Close,
}

/// A colour channel of a tinted sprite pixel: the tint scaled by the
/// pixel's alpha, rounded (`(c * a + 128) * 257 / 2^16`, about `c * a / 255`).
pub open spec fn tinted_channel(c: u8, a: u8) -> u8 {
    ((((c as int) * (a as int) + 128) * 257) / 0x1_0000) as u8
}

/// Byte `j` of a sprite after tinting: colour channels take the tint
/// premultiplied by the pixel's alpha, alpha stays; bytes past the last
/// whole pixel stay.
pub open spec fn tinted_byte(old: Seq<u8>, color: [u8; 3], j: int) -> u8 {
    if j >= old.len() - old.len() % 4 || j % 4 == 3 {
        old[j]
    } else {
        tinted_channel(color[j % 4], old[j - j % 4 + 3])
    }
}

/// Paints every whole pixel of premultiplied RGBA rows in one colour,
/// keeping each pixel's alpha (the sprite's shape).
pub fn tint_pixels(data: &mut [u8], color: [u8; 3])
    ensures
        final(data)@.len() == old(data)@.len(),
        forall|j: int| 0 <= j < old(data)@.len() ==> #[trigger] final(data)@[j] == tinted_byte(old(data)@, color, j),
{
    let total = data.len() - data.len() % 4;
    let mut i: usize = 0;
    while i < total
        invariant
            i % 4 == 0,
            total % 4 == 0,
            i <= total,
            total == old(data)@.len() - old(data)@.len() % 4,
            data@.len() == old(data)@.len(),
            forall|j: int| 0 <= j < i ==> #[trigger] data@[j] == tinted_byte(old(data)@, color, j),
            forall|j: int| i <= j < data@.len() ==> #[trigger] data@[j] == old(data)@[j],
        decreases total - i,
    {
        let a = data[i + 3];
        data[i] = tint_channel(color[0], a);
        data[i + 1] = tint_channel(color[1], a);
        data[i + 2] = tint_channel(color[2], a);
        assert forall|j: int| 0 <= j < i + 4 implies #[trigger] data@[j] == tinted_byte(old(data)@, color, j) by {
            if j >= i {
                assert(j - i < 4);
                assert(j - j % 4 == i);
            }
        }
        i = i + 4;
    }
}

/// An opaque sprite pixel takes the tint exactly; a transparent one becomes black.
pub proof fn law_tint_preserves_coverage_extremes(c: u8)
    ensures
        tinted_channel(c, 255) == c,
        tinted_channel(c, 0) == 0,
{
    let v: u32 = c as u32;
    assert((((v * 255 + 128) * 257) / 0x1_0000) == v) by (bit_vector)
        requires
            v <= 255,
    ;
}

fn tint_channel(c: u8, a: u8) -> (r: u8)
    ensures
        r == tinted_channel(c, a),
{
    assert((c as int) * (a as int) <= 65025) by (nonlinear_arith)
        requires
            c <= 255,
            a <= 255,
    ;
    let v = ((c as u32) * (a as u32) + 128) * 257;
    assert(v >> 16 == v / 0x1_0000) by (bit_vector);
    (v >> 16) as u8
}

} // verus!
