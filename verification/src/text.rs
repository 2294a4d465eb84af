//! Glyph compositing onto RGBA rows, and the atlas that keeps rasterised
//! glyph coverage for reuse.

use std::collections::HashMap;
use vstd::prelude::*;

verus! {

/// Channel `ch` of a destination pixel after laying a glyph pixel of colour
/// `rgb` and coverage `a` over the stored byte `old`: no coverage keeps the
/// pixel, full coverage replaces it with the opaque colour, anything between
/// mixes the colour channels in proportion (scaled by 32897 / 2^23, about
/// 1 / 255) and adds the coverage to alpha, saturating at 255.
pub open spec fn blend_byte(old: u8, ch: int, rgb: [u8; 3], a: int) -> u8 {
    if a == 0 {
        old
    } else if a == 255 {
        if ch < 3 {
            rgb[ch]
        } else {
            255u8
        }
    } else if ch < 3 {
        ((((old as int) * (255 - a) + (rgb[ch] as int) * a) * 32897) / 0x80_0000) as u8
    } else if old + a > 255 {
        255u8
    } else {
        (old + a) as u8
    }
}

/// Column of the pixel that byte `j` of an RGBA buffer `pw` pixels wide belongs to.
pub open spec fn pixel_x(pw: int, j: int) -> int {
    (j / 4) % pw
}

/// Row of the pixel that byte `j` of an RGBA buffer `pw` pixels wide belongs to.
pub open spec fn pixel_y(pw: int, j: int) -> int {
    (j / 4) / pw
}

/// Whether the glyph box at (`gx`, `gy`), `gw` by `gh` pixels, lies over the
/// pixel of byte `j`.
pub open spec fn glyph_covers(pw: int, gx: int, gy: int, gw: int, gh: int, j: int) -> bool {
    &&& gx <= pixel_x(pw, j) < gx + gw
    &&& gy <= pixel_y(pw, j) < gy + gh
}

/// The glyph coverage (row-major, `gw` per row) over the pixel of byte `j`.
pub open spec fn coverage_at(coverage: Seq<u8>, pw: int, gx: int, gy: int, gw: int, j: int) -> int {
    coverage[(pixel_y(pw, j) - gy) * gw + (pixel_x(pw, j) - gx)] as int
}

/// Byte `j` of the destination after a glyph is composited onto `old`.
pub open spec fn glyph_blended(
    old: Seq<u8>,
    pw: int,
    gx: int,
    gy: int,
    gw: int,
    gh: int,
    coverage: Seq<u8>,
    rgb: [u8; 3],
    j: int,
) -> u8 {
    if glyph_covers(pw, gx, gy, gw, gh, j) {
        blend_byte(old[j], j % 4, rgb, coverage_at(coverage, pw, gx, gy, gw, j))
    } else {
        old[j]
    }
}

/// The glyph box is non-empty and starts before the right and bottom edges.
pub open spec fn glyph_starts_inside(pw: int, ph: int, gx: int, gy: int, gw: int, gh: int) -> bool {
    gw > 0 && gh > 0 && gx < pw && gy < ph
}

proof fn lemma_pixel_of_byte(pw: int, x: int, y: int, ch: int)
    requires
        0 <= x < pw,
        0 <= y,
        0 <= ch < 4,
    ensures
        ((y * pw + x) * 4 + ch) / 4 == y * pw + x,
        ((y * pw + x) * 4 + ch) % 4 == ch,
        pixel_x(pw, (y * pw + x) * 4 + ch) == x,
        pixel_y(pw, (y * pw + x) * 4 + ch) == y,
{
    vstd::arithmetic::div_mod::lemma_fundamental_div_mod_converse((y * pw + x) * 4 + ch, 4, y * pw + x, ch);
    vstd::arithmetic::mul::lemma_mul_is_commutative(y, pw);
    vstd::arithmetic::div_mod::lemma_fundamental_div_mod_converse(y * pw + x, pw, y, x);
}

proof fn lemma_byte_of_pixel(pw: int, j: int)
    requires
        0 < pw,
        0 <= j,
    ensures
        j / 4 == pixel_y(pw, j) * pw + pixel_x(pw, j),
        0 <= pixel_x(pw, j) < pw,
        0 <= pixel_y(pw, j),
        0 <= j % 4 < 4,
        j == (j / 4) * 4 + j % 4,
{
    vstd::arithmetic::div_mod::lemma_fundamental_div_mod(j / 4, pw);
    vstd::arithmetic::mul::lemma_mul_is_commutative(pw, (j / 4) / pw);
    vstd::arithmetic::div_mod::lemma_fundamental_div_mod(j, 4);
}

proof fn lemma_pixel_in_buffer(pw: int, ph: int, j: int)
    requires
        0 <= pw,
        0 <= ph,
        0 <= j < pw * ph * 4,
    ensures
        pw > 0,
        ph > 0,
        j / 4 == pixel_y(pw, j) * pw + pixel_x(pw, j),
        0 <= pixel_x(pw, j) < pw,
        0 <= pixel_y(pw, j) < ph,
        0 <= j % 4 < 4,
        j == (j / 4) * 4 + j % 4,
{
    if pw == 0 {
        assert(pw * ph * 4 == 0);
    }
    if ph == 0 {
        assert(pw * ph * 4 == 0);
    }
    lemma_byte_of_pixel(pw, j);
    assert(j / 4 < pw * ph) by (nonlinear_arith)
        requires
            0 <= j < pw * ph * 4,
    ;
    if pixel_y(pw, j) >= ph {
        assert(pixel_y(pw, j) * pw + pixel_x(pw, j) >= pw * ph) by (nonlinear_arith)
            requires
                pixel_y(pw, j) >= ph,
                pw > 0,
                pixel_x(pw, j) >= 0,
        ;
    }
}

/// One past the last glyph column that lands inside a buffer `pw` pixels wide.
pub open spec fn clipped_col_end(pw: int, gx: int, gw: int) -> int {
    if gw < pw - gx {
        gw
    } else {
        pw - gx
    }
}

/// One past the last glyph row that lands inside a buffer `ph` pixels high.
pub open spec fn clipped_row_end(ph: int, gy: int, gh: int) -> int {
    if gh < ph - gy {
        gh
    } else {
        ph - gy
    }
}

/// Whether some pixel of the glyph box lands inside a non-empty buffer, so
/// that compositing reads coverage and writes pixels.
pub open spec fn glyph_visible(pw: int, ph: int, gx: int, gy: int, gw: int, gh: int) -> bool {
    &&& pw > 0 && ph > 0
    &&& glyph_starts_inside(pw, ph, gx, gy, gw, gh)
    &&& gx + gw > 0 && gy + gh > 0
}

/// Composites a glyph's coverage (`gw` by `gh`, row-major) in colour `rgb`
/// onto an RGBA buffer `pw` by `ph` pixels, with the glyph's top-left
/// corner at (`gx`, `gy`); the parts of the glyph outside the buffer are
/// clipped away. Only the coverage of visible glyph pixels is read and only
/// the bytes of the pixels they land on are written; bytes past the
/// `pw` by `ph` image are left alone.
pub fn blend(
    pm: &mut [u8],
    pw: i32,
    ph: i32,
    gx: i32,
    gy: i32,
    gw: i32,
    gh: i32,
    coverage: &[u8],
    rgb: [u8; 3],
)
    requires
        pw >= 0,
        ph >= 0,
        glyph_starts_inside(pw as int, ph as int, gx as int, gy as int, gw as int, gh as int) ==> gx + gw
            <= i32::MAX,
        glyph_starts_inside(pw as int, ph as int, gx as int, gy as int, gw as int, gh as int) && gx + gw
            > 0 ==> gy + gh <= i32::MAX,
        glyph_starts_inside(pw as int, ph as int, gx as int, gy as int, gw as int, gh as int) && gx + gw
            > 0 && gy + gh > 0 ==> pw - gx <= i32::MAX && ph - gy <= i32::MAX,
        glyph_visible(pw as int, ph as int, gx as int, gy as int, gw as int, gh as int) ==> coverage@.len()
            >= (clipped_row_end(ph as int, gy as int, gh as int) - 1) * gw + clipped_col_end(
            pw as int,
            gx as int,
            gw as int,
        ),
        glyph_visible(pw as int, ph as int, gx as int, gy as int, gw as int, gh as int) ==> old(pm)@.len()
            >= ((gy + clipped_row_end(ph as int, gy as int, gh as int) - 1) * pw + gx + clipped_col_end(
            pw as int,
            gx as int,
            gw as int,
        )) * 4,
    ensures
        final(pm)@.len() == old(pm)@.len(),
        forall|j: int|
            0 <= j < old(pm)@.len() ==> #[trigger] final(pm)@[j] == (if j < pw * ph * 4 {
                glyph_blended(
                    old(pm)@,
                    pw as int,
                    gx as int,
                    gy as int,
                    gw as int,
                    gh as int,
                    coverage@,
                    rgb,
                    j,
                )
            } else {
                old(pm)@[j]
            }),
{
    if gw <= 0 || gh <= 0 || gx >= pw || gy >= ph || gx + gw <= 0 || gy + gh <= 0 || pw == 0 || ph == 0 {
        proof {
            assert forall|j: int| 0 <= j < old(pm)@.len() implies #[trigger] pm@[j] == (if j < pw * ph * 4 {
                glyph_blended(
                    old(pm)@,
                    pw as int,
                    gx as int,
                    gy as int,
                    gw as int,
                    gh as int,
                    coverage@,
                    rgb,
                    j,
                )
            } else {
                old(pm)@[j]
            }) by {
                if j < pw * ph * 4 {
                    lemma_pixel_in_buffer(pw as int, ph as int, j);
                }
            }
        }
        return;
    }
    let col_start: i32 = if -gx > 0 {
        -gx
    } else {
        0
    };
    let col_end: i32 = if gw < pw - gx {
        gw
    } else {
        pw - gx
    };
    let row_start: i32 = if -gy > 0 {
        -gy
    } else {
        0
    };
    let row_end: i32 = if gh < ph - gy {
        gh
    } else {
        ph - gy
    };
    let cols = col_end - col_start;
    let ghost pwi = pw as int;
    let ghost phi = ph as int;
    let ghost o = old(pm)@;
    let ghost last = ((gy + row_end - 1) * pwi + gx + col_end) * 4;
    let pwu = pw as usize;
    let gwu = gw as usize;
    let ncols = cols as usize;
    let px0 = (gx + col_start) as usize;
    let mut row: i32 = row_start;
    while row < row_end
        invariant
            row_start <= row <= row_end,
            col_start == (if -gx > 0 { -gx } else { 0int }),
            col_end == clipped_col_end(pw as int, gx as int, gw as int),
            row_start == (if -gy > 0 { -gy } else { 0int }),
            row_end == clipped_row_end(ph as int, gy as int, gh as int),
            ncols == col_end - col_start,
            px0 == gx + col_start,
            pwu == pw,
            gwu == gw,
            pwi == pw,
            phi == ph,
            pw > 0,
            ph > 0,
            ncols > 0,
            0 < gw,
            0 < gh,
            gx < pw,
            gy < ph,
            gx + gw > 0,
            gy + gh > 0,
            last == ((gy + row_end - 1) * pwi + gx + col_end) * 4,
            o.len() >= last,
            coverage@.len() >= (row_end - 1) * gw + col_end,
            pm@.len() == o.len(),
            o == old(pm)@,
            forall|j: int|
                0 <= j < o.len() ==> #[trigger] pm@[j] == (if j < pwi * phi * 4 && glyph_covers(
                    pwi,
                    gx as int,
                    gy as int,
                    gw as int,
                    gh as int,
                    j,
                ) && pixel_y(pwi, j) < gy + row {
                    glyph_blended(o, pwi, gx as int, gy as int, gw as int, gh as int, coverage@, rgb, j)
                } else {
                    o[j]
                }),
        decreases row_end - row,
    {
        let y0 = (gy + row) as usize;
        assert((row as int) * (gw as int) <= (row_end - 1) * gw) by (nonlinear_arith)
            requires
                0 <= row < row_end,
                gw > 0,
        ;
        assert((y0 as int) * pwi + pwi <= pwi * phi) by (nonlinear_arith)
            requires
                0 <= y0 < phi,
                pwi > 0,
        ;
        assert((y0 as int) * pwi <= (gy + row_end - 1) * pwi) by (nonlinear_arith)
            requires
                y0 <= gy + row_end - 1,
                pwi > 0,
        ;
        assert(coverage@.len() == coverage.len());
        assert(pm@.len() == pm.len());
        let cov_base = (row as usize) * gwu + (col_start as usize);
        let di0 = (y0 * pwu + px0) * 4;
        let mut c: usize = 0;
        while c < ncols
            invariant
                c <= ncols,
                ncols == col_end - col_start,
                col_end <= gw,
                col_end <= pw - gx,
                col_start >= 0,
                col_start >= -gx,
                px0 == gx + col_start,
                y0 == gy + row,
                0 <= row < gh,
                0 <= y0 < ph,
                cov_base == row * gw + col_start,
                di0 == (y0 * pwi + px0) * 4,
                (row as int) * (gw as int) <= (row_end - 1) * gw,
                (y0 as int) * pwi + pwi <= pwi * phi,
                (y0 as int) * pwi <= (gy + row_end - 1) * pwi,
                pwi == pw,
                phi == ph,
                0 < gw,
                pw > 0,
                ph > 0,
                last == ((gy + row_end - 1) * pwi + gx + col_end) * 4,
                o.len() >= last,
                coverage@.len() >= (row_end - 1) * gw + col_end,
                pm@.len() == o.len(),
                forall|j: int|
                    0 <= j < o.len() ==> #[trigger] pm@[j] == (if j < pwi * phi * 4 && glyph_covers(
                        pwi,
                        gx as int,
                        gy as int,
                        gw as int,
                        gh as int,
                        j,
                    ) && (pixel_y(pwi, j) < y0 || (pixel_y(pwi, j) == y0 && pixel_x(pwi, j) < px0 + c)) {
                        glyph_blended(o, pwi, gx as int, gy as int, gw as int, gh as int, coverage@, rgb, j)
                    } else {
                        o[j]
                    }),
            decreases ncols - c,
        {
            assert(coverage@.len() == coverage.len());
            assert(pm@.len() == pm.len());
            let a = coverage[cov_base + c];
            let base = di0 + 4 * c;
            let ghost before = pm@;
            blend_pixel(pm, base, a, rgb);
            proof {
                let x = (px0 + c) as int;
                assert forall|j: int| 0 <= j < o.len() implies #[trigger] pm@[j] == (if j < pwi * phi * 4
                    && glyph_covers(pwi, gx as int, gy as int, gw as int, gh as int, j) && (pixel_y(pwi, j)
                    < y0 || (pixel_y(pwi, j) == y0 && pixel_x(pwi, j) < px0 + c + 1)) {
                    glyph_blended(o, pwi, gx as int, gy as int, gw as int, gh as int, coverage@, rgb, j)
                } else {
                    o[j]
                }) by {
                    if base <= j < base + 4 {
                        lemma_pixel_of_byte(pwi, x, y0 as int, j - base);
                        assert(before[j] == o[j]);
                    } else {
                        if j < pwi * phi * 4 {
                            lemma_pixel_in_buffer(pwi, phi, j);
                        }
                        assert(before[j] == pm@[j]);
                    }
                }
            }
            c = c + 1;
        }
        row = row + 1;
    }
    proof {
        assert forall|j: int| 0 <= j < old(pm)@.len() implies #[trigger] pm@[j] == (if j < pw * ph * 4 {
            glyph_blended(
                old(pm)@,
                pw as int,
                gx as int,
                gy as int,
                gw as int,
                gh as int,
                coverage@,
                rgb,
                j,
            )
        } else {
            old(pm)@[j]
        }) by {
            if j < pw * ph * 4 {
                lemma_pixel_in_buffer(pw as int, ph as int, j);
            }
        }
    }
}

/// Lays one glyph pixel of coverage `a` and colour `rgb` over the four
/// bytes of the pixel starting at `base`.
fn blend_pixel(pm: &mut [u8], base: usize, a: u8, rgb: [u8; 3])
    requires
        base + 4 <= old(pm)@.len(),
    ensures
        final(pm)@.len() == old(pm)@.len(),
        forall|ch: int| 0 <= ch < 4 ==> #[trigger] final(pm)@[base + ch] == blend_byte(old(pm)@[base + ch], ch, rgb, a as int),
        forall|j: int| 0 <= j < old(pm)@.len() && !(base <= j < base + 4) ==> #[trigger] final(pm)@[j] == old(pm)@[j],
{
    if a == 0 {
        return;
    }
    if a == 255 {
        pm[base] = rgb[0];
        pm[base + 1] = rgb[1];
        pm[base + 2] = rgb[2];
        pm[base + 3] = 255;
        return;
    }
    let a32 = a as u32;
    let inv = 255 - a32;
    pm[base] = mix_channel(pm[base], rgb[0], a32, inv);
    pm[base + 1] = mix_channel(pm[base + 1], rgb[1], a32, inv);
    pm[base + 2] = mix_channel(pm[base + 2], rgb[2], a32, inv);
    let alpha = pm[base + 3] as u32 + a32;
    pm[base + 3] = if alpha > 255 {
        255
    } else {
        alpha as u8
    };
}

/// One colour channel mixed towards `color` by coverage `a` (`inv` is `255 - a`).
fn mix_channel(old: u8, color: u8, a: u32, inv: u32) -> (r: u8)
    requires
        0 < a < 255,
        inv == 255 - a,
    ensures
        r == ((((old as int) * (255 - a) + (color as int) * a) * 32897) / 0x80_0000) as u8,
{
    assert((old as int) * (inv as int) + (color as int) * (a as int) <= 65025) by (nonlinear_arith)
        requires
            old <= 255,
            color <= 255,
            inv == 255 - a,
            a < 255,
    ;
    assert((old as int) * (inv as int) <= 65025) by (nonlinear_arith)
        requires
            old <= 255,
            inv <= 255,
    ;
    assert((color as int) * (a as int) <= 65025) by (nonlinear_arith)
        requires
            color <= 255,
            a <= 255,
    ;
    let v = (old as u32) * inv + (color as u32) * a;
    let scaled = v * 32897;
    assert(scaled >> 23 == scaled / 0x80_0000) by (bit_vector);
    (scaled >> 23) as u8
}

/// Where a rasterised glyph lives in the atlas, with the integer metrics the
/// drawing code needs; `advance_bits` holds the bits of the horizontal
/// advance as the rasteriser reported it.
#[derive(Clone, Copy, PartialEq, Eq, Debug, Structural)]
pub struct GlyphSlot {
    pub offset: u32,
    pub len: u32,
    pub width: usize,
    pub height: usize,
    pub xmin: i32,
    pub ymin: i32,
    pub advance_bits: u32,
}

/// The integer metrics of a rasterised glyph, as they are stored.
#[derive(Clone, Copy, PartialEq, Eq, Debug, Structural)]
pub struct GlyphMetrics {
    pub width: usize,
    pub height: usize,
    pub xmin: i32,
    pub ymin: i32,
    pub advance_bits: u32,
}

/// The key under which a character rasterised at a size (given by the bits
/// of the size) is kept.
pub open spec fn glyph_key(ch: char, size_bits: u32) -> u64 {
    ((ch as u32) as int * 0x1_0000_0000 + size_bits as int) as u64
}

/// Rasterised glyph coverage, appended to one byte buffer and found again
/// by character and size.
pub struct GlyphAtlas {
    glyphs: HashMap<u64, GlyphSlot>,
    atlas: Vec<u8>,
}

impl GlyphAtlas {
    /// The stored glyphs, by key.
    pub closed spec fn slots(&self) -> Map<u64, GlyphSlot> {
        self.glyphs@
    }

    /// All coverage bytes stored so far, in the order they were added.
    pub closed spec fn bytes(&self) -> Seq<u8> {
        self.atlas@
    }

    /// Every stored glyph's coverage lies within the atlas.
    #[verifier::type_invariant]
    spec fn wf(&self) -> bool {
        forall|k: u64|
            #[trigger] self.slots().contains_key(k) ==> self.slots()[k].offset + self.slots()[k].len
                <= self.bytes().len()
    }

    /// The coverage stored for a slot.
    pub open spec fn coverage_of(&self, slot: GlyphSlot) -> Seq<u8> {
        self.bytes().subrange(slot.offset as int, slot.offset + slot.len)
    }

    pub fn new() -> (a: Self)
        ensures
            a.slots() == Map::<u64, GlyphSlot>::empty(),
            a.bytes() == Seq::<u8>::empty(),
    {
        GlyphAtlas { glyphs: HashMap::with_capacity(64), atlas: Vec::with_capacity(64 * 64) }
    }

    /// The number of coverage bytes stored.
    pub fn stored_bytes(&self) -> (n: usize)
        ensures
            n == self.bytes().len(),
    {
        self.atlas.len()
    }

    /// The slot of a glyph already rasterised at this size, if any.
    pub fn lookup(&self, ch: char, size_bits: u32) -> (r: Option<GlyphSlot>)
        ensures
            r == (if self.slots().contains_key(glyph_key(ch, size_bits)) {
                Some(self.slots()[glyph_key(ch, size_bits)])
            } else {
                None::<GlyphSlot>
            }),
            r matches Some(slot) ==> slot.offset + slot.len <= self.bytes().len(),
    {
        proof {
            use_type_invariant(self);
        }
        let key = (ch as u32 as u64) * 0x1_0000_0000 + size_bits as u64;
        match self.glyphs.get(&key) {
            Some(slot) => Some(*slot),
            None => None,
        }
    }

    /// Stores a newly rasterised glyph: its coverage is appended to the
    /// atlas and its slot recorded under its key.
    pub fn insert(&mut self, ch: char, size_bits: u32, metrics: GlyphMetrics, coverage: &[u8]) -> (slot: GlyphSlot)
        requires
            old(self).bytes().len() + coverage@.len() <= u32::MAX,
        ensures
            final(self).bytes() == old(self).bytes() + coverage@,
            final(self).slots() == old(self).slots().insert(glyph_key(ch, size_bits), slot),
            slot.offset == old(self).bytes().len(),
            slot.len == coverage@.len(),
            slot.width == metrics.width,
            slot.height == metrics.height,
            slot.xmin == metrics.xmin,
            slot.ymin == metrics.ymin,
            slot.advance_bits == metrics.advance_bits,
            final(self).coverage_of(slot) == coverage@,
    {
        let mut taken = GlyphAtlas::new();
        std::mem::swap(&mut taken, self);
        proof {
            use_type_invariant(&taken);
        }
        let ghost before_slots = taken.slots();
        let ghost before = taken.bytes();
        let GlyphAtlas { mut glyphs, mut atlas } = taken;
        let offset = atlas.len() as u32;
        let mut i: usize = 0;
        while i < coverage.len()
            invariant
                i <= coverage@.len(),
                atlas@ == before + coverage@.subrange(0, i as int),
            decreases coverage@.len() - i,
        {
            atlas.push(coverage[i]);
            assert(coverage@.subrange(0, i + 1) =~= coverage@.subrange(0, i as int).push(coverage@[i as int]));
            i = i + 1;
        }
        assert(coverage@.subrange(0, coverage@.len() as int) =~= coverage@);
        let slot = GlyphSlot {
            offset,
            len: coverage.len() as u32,
            width: metrics.width,
            height: metrics.height,
            xmin: metrics.xmin,
            ymin: metrics.ymin,
            advance_bits: metrics.advance_bits,
        };
        let key = (ch as u32 as u64) * 0x1_0000_0000 + size_bits as u64;
        glyphs.insert(key, slot);
        assert forall|k: u64| #[trigger] glyphs@.contains_key(k) implies glyphs@[k].offset + glyphs@[k].len
            <= atlas@.len() by {
            if k != key {
                assert(before_slots.contains_key(k));
            }
        }
        *self = GlyphAtlas { glyphs, atlas };
        assert(self.coverage_of(slot) =~= coverage@);
        slot
    }

    /// The coverage bytes of a stored slot.
    pub fn coverage(&self, slot: GlyphSlot) -> (c: &[u8])
        requires
            slot.offset + slot.len <= self.bytes().len(),
        ensures
            c@ == self.coverage_of(slot),
    {
        assert(self.atlas@.len() == self.atlas.len());
        let start = slot.offset as usize;
        let end = start + slot.len as usize;
        let all = self.atlas.as_slice();
        &all[start..end]
    }
}

/// Looking a glyph up again after storing it finds the same slot, and its
/// coverage is what was stored.
pub proof fn law_stored_glyph_is_found_again(
    before: Map<u64, GlyphSlot>,
    bytes_before: Seq<u8>,
    ch: char,
    size_bits: u32,
    slot: GlyphSlot,
    coverage: Seq<u8>,
)
    requires
        slot.offset == bytes_before.len(),
        slot.len == coverage.len(),
    ensures
        before.insert(glyph_key(ch, size_bits), slot).contains_key(glyph_key(ch, size_bits)),
        before.insert(glyph_key(ch, size_bits), slot)[glyph_key(ch, size_bits)] == slot,
        (bytes_before + coverage).subrange(slot.offset as int, slot.offset + slot.len) == coverage,
{
    assert((bytes_before + coverage).subrange(slot.offset as int, slot.offset + slot.len) =~= coverage);
}

/// Storing a glyph leaves the coverage of every glyph stored before it
/// unchanged.
pub proof fn law_storing_keeps_earlier_coverage(bytes_before: Seq<u8>, added: Seq<u8>, earlier: GlyphSlot)
    requires
        earlier.offset + earlier.len <= bytes_before.len(),
    ensures
        (bytes_before + added).subrange(earlier.offset as int, earlier.offset + earlier.len) == bytes_before.subrange(
            earlier.offset as int,
            earlier.offset + earlier.len,
        ),
{
    assert((bytes_before + added).subrange(earlier.offset as int, earlier.offset + earlier.len) =~= bytes_before.subrange(
        earlier.offset as int,
        earlier.offset + earlier.len,
    ));
}

/// Two glyphs share a key exactly when they are the same character at the
/// same size bits: the atlas keeps one entry per character and exact size.
pub proof fn law_glyph_keys_are_distinct(c1: char, s1: u32, c2: char, s2: u32)
    ensures
        glyph_key(c1, s1) == glyph_key(c2, s2) <==> (c1 == c2 && s1 == s2),
{
    let k1 = (c1 as u32) as int;
    let k2 = (c2 as u32) as int;
    assert(0 <= k1 <= 0x10FFFF && 0 <= k2 <= 0x10FFFF);
    let v1 = k1 * 0x1_0000_0000 + s1 as int;
    let v2 = k2 * 0x1_0000_0000 + s2 as int;
    assert(0 <= v1 < 0x1_0000_0000_0000_0000) by (nonlinear_arith)
        requires
            v1 == k1 * 0x1_0000_0000 + s1 as int,
            0 <= k1 <= 0x10FFFF,
            0 <= s1 < 0x1_0000_0000,
    ;
    assert(0 <= v2 < 0x1_0000_0000_0000_0000) by (nonlinear_arith)
        requires
            v2 == k2 * 0x1_0000_0000 + s2 as int,
            0 <= k2 <= 0x10FFFF,
            0 <= s2 < 0x1_0000_0000,
    ;
    assert(glyph_key(c1, s1) == v1);
    assert(glyph_key(c2, s2) == v2);
    if v1 == v2 {
        vstd::arithmetic::div_mod::lemma_fundamental_div_mod_converse(v1, 0x1_0000_0000, k1, s1 as int);
        vstd::arithmetic::div_mod::lemma_fundamental_div_mod_converse(v2, 0x1_0000_0000, k2, s2 as int);
        assert(k1 == k2);
        assert(c1 == c2);
    }
}

/// Storing a glyph for one character and size leaves what is stored for
/// every other character or size as it was: looking a glyph up at another
/// size after storing it finds only what was there before.
pub proof fn law_storing_keeps_other_glyphs(
    before: Map<u64, GlyphSlot>,
    ch: char,
    size_bits: u32,
    slot: GlyphSlot,
    other_ch: char,
    other_bits: u32,
)
    requires
        ch != other_ch || size_bits != other_bits,
    ensures
        before.insert(glyph_key(ch, size_bits), slot).contains_key(glyph_key(other_ch, other_bits))
            == before.contains_key(glyph_key(other_ch, other_bits)),
        before.contains_key(glyph_key(other_ch, other_bits)) ==> before.insert(glyph_key(ch, size_bits), slot)[glyph_key(
            other_ch,
            other_bits,
        )] == before[glyph_key(other_ch, other_bits)],
{
    law_glyph_keys_are_distinct(ch, size_bits, other_ch, other_bits);
}

} // verus!
