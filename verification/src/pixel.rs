//! Conversion between the capture's BGRA rows and the RGBA / ARGB layouts
//! that the rest of the program draws on and presents.

use vstd::prelude::*;

verus! {

/// Bytes converted by a channel swap: the whole four-byte pixels that fit in
/// both the source and the destination.
pub open spec fn converted_len(src_len: int, dst_len: int) -> int {
    let n = if src_len < dst_len { src_len } else { dst_len };
    n - n % 4
}

/// Byte `j` of a converted buffer: within each pixel the first and third
/// channels trade places, the second stays, and alpha becomes opaque.
pub open spec fn swapped_byte(src: Seq<u8>, j: int) -> u8 {
    if j % 4 == 0 {
        src[j + 2]
    } else if j % 4 == 1 {
        src[j]
    } else if j % 4 == 2 {
        src[j - 2]
    } else {
        255u8
    }
}

/// Pixels converted by `swap_channels_to_words`.
pub open spec fn converted_words(src_len: int, dst_len: int) -> int {
    if src_len / 4 < dst_len { src_len / 4 } else { dst_len }
}

/// The presentation word for source pixel `i`: opaque alpha in the top
/// byte, then the first, second and third source channels.
pub open spec fn argb_word(src: Seq<u8>, i: int) -> int {
    0xFF00_0000 + src[4 * i] * 0x1_0000 + src[4 * i + 1] * 0x100 + src[4 * i + 2]
}

/// Swaps the first and third channel of every whole pixel that fits in both
/// buffers and makes it opaque; bytes past those pixels are left alone.
pub fn swap_channels(src: &[u8], dst: &mut [u8])
    ensures
        final(dst)@.len() == old(dst)@.len(),
        forall|j: int|
            0 <= j < converted_len(src@.len() as int, old(dst)@.len() as int) ==> #[trigger] final(dst)@[j]
                == swapped_byte(src@, j),
        forall|j: int|
            converted_len(src@.len() as int, old(dst)@.len() as int) <= j < old(dst)@.len()
                ==> #[trigger] final(dst)@[j] == old(dst)@[j],
{
    let n = if src.len() < dst.len() {
        src.len()
    } else {
        dst.len()
    };
    let total = n - n % 4;
    let mut i: usize = 0;
    while i < total
        invariant
            i % 4 == 0,
            total % 4 == 0,
            i <= total,
            total == converted_len(src@.len() as int, old(dst)@.len() as int),
            total <= src@.len(),
            dst@.len() == old(dst)@.len(),
            forall|j: int| 0 <= j < i ==> #[trigger] dst@[j] == swapped_byte(src@, j),
            forall|j: int| i <= j < dst@.len() ==> #[trigger] dst@[j] == old(dst)@[j],
        decreases total - i,
    {
        let first = src[i];
        let second = src[i + 1];
        let third = src[i + 2];
        dst[i] = third;
        dst[i + 1] = second;
        dst[i + 2] = first;
        dst[i + 3] = 255;
        assert forall|j: int| 0 <= j < i + 4 implies #[trigger] dst@[j] == swapped_byte(src@, j) by {
            if j >= i {
                assert(j - i < 4);
            }
        }
        i = i + 4;
    }
}

/// Converts whole source pixels into presentation words (alpha, then the
/// first three source channels, most significant first); words past the
/// converted pixels are left alone.
pub fn swap_channels_to_words(src: &[u8], dst: &mut [u32])
    ensures
        final(dst)@.len() == old(dst)@.len(),
        forall|i: int|
            0 <= i < converted_words(src@.len() as int, old(dst)@.len() as int) ==> #[trigger] final(dst)@[i]
                == argb_word(src@, i),
        forall|i: int|
            converted_words(src@.len() as int, old(dst)@.len() as int) <= i < old(dst)@.len()
                ==> #[trigger] final(dst)@[i] == old(dst)@[i],
{
    let count = if src.len() / 4 < dst.len() {
        src.len() / 4
    } else {
        dst.len()
    };
    let mut i: usize = 0;
    while i < count
        invariant
            i <= count,
            count == converted_words(src@.len() as int, old(dst)@.len() as int),
            count <= src@.len() / 4,
            dst@.len() == old(dst)@.len(),
            forall|k: int| 0 <= k < i ==> #[trigger] dst@[k] == argb_word(src@, k),
            forall|k: int| i <= k < dst@.len() ==> #[trigger] dst@[k] == old(dst)@[k],
        decreases count - i,
    {
        assert(4 * i + 3 < src@.len()) by (nonlinear_arith)
            requires
                i < count,
                count <= src@.len() / 4,
        ;
        assert(src@.len() == src.len());
        let base: usize = 4 * i;
        let word: u32 = 0xFF00_0000u32 + (src[base] as u32) * 0x1_0000 + (src[base + 1] as u32) * 0x100
            + (src[base + 2] as u32);
        dst[i] = word;
        i = i + 1;
    }
}

/// The word produced for a pixel is the little-endian reading of the four
/// bytes that `swap_channels` produces for it.
pub proof fn law_word_matches_swapped_bytes(src: Seq<u8>, i: int)
    requires
        0 <= i,
        4 * i + 3 < src.len(),
    ensures
        argb_word(src, i) == swapped_byte(src, 4 * i) + 0x100 * swapped_byte(src, 4 * i + 1) + 0x1_0000
            * swapped_byte(src, 4 * i + 2) + 0x100_0000 * swapped_byte(src, 4 * i + 3),
{
    assert((4 * i) % 4 == 0);
    assert((4 * i + 1) % 4 == 1);
    assert((4 * i + 2) % 4 == 2);
    assert((4 * i + 3) % 4 == 3);
}

/// Swapping twice gives back every colour channel; alpha ends opaque.
pub proof fn law_swap_twice_restores_colour(src: Seq<u8>, j: int)
    requires
        0 <= j,
        j - j % 4 + 3 < src.len(),
    ensures
        swapped_byte(Seq::new(src.len(), |k: int| swapped_byte(src, k)), j) == (if j % 4 == 3 {
            255u8
        } else {
            src[j]
        }),
{
}

} // verus!
