//! Nibble-level packing: two horizontally adjacent 4-bit pixels per byte.
//! An even pixel x occupies the byte's high nibble, an odd x the low nibble.

use vstd::prelude::*;

use crate::geometry::Rect;
use crate::geometry::spec_touch;
use crate::geometry::BUFFER_SIZE;
use crate::geometry::BYTES_PER_ROW;
use crate::geometry::DISPLAY_HEIGHT;
use crate::geometry::DISPLAY_WIDTH;

verus! {

/// The 4-bit value stored in the byte's high half.
pub open spec fn high_nibble(b: u8) -> u8 {
    b >> 4
}

/// The 4-bit value stored in the byte's low half.
pub open spec fn low_nibble(b: u8) -> u8 {
    b & 0x0F
}

/// The byte holding `hi` in its high nibble and `lo` in its low nibble;
/// both inputs are masked to 4 bits.
pub open spec fn pack_nibbles(hi: u8, lo: u8) -> u8 {
    ((hi & 0x0F) << 4) | (lo & 0x0F)
}

/// Replaces the high nibble of `input` with `color`, preserving the low nibble.
#[inline]
pub fn update_upper_nibble(input: u8, color: u8) -> (r: u8)
    ensures
        r == pack_nibbles(color, input),
        high_nibble(r) == color & 0x0F,
        low_nibble(r) == low_nibble(input),
{
    let r: u8 = ((color << 4) & 0xF0) | (input & 0x0F);
    proof {
        assert(r == pack_nibbles(color, input) && high_nibble(r) == color & 0x0F
            && low_nibble(r) == low_nibble(input)) by (bit_vector)
            requires
                r == ((color << 4) & 0xF0) | (input & 0x0F),
        ;
    }
    r
}

/// Replaces the low nibble of `input` with `color`, preserving the high nibble.
#[inline]
pub fn update_lower_nibble(input: u8, color: u8) -> (r: u8)
    ensures
        r == pack_nibbles(high_nibble(input), color),
        low_nibble(r) == color & 0x0F,
        high_nibble(r) == high_nibble(input),
{
    let r: u8 = color & 0x0F | (input & 0xF0);
    proof {
        assert(r == pack_nibbles(input >> 4, color) && low_nibble(r) == color & 0x0F
            && high_nibble(r) == high_nibble(input)) by (bit_vector)
            requires
                r == color & 0x0F | (input & 0xF0),
        ;
    }
    r
}

/// `(x, y)` is a device pixel coordinate.
pub open spec fn in_bounds(x: int, y: int) -> bool {
    &&& 0 <= x < (DISPLAY_WIDTH as int)
    &&& 0 <= y < (DISPLAY_HEIGHT as int)
}

/// Framebuffer index of the byte holding pixel `(x, y)`.
pub open spec fn byte_index(x: int, y: int) -> int {
    x / 2 + y * (BYTES_PER_ROW as int)
}

/// The 4-bit luma of pixel `(x, y)` stored in `buf`.
pub open spec fn spec_pixel(buf: Seq<u8>, x: int, y: int) -> u8 {
    if x % 2 == 0 {
        high_nibble(buf[byte_index(x, y)])
    } else {
        low_nibble(buf[byte_index(x, y)])
    }
}

/// The byte `b` with the nibble of pixel-column `x` replaced by `luma`.
pub open spec fn set_nibble(b: u8, x: int, luma: u8) -> u8 {
    if x % 2 == 0 {
        pack_nibbles(luma, b)
    } else {
        pack_nibbles(high_nibble(b), luma)
    }
}

/// The framebuffer after a pixel write: out-of-bounds coordinates leave it
/// untouched, and so does a write whose packed byte equals the current one.
pub open spec fn spec_set_pixel_buf(buf: Seq<u8>, x: int, y: int, luma: u8) -> Seq<u8> {
    if !in_bounds(x, y) {
        buf
    } else {
        let idx = byte_index(x, y);
        let nb = set_nibble(buf[idx], x, luma);
        if nb == buf[idx] {
            buf
        } else {
            buf.update(idx, nb)
        }
    }
}

/// The dirty rectangle after a pixel write: only a write that actually
/// changes a byte reports a touch to the tracker.
pub open spec fn spec_set_pixel_dirty(
    buf: Seq<u8>,
    bb: Option<Rect>,
    x: int,
    y: int,
    luma: u8,
) -> Option<Rect> {
    if !in_bounds(x, y) {
        bb
    } else {
        let idx = byte_index(x, y);
        let nb = set_nibble(buf[idx], x, luma);
        if nb == buf[idx] {
            bb
        } else {
            spec_touch(bb, (x / 2) as u8, y as u8)
        }
    }
}

/// Packing a high nibble keeps the low nibble and reads back exactly.
pub proof fn lemma_pack_high(b: u8, luma: u8)
    requires
        luma < 16,
    ensures
        high_nibble(pack_nibbles(luma, b)) == luma,
        low_nibble(pack_nibbles(luma, b)) == low_nibble(b),
{
    assert(luma < 16 ==> (((luma & 0x0F) << 4) | (b & 0x0F)) >> 4 == luma && (((luma & 0x0F)
        << 4) | (b & 0x0F)) & 0x0F == b & 0x0F) by (bit_vector);
}

/// Packing a low nibble keeps the high nibble and reads back exactly.
pub proof fn lemma_pack_low(b: u8, luma: u8)
    requires
        luma < 16,
    ensures
        low_nibble(pack_nibbles(high_nibble(b), luma)) == luma,
        high_nibble(pack_nibbles(high_nibble(b), luma)) == high_nibble(b),
{
    assert(luma < 16 ==> ((((b >> 4) & 0x0F) << 4) | (luma & 0x0F)) & 0x0F == luma && ((((b
        >> 4) & 0x0F) << 4) | (luma & 0x0F)) >> 4 == b >> 4) by (bit_vector);
}

/// An in-bounds coordinate addresses a byte inside the framebuffer.
pub proof fn lemma_byte_index_bounds(x: int, y: int)
    requires
        in_bounds(x, y),
    ensures
        0 <= x / 2 < (BYTES_PER_ROW as int),
        0 <= byte_index(x, y) < (BUFFER_SIZE as int),
{
}

/// Two in-bounds coordinates addressing the same byte lie in the same row
/// and the same byte column.
pub proof fn lemma_byte_index_injective(x: int, y: int, x2: int, y2: int)
    requires
        in_bounds(x, y),
        in_bounds(x2, y2),
        byte_index(x, y) == byte_index(x2, y2),
    ensures
        y2 == y,
        x2 / 2 == x / 2,
{
    lemma_byte_index_bounds(x, y);
    lemma_byte_index_bounds(x2, y2);
}

/// Round-trip packing: writing `luma` at an in-bounds `(x, y)` makes that
/// pixel read back exactly `luma`, and leaves every other pixel — the
/// neighbouring nibble of the same byte included — unchanged.
pub proof fn lemma_round_trip(buf: Seq<u8>, x: int, y: int, luma: u8)
    requires
        buf.len() == (BUFFER_SIZE as int),
        in_bounds(x, y),
        luma < 16,
    ensures
        spec_pixel(spec_set_pixel_buf(buf, x, y, luma), x, y) == luma,
        forall|x2: int, y2: int|
            in_bounds(x2, y2) && !(x2 == x && y2 == y) ==> spec_pixel(
                spec_set_pixel_buf(buf, x, y, luma),
                x2,
                y2,
            ) == spec_pixel(buf, x2, y2),
{
    let idx = byte_index(x, y);
    lemma_byte_index_bounds(x, y);
    let b = buf[idx];
    lemma_pack_high(b, luma);
    lemma_pack_low(b, luma);
    let buf2 = spec_set_pixel_buf(buf, x, y, luma);
    assert(spec_pixel(buf2, x, y) == luma);
    assert forall|x2: int, y2: int|
        in_bounds(x2, y2) && !(x2 == x && y2 == y) implies spec_pixel(buf2, x2, y2)
        == spec_pixel(buf, x2, y2) by {
        lemma_byte_index_bounds(x2, y2);
        if byte_index(x2, y2) == idx {
            lemma_byte_index_injective(x, y, x2, y2);
            vstd::arithmetic::div_mod::lemma_fundamental_div_mod(x, 2);
            vstd::arithmetic::div_mod::lemma_fundamental_div_mod(x2, 2);
            assert(x2 % 2 != x % 2);
        }
    }
}

/// Writing the same `(x, y, luma)` twice is byte-wise a no-op the second
/// time: the buffer stays as it is and no touch reaches the tracker.
pub proof fn lemma_idempotent_write(buf: Seq<u8>, bb: Option<Rect>, x: int, y: int, luma: u8)
    requires
        buf.len() == (BUFFER_SIZE as int),
        in_bounds(x, y),
        luma < 16,
    ensures
        ({
            let buf1 = spec_set_pixel_buf(buf, x, y, luma);
            let bb1 = spec_set_pixel_dirty(buf, bb, x, y, luma);
            spec_set_pixel_buf(buf1, x, y, luma) == buf1 && spec_set_pixel_dirty(
                buf1,
                bb1,
                x,
                y,
                luma,
            ) == bb1
        }),
{
    let idx = byte_index(x, y);
    lemma_byte_index_bounds(x, y);
    let b = buf[idx];
    lemma_pack_high(b, luma);
    lemma_pack_low(b, luma);
    let buf1 = spec_set_pixel_buf(buf, x, y, luma);
    let b1 = buf1[idx];
    lemma_pack_high(b1, luma);
    lemma_pack_low(b1, luma);
    assert(set_nibble(b1, x, luma) == b1) by {
        if x % 2 == 0 {
            assert(luma < 16 ==> ((luma & 0x0F) << 4) | ((((luma & 0x0F) << 4) | (b & 0x0F))
                & 0x0F) == ((luma & 0x0F) << 4) | (b & 0x0F)) by (bit_vector);
        } else {
            assert(luma < 16 ==> ((((((b >> 4) & 0x0F) << 4) | (luma & 0x0F)) >> 4) & 0x0F)
                << 4 | (luma & 0x0F) == (((b >> 4) & 0x0F) << 4) | (luma & 0x0F))
                by (bit_vector);
        }
    }
}

} // verus!
