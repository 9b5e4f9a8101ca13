//! Device geometry and the dirty-rectangle tracker model.
//!
//! Coordinates are device pixels: `0 <= x < DISPLAY_WIDTH`,
//! `0 <= y < DISPLAY_HEIGHT`. Two horizontally adjacent pixels share one
//! framebuffer byte, so the tracker works in byte columns (`x / 2`) and
//! pixel rows.

use vstd::prelude::*;

verus! {

/// Horizontal resolution in pixels.
pub const DISPLAY_WIDTH: usize = 256;

/// Vertical resolution in pixels.
pub const DISPLAY_HEIGHT: usize = 64;

/// Framebuffer bytes per pixel row (two pixels per byte).
pub const BYTES_PER_ROW: usize = DISPLAY_WIDTH / 2;

/// Total framebuffer length in bytes.
pub const BUFFER_SIZE: usize = DISPLAY_WIDTH * DISPLAY_HEIGHT / 2;

/// The device's native column-address unit spans this many framebuffer bytes.
pub const BYTES_PER_COLUMN_UNIT: u8 = 2;

/// Offset added to a native column unit to obtain the device column address.
pub const COLUMN_ADDRESS_OFFSET: u8 = 0x1C;

/// An inclusive, non-empty rectangle of framebuffer bytes: byte columns
/// `[col_min, col_max]` by pixel rows `[row_min, row_max]`.
#[derive(Clone, Copy, PartialEq, Eq, Structural, Debug)]
pub struct Rect {
    pub col_min: u8,
    pub col_max: u8,
    pub row_min: u8,
    pub row_max: u8,
}

/// Well-formed rectangle: inclusive ranges are non-empty and lie inside the
/// framebuffer's byte-column/row extent.
pub open spec fn rect_wf(r: Rect) -> bool {
    &&& r.col_min <= r.col_max
    &&& (r.col_max as int) < (BYTES_PER_ROW as int)
    &&& r.row_min <= r.row_max
    &&& (r.row_max as int) < (DISPLAY_HEIGHT as int)
}

/// `r` covers the touched byte `(col, row)`.
pub open spec fn rect_covers(r: Rect, col: u8, row: u8) -> bool {
    &&& r.col_min <= col <= r.col_max
    &&& r.row_min <= row <= r.row_max
}

/// Merging one touched byte `(col, row)` into the running rectangle:
/// the first touch creates the degenerate single-byte rectangle, and every
/// later touch widens each bound one-sidedly to the min/max.
pub open spec fn spec_touch(bb: Option<Rect>, col: u8, row: u8) -> Option<Rect> {
    match bb {
        None => Some(
            Rect { col_min: col, col_max: col, row_min: row, row_max: row },
        ),
        Some(r) => Some(
            Rect {
                col_min: if col < r.col_min { col } else { r.col_min },
                col_max: if col > r.col_max { col } else { r.col_max },
                row_min: if row < r.row_min { row } else { r.row_min },
                row_max: if row > r.row_max { row } else { r.row_max },
            },
        ),
    }
}

/// The tracker state after a whole history of touches, starting from clean.
pub open spec fn fold_touches(ts: Seq<(u8, u8)>) -> Option<Rect>
    decreases ts.len(),
{
    if ts.len() == 0 {
        None
    } else {
        spec_touch(fold_touches(ts.drop_last()), ts.last().0, ts.last().1)
    }
}

/// `r` is the minimal axis-aligned bounding rectangle of the touches `ts`:
/// it covers every touch, and each of its four bounds is achieved by some
/// touch (so `col_min` is the exact minimum of the touched columns, and so
/// on for the other three bounds).
pub open spec fn is_minimal_bounding_rect(r: Rect, ts: Seq<(u8, u8)>) -> bool {
    &&& forall|i: int| 0 <= i < ts.len() ==> rect_covers(r, #[trigger] ts[i].0, ts[i].1)
    &&& exists|i: int| 0 <= i < ts.len() && (#[trigger] ts[i]).0 == r.col_min
    &&& exists|i: int| 0 <= i < ts.len() && (#[trigger] ts[i]).0 == r.col_max
    &&& exists|i: int| 0 <= i < ts.len() && (#[trigger] ts[i]).1 == r.row_min
    &&& exists|i: int| 0 <= i < ts.len() && (#[trigger] ts[i]).1 == r.row_max
}

/// After any non-empty history of touches the tracker holds exactly the
/// minimal axis-aligned bounding rectangle of the touched bytes; after an
/// empty history it holds nothing.
pub proof fn lemma_tracker_minimal(ts: Seq<(u8, u8)>)
    ensures
        ts.len() == 0 ==> fold_touches(ts) is None,
        ts.len() > 0 ==> (fold_touches(ts) matches Some(r) && is_minimal_bounding_rect(r, ts)),
    decreases ts.len(),
{
    if ts.len() > 0 {
        lemma_tracker_minimal(ts.drop_last());
        let prev = fold_touches(ts.drop_last());
        let r = fold_touches(ts)->Some_0;
        let last = ts.last();
        assert(ts[ts.len() - 1] == last);
        if ts.len() == 1 {
            assert(is_minimal_bounding_rect(r, ts));
        } else {
            let rp = prev->Some_0;
            assert(forall|i: int| 0 <= i < ts.len() - 1 ==> ts.drop_last()[i] == ts[i]);
            assert(forall|i: int|
                0 <= i < ts.len() ==> rect_covers(r, #[trigger] ts[i].0, ts[i].1));
            if r.col_min == rp.col_min {
                let i = choose|i: int|
                    0 <= i < ts.drop_last().len() && (#[trigger] ts.drop_last()[i]).0
                        == rp.col_min;
                assert(ts[i].0 == r.col_min);
            } else {
                assert(last.0 == r.col_min);
            }
            if r.col_max == rp.col_max {
                let i = choose|i: int|
                    0 <= i < ts.drop_last().len() && (#[trigger] ts.drop_last()[i]).0
                        == rp.col_max;
                assert(ts[i].0 == r.col_max);
            } else {
                assert(last.0 == r.col_max);
            }
            if r.row_min == rp.row_min {
                let i = choose|i: int|
                    0 <= i < ts.drop_last().len() && (#[trigger] ts.drop_last()[i]).1
                        == rp.row_min;
                assert(ts[i].1 == r.row_min);
            } else {
                assert(last.1 == r.row_min);
            }
            if r.row_max == rp.row_max {
                let i = choose|i: int|
                    0 <= i < ts.drop_last().len() && (#[trigger] ts.drop_last()[i]).1
                        == rp.row_max;
                assert(ts[i].1 == r.row_max);
            } else {
                assert(last.1 == r.row_max);
            }
        }
    }
}

/// The tracked rectangle is contained in every rectangle that covers all
/// the touches: no smaller bound on any side is possible.
pub proof fn lemma_tracker_tightest(ts: Seq<(u8, u8)>, other: Rect)
    requires
        ts.len() > 0,
        forall|i: int| 0 <= i < ts.len() ==> rect_covers(other, #[trigger] ts[i].0, ts[i].1),
    ensures
        fold_touches(ts) matches Some(r) && other.col_min <= r.col_min && r.col_max
            <= other.col_max && other.row_min <= r.row_min && r.row_max <= other.row_max,
{
    lemma_tracker_minimal(ts);
    let r = fold_touches(ts)->Some_0;
    let i1 = choose|i: int| 0 <= i < ts.len() && (#[trigger] ts[i]).0 == r.col_min;
    assert(rect_covers(other, ts[i1].0, ts[i1].1));
    let i2 = choose|i: int| 0 <= i < ts.len() && (#[trigger] ts[i]).0 == r.col_max;
    assert(rect_covers(other, ts[i2].0, ts[i2].1));
    let i3 = choose|i: int| 0 <= i < ts.len() && (#[trigger] ts[i]).1 == r.row_min;
    assert(rect_covers(other, ts[i3].0, ts[i3].1));
    let i4 = choose|i: int| 0 <= i < ts.len() && (#[trigger] ts[i]).1 == r.row_max;
    assert(rect_covers(other, ts[i4].0, ts[i4].1));
}

} // verus!
