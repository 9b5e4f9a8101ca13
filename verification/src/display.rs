//! The SSD1322 driver: framebuffer store, change tracker and flush engine.

use vstd::prelude::*;

use crate::geometry::rect_wf;
use crate::geometry::spec_touch;
use crate::geometry::Rect;
use crate::geometry::BUFFER_SIZE;
use crate::geometry::BYTES_PER_COLUMN_UNIT;
use crate::geometry::BYTES_PER_ROW;
use crate::geometry::COLUMN_ADDRESS_OFFSET;
use crate::geometry::DISPLAY_HEIGHT;
use crate::geometry::DISPLAY_WIDTH;
use crate::pixel::byte_index;
use crate::pixel::in_bounds;
use crate::pixel::lemma_byte_index_bounds;
use crate::pixel::lemma_round_trip;
use crate::pixel::pack_nibbles;
use crate::pixel::spec_pixel;
use crate::pixel::spec_set_pixel_buf;
use crate::pixel::spec_set_pixel_dirty;
use crate::pixel::update_lower_nibble;
use crate::pixel::update_upper_nibble;
use crate::transport::BusError;
use crate::transport::BusOp;
use crate::transport::Command;
use crate::transport::Transport;

verus! {

/// Device column address of a framebuffer byte column.
pub open spec fn spec_col_address(col: u8) -> u8 {
    ((col as int) / (BYTES_PER_COLUMN_UNIT as int) + (COLUMN_ADDRESS_OFFSET as int)) as u8
}

/// Translates a framebuffer byte column into the device's native column
/// address, using the configured scale and offset.
pub fn col_address(col: u8) -> (r: u8)
    ensures
        r == spec_col_address(col),
{
    col / BYTES_PER_COLUMN_UNIT + COLUMN_ADDRESS_OFFSET
}

/// Everything a full flush writes to the bus: address the whole surface,
/// begin a RAM write, then the entire framebuffer as one payload.
pub open spec fn full_flush_ops(buf: Seq<u8>) -> Seq<BusOp> {
    seq![
        BusOp::Command(
            Command::SetColumnAddress(
                spec_col_address(0),
                spec_col_address((BYTES_PER_ROW - 1) as u8),
            ),
        ),
        BusOp::Command(Command::SetRowAddress(0, (DISPLAY_HEIGHT - 1) as u8)),
        BusOp::Command(Command::WriteRam),
        BusOp::Data(buf),
    ]
}

/// The contiguous slice of `buf` that row `row` of rectangle `r` occupies.
pub open spec fn row_slice(buf: Seq<u8>, r: Rect, row: int) -> Seq<u8> {
    buf.subrange(
        row * (BYTES_PER_ROW as int) + r.col_min,
        row * (BYTES_PER_ROW as int) + r.col_max + 1,
    )
}

/// The row payloads of a partial flush, top row first.
pub open spec fn data_ops(buf: Seq<u8>, r: Rect) -> Seq<BusOp> {
    Seq::new(
        (r.row_max - r.row_min + 1) as nat,
        |i: int| BusOp::Data(row_slice(buf, r, r.row_min + i)),
    )
}

/// Everything a partial flush of rectangle `r` writes to the bus: address
/// exactly the dirty window, begin a RAM write, then one payload per row.
pub open spec fn changed_flush_ops(buf: Seq<u8>, r: Rect) -> Seq<BusOp> {
    seq![
        BusOp::Command(
            Command::SetColumnAddress(spec_col_address(r.col_min), spec_col_address(r.col_max)),
        ),
        BusOp::Command(Command::SetRowAddress(r.row_min, r.row_max)),
        BusOp::Command(Command::WriteRam),
    ] + data_ops(buf, r)
}

/// What `flush_changed` writes for a given tracker state: nothing when the
/// tracker is clean, the dirty window otherwise.
pub open spec fn flush_changed_plan(buf: Seq<u8>, bb: Option<Rect>) -> Seq<BusOp> {
    match bb {
        None => Seq::<BusOp>::empty(),
        Some(r) => changed_flush_ops(buf, r),
    }
}

/// The SSD1322 display driver.
///
/// Owns the packed framebuffer mirroring the controller's video RAM, the
/// dirty-rectangle tracker, and the bus transport it flushes through.
pub struct Ssd1322<DI> {
    /// The bus transport.
    pub display: DI,
    /// Packed framebuffer: `BUFFER_SIZE` bytes, two 4-bit pixels each.
    pub buffer: Vec<u8>,
    /// The smallest byte rectangle touched since the last completed
    /// partial flush; `None` means nothing is dirty.
    pub bounding_box: Option<Rect>,
}

/// Tracks the modified area of a framebuffer at byte granularity.
pub trait BoundingBox {
    /// The tracked dirty rectangle, if any byte is dirty.
    spec fn tracked_box(&self) -> Option<Rect>;

    /// The tracker's own well-formedness.
    spec fn box_inv(&self) -> bool;

    /// Merges the byte of pixel `(x, y)` into the tracked rectangle. The
    /// unit of the rectangle's columns is framebuffer bytes, so `x` is
    /// halved.
    fn update_box(&mut self, x: u8, y: u8)
        requires
            old(self).box_inv(),
            (y as int) < (DISPLAY_HEIGHT as int),
        ensures
            final(self).box_inv(),
            final(self).tracked_box() == spec_touch(old(self).tracked_box(), x / 2, y),
    ;
}

impl<DI> Ssd1322<DI> {
    /// Driver well-formedness: the framebuffer has its fixed length and a
    /// tracked rectangle, if any, lies inside the surface.
    pub open spec fn wf(&self) -> bool {
        &&& self.buffer@.len() == (BUFFER_SIZE as int)
        &&& match self.bounding_box {
            Some(r) => rect_wf(r),
            None => true,
        }
    }

    /// The framebuffer contents.
    pub open spec fn fb(&self) -> Seq<u8> {
        self.buffer@
    }

    /// Reports the fixed pixel dimensions of the surface.
    pub fn size(&self) -> (r: (u32, u32))
        ensures
            r.0 == (DISPLAY_WIDTH as int),
            r.1 == (DISPLAY_HEIGHT as int),
    {
        (DISPLAY_WIDTH as u32, DISPLAY_HEIGHT as u32)
    }

    /// Merges the byte of pixel `(x, y)` into the dirty rectangle: the
    /// first touch after a reset starts the single-byte rectangle, later
    /// touches widen it one-sidedly per axis to the running min/max.
    pub fn touch(&mut self, x: u8, y: u8)
        requires
            old(self).wf(),
            (y as int) < (DISPLAY_HEIGHT as int),
        ensures
            final(self).wf(),
            final(self).bounding_box == spec_touch(old(self).bounding_box, x / 2, y),
            final(self).fb() == old(self).fb(),
            final(self).display == old(self).display,
    {
        let col = x / BYTES_PER_COLUMN_UNIT;
        match self.bounding_box {
            Some(r) => {
                let col_min = if col < r.col_min {
                    col
                } else {
                    r.col_min
                };
                let col_max = if col > r.col_max {
                    col
                } else {
                    r.col_max
                };
                let row_min = if y < r.row_min {
                    y
                } else {
                    r.row_min
                };
                let row_max = if y > r.row_max {
                    y
                } else {
                    r.row_max
                };
                self.bounding_box = Some(Rect { col_min, col_max, row_min, row_max });
            },
            None => {
                self.bounding_box = Some(
                    Rect { col_min: col, col_max: col, row_min: y, row_max: y },
                );
            },
        }
    }

    /// Writes the 4-bit `luma` at pixel `(x, y)`. An out-of-bounds
    /// coordinate is a documented no-op, never an error. A write that does
    /// not change the stored byte reports no touch, so redrawing identical
    /// content never grows the dirty rectangle.
    pub fn set_pixel(&mut self, x: i32, y: i32, luma: u8)
        requires
            old(self).wf(),
            luma < 16,
        ensures
            final(self).wf(),
            final(self).fb() == spec_set_pixel_buf(old(self).fb(), x as int, y as int, luma),
            final(self).bounding_box == spec_set_pixel_dirty(
                old(self).fb(),
                old(self).bounding_box,
                x as int,
                y as int,
                luma,
            ),
            final(self).display == old(self).display,
            in_bounds(x as int, y as int) ==> spec_pixel(final(self).fb(), x as int, y as int)
                == luma,
            forall|x2: int, y2: int|
                in_bounds(x2, y2) && !(x2 == x as int && y2 == y as int) ==> spec_pixel(
                    final(self).fb(),
                    x2,
                    y2,
                ) == spec_pixel(old(self).fb(), x2, y2),
    {
        if x >= 0 && y >= 0 {
            let xu = x as usize;
            let yu = y as usize;
            if xu < DISPLAY_WIDTH && yu < DISPLAY_HEIGHT {
                proof {
                    lemma_byte_index_bounds(x as int, y as int);
                }
                let index: usize = xu / 2 + yu * BYTES_PER_ROW;
                let current: u8 = self.buffer[index];
                let new_val: u8 = if xu % 2 == 0 {
                    update_upper_nibble(current, luma)
                } else {
                    update_lower_nibble(current, luma)
                };
                if new_val != current {
                    self.touch(x as u8, y as u8);
                    self.buffer[index] = new_val;
                }
                proof {
                    lemma_round_trip(old(self).fb(), x as int, y as int, luma);
                }
            }
        }
    }

    /// Reads the 4-bit luma stored for pixel `(x, y)`.
    pub fn get_pixel(&self, x: i32, y: i32) -> (r: u8)
        requires
            self.wf(),
            in_bounds(x as int, y as int),
        ensures
            r == spec_pixel(self.fb(), x as int, y as int),
    {
        proof {
            lemma_byte_index_bounds(x as int, y as int);
        }
        let xu = x as usize;
        let yu = y as usize;
        let index: usize = xu / 2 + yu * BYTES_PER_ROW;
        let byte = self.buffer[index];
        if xu % 2 == 0 {
            byte >> 4
        } else {
            byte & 0x0F
        }
    }

    /// Overwrites every framebuffer byte with both nibbles set to `luma`,
    /// so every pixel reads back `luma`.
    ///
    /// The change tracker is deliberately left as it is: a caller that
    /// clears the surface must follow with `flush`, since `flush_changed`
    /// would resend only the previously dirty region.
    pub fn clear(&mut self, luma: u8)
        requires
            old(self).wf(),
            luma < 16,
        ensures
            final(self).wf(),
            final(self).fb() == Seq::new(BUFFER_SIZE as nat, |i: int| pack_nibbles(luma, luma)),
            final(self).bounding_box == old(self).bounding_box,
            final(self).display == old(self).display,
            forall|x: int, y: int|
                in_bounds(x, y) ==> spec_pixel(final(self).fb(), x, y) == luma,
    {
        let byte: u8 = (luma << 4) | luma;
        proof {
            assert(luma < 16 ==> ((luma << 4) | luma) == (((luma & 0x0F) << 4) | (luma & 0x0F)))
                by (bit_vector);
        }
        let mut i: usize = 0;
        while i < BUFFER_SIZE
            invariant
                self.buffer@.len() == (BUFFER_SIZE as int),
                0 <= i <= BUFFER_SIZE,
                forall|j: int| 0 <= j < i ==> self.buffer@[j] == byte,
                byte == pack_nibbles(luma, luma),
                self.bounding_box == old(self).bounding_box,
                self.display == old(self).display,
                old(self).wf(),
            decreases BUFFER_SIZE - i,
        {
            self.buffer[i] = byte;
            i = i + 1;
        }
        proof {
            assert(self.fb() =~= Seq::new(BUFFER_SIZE as nat, |i: int| pack_nibbles(luma, luma)));
            assert(luma < 16 ==> (((luma & 0x0F) << 4) | (luma & 0x0F)) >> 4 == luma && (((luma
                & 0x0F) << 4) | (luma & 0x0F)) & 0x0F == luma) by (bit_vector);
            assert forall|x: int, y: int| in_bounds(x, y) implies spec_pixel(self.fb(), x, y)
                == luma by {
                lemma_byte_index_bounds(x, y);
            }
        }
    }
}

impl<DI: Transport> Ssd1322<DI> {
    /// The ghost log of everything the driver has written to the bus.
    pub open spec fn log(&self) -> Seq<BusOp> {
        self.display.sent()
    }

    /// Creates the driver around a transport, with a zeroed framebuffer
    /// and a clean change tracker.
    pub fn new(display: DI) -> (r: Ssd1322<DI>)
        ensures
            r.wf(),
            r.fb() == Seq::new(BUFFER_SIZE as nat, |i: int| 0u8),
            r.bounding_box is None,
            r.log() == display.sent(),
    {
        let mut buffer: Vec<u8> = Vec::new();
        let mut i: usize = 0;
        while i < BUFFER_SIZE
            invariant
                0 <= i <= BUFFER_SIZE,
                buffer@.len() == i as int,
                forall|j: int| 0 <= j < i ==> buffer@[j] == 0u8,
            decreases BUFFER_SIZE - i,
        {
            buffer.push(0u8);
            i = i + 1;
        }
        proof {
            assert(buffer@ =~= Seq::new(BUFFER_SIZE as nat, |i: int| 0u8));
        }
        Ssd1322 { display, buffer, bounding_box: None }
    }

    /// Writes one command to the bus; the framebuffer and the tracker are
    /// untouched.
    pub fn send_command(&mut self, command: Command) -> (r: Result<(), BusError>)
        ensures
            final(self).fb() == old(self).fb(),
            final(self).bounding_box == old(self).bounding_box,
            r is Ok ==> final(self).log() == old(self).log().push(BusOp::Command(command)),
            r is Err ==> final(self).log() == old(self).log(),
    {
        self.display.send_command(command)
    }

    /// Pushes the entire framebuffer to the device: address the full
    /// surface, begin a RAM write, send the whole buffer as one payload.
    /// Fails as soon as a bus write fails; the framebuffer and the tracker
    /// are untouched either way, so a failed flush is recovered by simply
    /// flushing again.
    pub fn flush(&mut self) -> (r: Result<(), BusError>)
        requires
            old(self).wf(),
        ensures
            final(self).wf(),
            final(self).fb() == old(self).fb(),
            final(self).bounding_box == old(self).bounding_box,
            r is Ok ==> final(self).log() == old(self).log() + full_flush_ops(old(self).fb()),
            r is Err ==> exists|k: int|
                0 <= k < full_flush_ops(old(self).fb()).len() && final(self).log() == old(
                    self,
                ).log() + full_flush_ops(old(self).fb()).take(k),
    {
        let ghost plan = full_flush_ops(old(self).fb());
        if let Err(e) = self.send_command(
            Command::SetColumnAddress(col_address(0), col_address((BYTES_PER_ROW - 1) as u8)),
        ) {
            proof {
                assert(self.log() =~= old(self).log() + plan.take(0));
            }
            return Err(e);
        }
        if let Err(e) = self.send_command(
            Command::SetRowAddress(0, (DISPLAY_HEIGHT - 1) as u8),
        ) {
            proof {
                assert(self.log() =~= old(self).log() + plan.take(1));
            }
            return Err(e);
        }
        if let Err(e) = self.send_command(Command::WriteRam) {
            proof {
                assert(self.log() =~= old(self).log() + plan.take(2));
            }
            return Err(e);
        }
        if let Err(e) = self.display.send_data(self.buffer.as_slice()) {
            proof {
                assert(self.log() =~= old(self).log() + plan.take(3));
            }
            return Err(e);
        }
        proof {
            assert(self.log() =~= old(self).log() + plan);
        }
        Ok(())
    }

    /// Pushes only the dirty rectangle to the device: address exactly the
    /// tracked window, begin a RAM write, then send each dirty row as one
    /// contiguous payload. On full success the tracker is reset, exactly
    /// once; a bus failure leaves it intact, so a caller-driven retry
    /// resends the same still-valid region. With a clean tracker this is a
    /// no-op that succeeds without touching the bus.
    pub fn flush_changed(&mut self) -> (r: Result<(), BusError>)
        requires
            old(self).wf(),
        ensures
            final(self).wf(),
            final(self).fb() == old(self).fb(),
            r is Ok ==> final(self).log() == old(self).log() + flush_changed_plan(
                old(self).fb(),
                old(self).bounding_box,
            ) && final(self).bounding_box is None,
            r is Err ==> final(self).bounding_box == old(self).bounding_box && exists|k: int|
                0 <= k < flush_changed_plan(old(self).fb(), old(self).bounding_box).len()
                    && final(self).log() == old(self).log() + flush_changed_plan(
                    old(self).fb(),
                    old(self).bounding_box,
                ).take(k),
            old(self).bounding_box is None ==> r is Ok && final(self).log() == old(self).log(),
    {
        let ghost plan = flush_changed_plan(old(self).fb(), old(self).bounding_box);
        let rect = match self.bounding_box {
            None => {
                proof {
                    assert(self.log() =~= old(self).log() + plan);
                }
                return Ok(());
            },
            Some(rect) => rect,
        };
        if let Err(e) = self.send_command(
            Command::SetColumnAddress(col_address(rect.col_min), col_address(rect.col_max)),
        ) {
            proof {
                assert(self.log() =~= old(self).log() + plan.take(0));
            }
            return Err(e);
        }
        if let Err(e) = self.send_command(Command::SetRowAddress(rect.row_min, rect.row_max)) {
            proof {
                assert(self.log() =~= old(self).log() + plan.take(1));
            }
            return Err(e);
        }
        if let Err(e) = self.send_command(Command::WriteRam) {
            proof {
                assert(self.log() =~= old(self).log() + plan.take(2));
            }
            return Err(e);
        }
        let mut row: usize = rect.row_min as usize;
        let end: usize = rect.row_max as usize;
        while row <= end
            invariant
                self.wf(),
                self.fb() == old(self).fb(),
                self.bounding_box == old(self).bounding_box,
                old(self).bounding_box == Some(rect),
                rect_wf(rect),
                rect.row_min as int <= row as int <= end as int + 1,
                end as int == rect.row_max as int,
                plan == flush_changed_plan(old(self).fb(), old(self).bounding_box),
                plan.len() == 3 + (rect.row_max - rect.row_min + 1),
                self.log() == old(self).log() + plan.take(
                    3 + (row as int - rect.row_min as int),
                ),
            decreases end + 1 - row,
        {
            let start: usize = row * BYTES_PER_ROW + rect.col_min as usize;
            let len: usize = rect.col_max as usize - rect.col_min as usize + 1;
            let payload = vstd::slice::slice_subrange(self.buffer.as_slice(), start, start + len);
            let ghost k = 3 + (row as int - rect.row_min as int);
            if let Err(e) = self.display.send_data(payload) {
                proof {
                    assert(0 <= k < plan.len());
                }
                return Err(e);
            }
            proof {
                assert(plan[k] == BusOp::Data(row_slice(old(self).fb(), rect, row as int)));
                assert(payload@ == row_slice(old(self).fb(), rect, row as int));
                assert(old(self).log() + plan.take(k + 1) =~= (old(self).log() + plan.take(k)).push(
                    plan[k],
                ));
            }
            row = row + 1;
        }
        self.bounding_box = None;
        proof {
            assert(plan.take(plan.len() as int) =~= plan);
        }
        Ok(())
    }
}

impl<DI> BoundingBox for Ssd1322<DI> {
    open spec fn tracked_box(&self) -> Option<Rect> {
        self.bounding_box
    }

    open spec fn box_inv(&self) -> bool {
        self.wf()
    }

    fn update_box(&mut self, x: u8, y: u8) {
        self.touch(x, y);
    }
}

/// A completed partial flush leaves the tracker clean, and a partial flush
/// of a clean tracker writes nothing to the bus: flushing twice with no
/// intervening writes sends the data exactly once.
pub proof fn lemma_flush_reset_no_resend(buf: Seq<u8>)
    ensures
        flush_changed_plan(buf, Option::<Rect>::None) == Seq::<BusOp>::empty(),
{
}

} // verus!
