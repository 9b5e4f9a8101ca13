//! Behavioural tests for the SSD1322 driver core, run against the
//! in-memory transport.

use ssd1322::display::{col_address, Ssd1322};
use ssd1322::geometry::{Rect, BUFFER_SIZE, BYTES_PER_ROW, DISPLAY_HEIGHT, DISPLAY_WIDTH};
use ssd1322::pixel::{update_lower_nibble, update_upper_nibble};
use ssd1322::transport::{BusError, Command, MockTransport, RecordedOp, Transport};

fn fresh() -> Ssd1322<MockTransport> {
    Ssd1322::new(MockTransport::new())
}

#[test]
fn new_driver_is_zeroed_and_clean() {
    let d = fresh();
    assert_eq!(d.buffer.len(), BUFFER_SIZE);
    assert!(d.buffer.iter().all(|&b| b == 0));
    assert_eq!(d.bounding_box, None);
    assert!(d.display.ops.is_empty());
}

#[test]
fn size_reports_fixed_dimensions() {
    let d = fresh();
    assert_eq!(d.size(), (256, 64));
    assert_eq!(DISPLAY_WIDTH, 256);
    assert_eq!(DISPLAY_HEIGHT, 64);
}

#[test]
fn nibble_update_helpers_are_exact() {
    assert_eq!(update_upper_nibble(0x00, 0x5), 0x50);
    assert_eq!(update_upper_nibble(0xAB, 0x5), 0x5B);
    assert_eq!(update_lower_nibble(0x00, 0x3), 0x03);
    assert_eq!(update_lower_nibble(0xAB, 0x3), 0xA3);
    // inputs above 4 bits are masked, as the device stores only a nibble
    assert_eq!(update_upper_nibble(0xFF, 0x12), 0x2F);
    assert_eq!(update_lower_nibble(0xFF, 0x12), 0xF2);
}

#[test]
fn round_trip_packing() {
    // Writing luma then reading the pixel back yields exactly luma and
    // leaves the neighbouring nibble of the same byte unchanged.
    let mut d = fresh();
    let coords: [(i32, i32); 6] = [(0, 0), (1, 0), (7, 3), (254, 63), (255, 63), (128, 17)];
    for &(x, y) in coords.iter() {
        for luma in 0u8..16 {
            let neighbour = if x % 2 == 0 { x + 1 } else { x - 1 };
            let before = d.get_pixel(neighbour, y);
            d.set_pixel(x, y, luma);
            assert_eq!(d.get_pixel(x, y), luma);
            assert_eq!(d.get_pixel(neighbour, y), before);
        }
    }
}

#[test]
fn idempotent_writes_do_not_dirty() {
    let mut d = fresh();
    d.set_pixel(10, 5, 7);
    let after_first = d.bounding_box;
    assert!(after_first.is_some());
    // The byte-wise no-op second write reports no touch.
    d.set_pixel(10, 5, 7);
    assert_eq!(d.bounding_box, after_first);
    // Even after a flush reset the identical write stays silent.
    assert_eq!(d.flush_changed(), Ok(()));
    assert_eq!(d.bounding_box, None);
    d.set_pixel(10, 5, 7);
    assert_eq!(d.bounding_box, None);
}

#[test]
fn writing_luma_zero_on_fresh_buffer_is_silent() {
    // A fresh buffer already holds zero everywhere, so drawing zero
    // changes no byte and never dirties the tracker.
    let mut d = fresh();
    d.set_pixel(3, 3, 0);
    assert_eq!(d.bounding_box, None);
    assert!(d.buffer.iter().all(|&b| b == 0));
}

#[test]
fn tracker_holds_minimal_bounding_rectangle() {
    let mut d = fresh();
    let touches: [(u8, u8); 7] = [(40, 10), (41, 10), (7, 33), (200, 2), (40, 63), (0, 12), (255, 5)];
    for &(x, y) in touches.iter() {
        d.touch(x, y);
    }
    // brute-force min/max over the touch history, in byte columns and rows
    let col_min = touches.iter().map(|t| t.0 / 2).min().unwrap();
    let col_max = touches.iter().map(|t| t.0 / 2).max().unwrap();
    let row_min = touches.iter().map(|t| t.1).min().unwrap();
    let row_max = touches.iter().map(|t| t.1).max().unwrap();
    assert_eq!(
        d.bounding_box,
        Some(Rect { col_min, col_max, row_min, row_max })
    );
}

#[test]
fn first_touch_starts_single_byte_rectangle() {
    let mut d = fresh();
    d.touch(41, 10);
    assert_eq!(
        d.bounding_box,
        Some(Rect { col_min: 20, col_max: 20, row_min: 10, row_max: 10 })
    );
}

#[test]
fn reset_clears_dirt() {
    // After a successful flush_changed, a second one with no intervening
    // writes is a no-op that sends nothing.
    let mut d = fresh();
    d.set_pixel(100, 20, 9);
    assert_eq!(d.flush_changed(), Ok(()));
    assert_eq!(d.bounding_box, None);
    let sent = d.display.ops.len();
    assert_eq!(d.flush_changed(), Ok(()));
    assert_eq!(d.display.ops.len(), sent);
}

#[test]
fn full_clear_sets_every_pixel() {
    let mut d = fresh();
    d.clear(15);
    assert!(d.buffer.iter().all(|&b| b == 0xFF));
    for &(x, y) in [(0, 0), (255, 0), (0, 63), (255, 63), (131, 31)].iter() {
        assert_eq!(d.get_pixel(x, y), 15);
    }
    d.clear(6);
    assert!(d.buffer.iter().all(|&b| b == 0x66));
    assert_eq!(d.get_pixel(17, 42), 6);
}

#[test]
fn clear_leaves_tracker_untouched() {
    // Clearing implies the caller flushes the full buffer; the tracker is
    // deliberately not widened or reset by clear.
    let mut d = fresh();
    d.set_pixel(10, 5, 7);
    let dirty = d.bounding_box;
    d.clear(0);
    assert_eq!(d.bounding_box, dirty);
}

#[test]
fn scenario_two_pixels_one_byte_flush() {
    // Draw (0,0) luma 5: byte 0 becomes 0x50. Draw (1,0) luma 3: byte 0
    // becomes 0x53. The rectangle is column 0, row 0, and flush_changed
    // sends one addressing pair plus a single one-byte payload.
    let mut d = fresh();
    d.set_pixel(0, 0, 5);
    assert_eq!(d.buffer[0], 0x50);
    d.set_pixel(1, 0, 3);
    assert_eq!(d.buffer[0], 0x53);
    assert_eq!(
        d.bounding_box,
        Some(Rect { col_min: 0, col_max: 0, row_min: 0, row_max: 0 })
    );
    assert_eq!(d.flush_changed(), Ok(()));
    assert_eq!(d.display.ops.len(), 4);
    assert_eq!(
        d.display.ops[0],
        RecordedOp::Command(Command::SetColumnAddress(0x1C, 0x1C))
    );
    assert_eq!(d.display.ops[1], RecordedOp::Command(Command::SetRowAddress(0, 0)));
    assert_eq!(d.display.ops[2], RecordedOp::Command(Command::WriteRam));
    assert_eq!(d.display.ops[3], RecordedOp::Data(vec![0x53]));
}

#[test]
fn out_of_bounds_draw_is_noop() {
    // Drawing at (256, 0) on the 256-wide surface changes nothing and
    // reports no error; negative and below-surface coordinates likewise.
    let mut d = fresh();
    d.set_pixel(256, 0, 7);
    d.set_pixel(-1, 5, 3);
    d.set_pixel(0, 64, 9);
    d.set_pixel(300, -20, 1);
    assert!(d.buffer.iter().all(|&b| b == 0));
    assert_eq!(d.bounding_box, None);
    assert!(d.display.ops.is_empty());
}

#[test]
fn full_flush_sends_whole_buffer() {
    let mut d = fresh();
    d.set_pixel(2, 1, 4);
    let dirty = d.bounding_box;
    assert_eq!(d.flush(), Ok(()));
    // full flush addresses the whole surface and leaves the tracker alone
    assert_eq!(d.bounding_box, dirty);
    assert_eq!(d.display.ops.len(), 4);
    assert_eq!(
        d.display.ops[0],
        RecordedOp::Command(Command::SetColumnAddress(0x1C, 0x5B))
    );
    assert_eq!(d.display.ops[1], RecordedOp::Command(Command::SetRowAddress(0, 0x3F)));
    assert_eq!(d.display.ops[2], RecordedOp::Command(Command::WriteRam));
    match &d.display.ops[3] {
        RecordedOp::Data(payload) => {
            assert_eq!(payload.len(), BUFFER_SIZE);
            assert_eq!(payload.as_slice(), d.buffer.as_slice());
        }
        other => panic!("expected a data payload, got {:?}", other),
    }
}

#[test]
fn flush_changed_sends_row_windows() {
    // A rectangle spanning rows 2..=3 and byte columns 1..=2 goes out as
    // two contiguous two-byte row slices.
    let mut d = fresh();
    d.set_pixel(2, 2, 1); // byte column 1, row 2
    d.set_pixel(5, 3, 2); // byte column 2, row 3
    assert_eq!(
        d.bounding_box,
        Some(Rect { col_min: 1, col_max: 2, row_min: 2, row_max: 3 })
    );
    assert_eq!(d.flush_changed(), Ok(()));
    let ops = &d.display.ops;
    assert_eq!(ops.len(), 5);
    assert_eq!(ops[0], RecordedOp::Command(Command::SetColumnAddress(0x1C, 0x1D)));
    assert_eq!(ops[1], RecordedOp::Command(Command::SetRowAddress(2, 3)));
    assert_eq!(ops[2], RecordedOp::Command(Command::WriteRam));
    let row2 = &d.buffer[2 * BYTES_PER_ROW + 1..2 * BYTES_PER_ROW + 3];
    let row3 = &d.buffer[3 * BYTES_PER_ROW + 1..3 * BYTES_PER_ROW + 3];
    assert_eq!(ops[3], RecordedOp::Data(row2.to_vec()));
    assert_eq!(ops[4], RecordedOp::Data(row3.to_vec()));
    assert_eq!(row2, &[0x10, 0x00]);
    assert_eq!(row3, &[0x00, 0x02]);
}

#[test]
fn failed_flush_keeps_tracker_for_retry() {
    // The write after the three addressing commands (the first row
    // payload) fails once: the tracker must stay intact, and a retry
    // resends the same region and then resets it.
    let mut d = Ssd1322::new(MockTransport::failing_at(3));
    d.set_pixel(100, 20, 9);
    let dirty = d.bounding_box;
    assert!(dirty.is_some());
    assert_eq!(d.flush_changed(), Err(BusError));
    assert_eq!(d.bounding_box, dirty);
    assert_eq!(d.display.ops.len(), 3);
    assert_eq!(d.flush_changed(), Ok(()));
    assert_eq!(d.bounding_box, None);
    assert_eq!(d.display.ops.len(), 7);
    assert_eq!(d.display.ops[6], RecordedOp::Data(vec![0x90]));
}

#[test]
fn failing_first_command_sends_nothing() {
    let mut d = Ssd1322::new(MockTransport::failing_at(0));
    d.set_pixel(0, 0, 1);
    assert_eq!(d.flush_changed(), Err(BusError));
    assert!(d.display.ops.is_empty());
    assert!(d.bounding_box.is_some());
}

#[test]
fn flush_changed_on_clean_tracker_succeeds_silently() {
    // Even on a transport that would fail the next write: nothing is
    // written, so nothing can fail.
    let mut d = Ssd1322::new(MockTransport::failing_at(0));
    assert_eq!(d.flush_changed(), Ok(()));
    assert!(d.display.ops.is_empty());
}

#[test]
fn column_address_translation() {
    // Native column units span two framebuffer bytes and start at 0x1C.
    assert_eq!(col_address(0), 0x1C);
    assert_eq!(col_address(1), 0x1C);
    assert_eq!(col_address(2), 0x1D);
    assert_eq!(col_address(127), 0x5B);
}

#[test]
fn send_command_forwards_to_transport() {
    let mut d = fresh();
    assert_eq!(d.send_command(Command::WriteRam), Ok(()));
    assert_eq!(d.display.ops, vec![RecordedOp::Command(Command::WriteRam)]);
}

#[test]
fn mock_transport_fails_exactly_once() {
    let mut t = MockTransport::failing_at(1);
    assert_eq!(t.send_command(Command::WriteRam), Ok(()));
    assert_eq!(t.send_command(Command::WriteRam), Err(BusError));
    assert_eq!(t.send_command(Command::WriteRam), Ok(()));
    assert_eq!(t.ops.len(), 2);
    assert_eq!(t.send_data(&[1, 2, 3]), Ok(()));
    assert_eq!(t.ops[2], RecordedOp::Data(vec![1, 2, 3]));
}
