//! The bus transport the flush engine drives.
//!
//! The driver only needs two operations of a transport: send a command and
//! send a data payload. Both may fail with an opaque bus error. The trait
//! records in a ghost log exactly what went over the bus, so the flush
//! engine's contracts can pin down the emitted command/data sequence.

use vstd::prelude::*;

verus! {

/// A controller command the flush engine issues. Column addresses are in
/// the device's native units (see `crate::geometry::BYTES_PER_COLUMN_UNIT`
/// and `crate::geometry::COLUMN_ADDRESS_OFFSET`); row addresses are pixel
/// rows.
#[derive(Clone, Copy, PartialEq, Eq, Structural, Debug)]
pub enum Command {
    /// Restrict writes to an inclusive native-unit column range.
    SetColumnAddress(u8, u8),
    /// Restrict writes to an inclusive pixel-row range.
    SetRowAddress(u8, u8),
    /// Begin a video-RAM write: following data payloads fill the
    /// addressed window.
    WriteRam,
}

/// Opaque bus failure reported by a transport.
#[derive(Clone, Copy, PartialEq, Eq, Structural, Debug)]
pub struct BusError;

/// One item that went over the bus, as the ghost log records it.
pub enum BusOp {
    /// A command write.
    Command(Command),
    /// A data payload write.
    Data(Seq<u8>),
}

/// A write-only command/data bus.
///
/// `sent()` is the ghost log of everything successfully written since the
/// transport was created. A failed write leaves the log unchanged: the
/// driver assumes a transport does not retain partial writes it cannot
/// roll back.
pub trait Transport: Sized {
    /// Ghost log of the successfully written commands and payloads, oldest
    /// first. The default stands for a transport whose log is not modelled;
    /// an implementation whose callers reason about the log overrides it.
    open spec fn sent(&self) -> Seq<BusOp> {
        Seq::<BusOp>::empty()
    }

    /// Writes one command to the bus.
    fn send_command(&mut self, command: Command) -> (r: Result<(), BusError>)
        ensures
            r is Ok ==> final(self).sent() == old(self).sent().push(BusOp::Command(command)),
            r is Err ==> final(self).sent() == old(self).sent(),
    ;

    /// Writes one data payload to the bus.
    fn send_data(&mut self, data: &[u8]) -> (r: Result<(), BusError>)
        ensures
            r is Ok ==> final(self).sent() == old(self).sent().push(BusOp::Data(data@)),
            r is Err ==> final(self).sent() == old(self).sent(),
    ;
}

/// One recorded bus write of the in-memory transport.
#[derive(PartialEq, Eq, Debug)]
pub enum RecordedOp {
    /// A command write.
    Command(Command),
    /// A data payload write, with the payload bytes.
    Data(Vec<u8>),
}

impl View for RecordedOp {
    type V = BusOp;

    open spec fn view(&self) -> BusOp {
        match self {
            RecordedOp::Command(c) => BusOp::Command(*c),
            RecordedOp::Data(d) => BusOp::Data(d@),
        }
    }
}

/// An in-memory transport: it records every successful write and can be
/// told to fail exactly one write, so flush error paths can be exercised
/// without hardware.
pub struct MockTransport {
    /// Every successfully written command and payload, oldest first.
    pub ops: Vec<RecordedOp>,
    /// When `Some(n)`, the write that would be recorded at index `n` fails
    /// once with `BusError` instead; later writes succeed again.
    pub fail_once_at: Option<usize>,
}

impl MockTransport {
    /// A transport on which every write succeeds.
    pub fn new() -> (r: MockTransport)
        ensures
            r.sent() == Seq::<BusOp>::empty(),
            r.fail_once_at is None,
    {
        let r = MockTransport { ops: Vec::new(), fail_once_at: None };
        proof {
            assert(r.sent() =~= Seq::<BusOp>::empty());
        }
        r
    }

    /// A transport whose write number `n` (counting successful writes from
    /// zero) fails once.
    pub fn failing_at(n: usize) -> (r: MockTransport)
        ensures
            r.sent() == Seq::<BusOp>::empty(),
            r.fail_once_at == Some(n),
    {
        let r = MockTransport { ops: Vec::new(), fail_once_at: Some(n) };
        proof {
            assert(r.sent() =~= Seq::<BusOp>::empty());
        }
        r
    }

    /// True when the next write is the one told to fail; clears the
    /// instruction so the write after it succeeds.
    fn take_failure(&mut self) -> (fail: bool)
        ensures
            final(self).ops == old(self).ops,
            fail == (match old(self).fail_once_at {
                Some(n) => n as int == old(self).ops@.len(),
                None => false,
            }),
            fail ==> final(self).fail_once_at is None,
            !fail ==> final(self).fail_once_at == old(self).fail_once_at,
    {
        let fail = match self.fail_once_at {
            Some(n) => n == self.ops.len(),
            None => false,
        };
        if fail {
            self.fail_once_at = None;
        }
        fail
    }
}

impl Transport for MockTransport {
    open spec fn sent(&self) -> Seq<BusOp> {
        Seq::new(self.ops@.len(), |i: int| self.ops@[i]@)
    }

    fn send_command(&mut self, command: Command) -> (r: Result<(), BusError>) {
        if self.take_failure() {
            Err(BusError)
        } else {
            self.ops.push(RecordedOp::Command(command));
            proof {
                assert(self.sent() =~= old(self).sent().push(BusOp::Command(command)));
            }
            Ok(())
        }
    }

    fn send_data(&mut self, data: &[u8]) -> (r: Result<(), BusError>) {
        if self.take_failure() {
            Err(BusError)
        } else {
            let payload = vstd::slice::slice_to_vec(data);
            self.ops.push(RecordedOp::Data(payload));
            proof {
                assert(self.sent() =~= old(self).sent().push(BusOp::Data(data@)));
            }
            Ok(())
        }
    }
}

} // verus!
