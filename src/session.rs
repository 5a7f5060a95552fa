use vstd::prelude::*;

use crate::error::{fails_with, ErrorKind, SessionError};
use crate::slot::Slot;

verus! {

/// The most bytes one read returns.
pub const READ_BUFFER_LEN: usize = 10000;

/// The serial line's speed, in bits per second.
pub const SERIAL_BAUD_RATE: u32 = 115200;

/// How long a serial read waits for data, in milliseconds: it does not wait.
pub const SERIAL_READ_TIMEOUT_MS: u64 = 0;

/// How long a socket read or write may block, in milliseconds.
pub const SOCKET_IO_TIMEOUT_MS: u64 = 100;

pub const NO_PORT_OPEN: &'static str = "No port open";

pub const NO_CONNECTION_OPEN: &'static str = "No connection open";

pub const NO_CONNECTION_TO_CLOSE: &'static str = "No connection to close";

pub const DEVICE_TIMED_OUT: &'static str = "The device did not accept the data in time";

pub const SOCKET_TIMED_OUT: &'static str = "The socket did not accept the data in time";

pub const SHORT_WRITE: &'static str = "Only part of the data was sent";

/// How one read or write call on a serial device or a socket ended.
pub enum IoOutcome {
    /// The call moved this many bytes.
    Done(usize),
    /// Nothing could be moved without blocking.
    WouldBlock,
    /// The call's own timeout ran out.
    TimedOut,
    /// Any other failure, with its description.
    Failed(String),
}

/// The bytes a read returns when the device reported `outcome` after reading
/// into `buf`: the first `n` bytes when it read `n`, none when no data was
/// there.
pub open spec fn received(buf: Seq<u8>, outcome: IoOutcome) -> Seq<u8> {
    match outcome {
        IoOutcome::Done(n) => if n <= buf.len() {
            buf.subrange(0, n as int)
        } else {
            buf
        },
        _ => seq![],
    }
}

/// A zeroed buffer of the size of one read.
pub fn read_buffer() -> (r: Vec<u8>)
    ensures
        r@ == Seq::new(READ_BUFFER_LEN as nat, |i: int| 0u8),
{
    let r: Vec<u8> = vec![0u8; READ_BUFFER_LEN];
    assert(r@ =~= Seq::new(READ_BUFFER_LEN as nat, |i: int| 0u8));
    r
}

fn prefix(buf: Vec<u8>, outcome: &IoOutcome) -> (r: Vec<u8>)
    ensures
        r@ == received(buf@, *outcome),
{
    match outcome {
        IoOutcome::Done(n) => {
            let mut buf = buf;
            buf.truncate(*n);
            buf
        },
        _ => Vec::new(),
    }
}

/// Access to the open serial session's handle; a state failure when no port
/// is open.
pub fn serial_session<H>(slot: &mut Slot<H>) -> (r: Result<&mut H, SessionError>)
    ensures
        old(slot)@ is None ==> fails_with(r, ErrorKind::State, NO_PORT_OPEN@),
        old(slot)@ is None ==> final(slot)@ is None,
        old(slot)@ is Some ==> r is Ok,
        r matches Ok(h) ==> old(slot)@ == Some(*h) && final(slot)@ == Some(*final(h)),
{
    match slot.handle_mut() {
        Some(h) => Ok(h),
        None => Err(SessionError::new(ErrorKind::State, NO_PORT_OPEN)),
    }
}

/// Access to the open network session's handle; a state failure when no
/// connection is open.
pub fn network_session<H>(slot: &mut Slot<H>) -> (r: Result<&mut H, SessionError>)
    ensures
        old(slot)@ is None ==> fails_with(r, ErrorKind::State, NO_CONNECTION_OPEN@),
        old(slot)@ is None ==> final(slot)@ is None,
        old(slot)@ is Some ==> r is Ok,
        r matches Ok(h) ==> old(slot)@ == Some(*h) && final(slot)@ == Some(*final(h)),
{
    match slot.handle_mut() {
        Some(h) => Ok(h),
        None => Err(SessionError::new(ErrorKind::State, NO_CONNECTION_OPEN)),
    }
}

/// The result of a serial read into `buf` that ended with `outcome`: the bytes
/// read, none when no data was waiting, a transport failure on any other
/// error.
pub fn serial_read_result(buf: Vec<u8>, outcome: IoOutcome) -> (r: Result<Vec<u8>, SessionError>)
    ensures
        outcome is Failed ==> fails_with(r, ErrorKind::Transport, outcome->Failed_0@),
        !(outcome is Failed) ==> r is Ok,
        r matches Ok(v) ==> v@ == received(buf@, outcome),
{
    match outcome {
        IoOutcome::Failed(detail) => Err(SessionError { kind: ErrorKind::Transport, detail }),
        _ => Ok(prefix(buf, &outcome)),
    }
}

/// The result of a network read. `outcome` is `None` when the slot was held by
/// another operation and no read was made. Only the bytes actually read come
/// back; contention, a timeout and a failed read all give no bytes and no
/// error, so that a polling caller is never disturbed.
pub fn network_read_result(buf: Vec<u8>, outcome: Option<IoOutcome>) -> (r: Vec<u8>)
    ensures
        outcome matches Some(o) ==> r@ == received(buf@, o),
        outcome is None ==> r@.len() == 0,
{
    match outcome {
        Some(o) => prefix(buf, &o),
        None => Vec::new(),
    }
}

/// The result of a serial write that ended with `outcome`: success however
/// many bytes went out, since partial writes are not retried; any failure of
/// the device, a timeout included, is a transport failure.
pub fn serial_write_result(outcome: IoOutcome) -> (r: Result<(), SessionError>)
    ensures
        outcome is Done ==> r is Ok,
        outcome is WouldBlock || outcome is TimedOut ==> fails_with(
            r,
            ErrorKind::Transport,
            DEVICE_TIMED_OUT@,
        ),
        outcome is Failed ==> fails_with(r, ErrorKind::Transport, outcome->Failed_0@),
{
    match outcome {
        IoOutcome::Done(_) => Ok(()),
        IoOutcome::WouldBlock | IoOutcome::TimedOut => Err(
            SessionError::new(ErrorKind::Transport, DEVICE_TIMED_OUT),
        ),
        IoOutcome::Failed(detail) => Err(SessionError { kind: ErrorKind::Transport, detail }),
    }
}

/// The result of a network write of `len` bytes that ended with `outcome`:
/// success only when the whole buffer went out, a transport failure when
/// fewer bytes did, a timeout failure when the socket timed out or would
/// block, a transport failure on any other error.
pub fn network_write_result(outcome: IoOutcome, len: usize) -> (r: Result<(), SessionError>)
    ensures
        outcome matches IoOutcome::Done(n) && n >= len ==> r is Ok,
        outcome matches IoOutcome::Done(n) && n < len ==> fails_with(
            r,
            ErrorKind::Transport,
            SHORT_WRITE@,
        ),
        outcome is WouldBlock || outcome is TimedOut ==> fails_with(
            r,
            ErrorKind::Timeout,
            SOCKET_TIMED_OUT@,
        ),
        outcome is Failed ==> fails_with(r, ErrorKind::Transport, outcome->Failed_0@),
{
    match outcome {
        IoOutcome::Done(n) => if n >= len {
            Ok(())
        } else {
            Err(SessionError::new(ErrorKind::Transport, SHORT_WRITE))
        },
        IoOutcome::WouldBlock | IoOutcome::TimedOut => Err(
            SessionError::new(ErrorKind::Timeout, SOCKET_TIMED_OUT),
        ),
        IoOutcome::Failed(detail) => Err(SessionError { kind: ErrorKind::Transport, detail }),
    }
}

/// Closes the serial session. Closing is idempotent: it succeeds whether or
/// not a port was open, and the slot is closed afterwards.
pub fn close_serial<H>(slot: &mut Slot<H>) -> (r: Result<(), SessionError>)
    ensures
        r is Ok,
        final(slot)@ is None,
{
    let _closed = slot.take();
    Ok(())
}

/// Takes the network session's handle out of its slot so that it can be shut
/// down; a state failure when no connection was open. The slot is closed
/// afterwards either way.
pub fn close_network<H>(slot: &mut Slot<H>) -> (r: Result<H, SessionError>)
    ensures
        final(slot)@ is None,
        old(slot)@ matches Some(h) ==> r == Ok::<H, SessionError>(h),
        old(slot)@ is None ==> fails_with(r, ErrorKind::State, NO_CONNECTION_TO_CLOSE@),
{
    match slot.take() {
        Some(h) => Ok(h),
        None => Err(SessionError::new(ErrorKind::State, NO_CONNECTION_TO_CLOSE)),
    }
}

/// A read hands back exactly the bytes the device delivered, in order and
/// uncut: when the device puts the bytes `sent`, no more than one buffer's
/// worth, at the start of the read buffer and reports their count, the read
/// returns `sent`.
pub proof fn lemma_read_returns_delivered(buf: Seq<u8>, sent: Seq<u8>)
    requires
        buf.len() == READ_BUFFER_LEN,
        sent.len() <= READ_BUFFER_LEN,
        buf.subrange(0, sent.len() as int) == sent,
    ensures
        received(buf, IoOutcome::Done(sent.len() as usize)) == sent,
{
}

} // verus!
