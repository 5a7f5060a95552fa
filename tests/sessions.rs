use configurator::address::{validate_network_address, EMPTY_ADDRESS, MISSING_PORT};
use configurator::error::{call_result, classify, ErrorKind, FailedCall, SessionError};
use configurator::lock::{BoundedWait, LockStep, LOCK_TIMEOUT, POLL_INTERVAL_MS, SLOT_WAIT_BUDGET_MS};
use configurator::session::{
    close_network, close_serial, network_read_result, network_session, read_buffer,
    network_write_result, serial_read_result, serial_session, serial_write_result, IoOutcome,
    DEVICE_TIMED_OUT, NO_CONNECTION_OPEN, NO_CONNECTION_TO_CLOSE, NO_PORT_OPEN, READ_BUFFER_LEN,
    SHORT_WRITE, SOCKET_TIMED_OUT,
};
use configurator::slot::Slot;

#[test]
fn empty_address_is_rejected() {
    let e = validate_network_address("").unwrap_err();
    assert_eq!(e.kind, ErrorKind::Validation);
    assert_eq!(e.detail, EMPTY_ADDRESS);
}

#[test]
fn address_without_port_is_rejected() {
    let e = validate_network_address("noportnospec").unwrap_err();
    assert_eq!(e.kind, ErrorKind::Validation);
    assert_eq!(e.detail, MISSING_PORT);
}

#[test]
fn bad_address_message_cites_port_separator() {
    let e = validate_network_address("badaddress").unwrap_err();
    assert_eq!(e.kind, ErrorKind::Validation);
    let m = e.message();
    assert!(m.starts_with("ValidationError: "));
    assert!(m.contains("port"));
    assert!(m.contains("hostname:port"));
}

#[test]
fn address_with_port_is_accepted() {
    assert!(validate_network_address("192.168.1.2:5761").is_ok());
    assert!(validate_network_address("elrs_rx.local:5761").is_ok());
    assert!(validate_network_address(":").is_ok());
}

#[test]
fn message_names_kind_and_detail() {
    let e = SessionError::new(ErrorKind::State, "x");
    assert_eq!(e.message(), "StateError: x");
    assert_eq!(SessionError::new(ErrorKind::Resolution, "y").message(), "ResolutionError: y");
    assert_eq!(SessionError::new(ErrorKind::Timeout, "").message(), "TimeoutError: ");
    assert_eq!(SessionError::new(ErrorKind::Transport, "z").message(), "TransportError: z");
    assert_eq!(ErrorKind::Validation.label(), "ValidationError");
}

#[test]
fn wait_retries_until_budget_then_gives_up() {
    let w = BoundedWait::new(SLOT_WAIT_BUDGET_MS);
    assert_eq!(w.after_attempt(true, 0), LockStep::Acquired);
    assert_eq!(w.after_attempt(true, 5000), LockStep::Acquired);
    assert_eq!(w.after_attempt(false, 0), LockStep::Retry { sleep_ms: POLL_INTERVAL_MS });
    assert_eq!(w.after_attempt(false, 999), LockStep::Retry { sleep_ms: 1 });
    assert_eq!(w.after_attempt(false, 1000), LockStep::GiveUp);
    assert_eq!(w.after_attempt(false, 1001), LockStep::GiveUp);
}

#[test]
fn held_slot_times_out_at_budget_not_before() {
    // A slot held by a long operation: every attempt fails while the clock
    // advances by the poll interval.
    let w = BoundedWait::new(SLOT_WAIT_BUDGET_MS);
    let mut elapsed: u64 = 0;
    let mut retries: u64 = 0;
    loop {
        match w.after_attempt(false, elapsed) {
            LockStep::Retry { sleep_ms } => {
                retries += 1;
                elapsed += sleep_ms;
            }
            LockStep::GiveUp => break,
            LockStep::Acquired => panic!("no attempt succeeded"),
        }
    }
    assert_eq!(elapsed, 1000);
    assert_eq!(retries, 1000);
    let e = w.timeout_error();
    assert_eq!(e.kind, ErrorKind::Timeout);
    assert_eq!(e.detail, LOCK_TIMEOUT);
}

#[test]
fn try_only_wait_gives_up_at_once() {
    let w = BoundedWait::try_only();
    assert_eq!(w.budget_ms, 0);
    assert_eq!(w.after_attempt(false, 0), LockStep::GiveUp);
    assert_eq!(w.after_attempt(true, 0), LockStep::Acquired);
}

#[test]
fn slot_set_replaces_and_take_closes() {
    let mut s: Slot<u32> = Slot::new();
    assert!(!s.is_open());
    assert_eq!(s.set(7), None);
    assert!(s.is_open());
    assert_eq!(s.set(9), Some(7));
    assert_eq!(s.handle_mut().map(|h| *h), Some(9));
    assert_eq!(s.take(), Some(9));
    assert!(!s.is_open());
    assert_eq!(s.take(), None);
    assert!(s.handle_mut().is_none());
}

#[test]
fn handle_mut_changes_the_stored_handle() {
    let mut s: Slot<u32> = Slot::new();
    s.set(1);
    if let Some(h) = s.handle_mut() {
        *h = 5;
    }
    assert_eq!(s.take(), Some(5));
}

#[test]
fn serial_read_without_port_is_state_error() {
    let mut s: Slot<u32> = Slot::new();
    let e = serial_session(&mut s).unwrap_err();
    assert_eq!(e.kind, ErrorKind::State);
    assert_eq!(e.detail, NO_PORT_OPEN);
}

#[test]
fn network_write_without_connection_is_state_error() {
    let mut s: Slot<u32> = Slot::new();
    let e = network_session(&mut s).unwrap_err();
    assert_eq!(e.kind, ErrorKind::State);
    assert_eq!(e.detail, NO_CONNECTION_OPEN);
    assert!(e.detail.to_lowercase().contains("no connection open"));
    assert!(!s.is_open());
}

#[test]
fn open_session_gives_its_handle() {
    let mut s: Slot<u32> = Slot::new();
    s.set(3);
    assert_eq!(serial_session(&mut s).map(|h| *h).ok(), Some(3));
    assert_eq!(network_session(&mut s).map(|h| *h).ok(), Some(3));
    assert!(s.is_open());
}

#[test]
fn read_buffer_is_zeroed_and_full_size() {
    let b = read_buffer();
    assert_eq!(b.len(), READ_BUFFER_LEN);
    assert_eq!(b.len(), 10000);
    assert!(b.iter().all(|x| *x == 0));
}

#[test]
fn serial_read_returns_only_bytes_read() {
    let mut b = read_buffer();
    b[0] = 1;
    b[1] = 2;
    b[2] = 3;
    let r = serial_read_result(b, IoOutcome::Done(3)).unwrap();
    assert_eq!(r, vec![1, 2, 3]);
}

#[test]
fn serial_read_without_data_is_empty() {
    assert_eq!(serial_read_result(read_buffer(), IoOutcome::TimedOut).unwrap(), Vec::<u8>::new());
    assert_eq!(serial_read_result(read_buffer(), IoOutcome::WouldBlock).unwrap(), Vec::<u8>::new());
    assert_eq!(serial_read_result(read_buffer(), IoOutcome::Done(0)).unwrap(), Vec::<u8>::new());
}

#[test]
fn serial_read_failure_is_transport_error() {
    let e = serial_read_result(read_buffer(), IoOutcome::Failed("broken pipe".to_string())).unwrap_err();
    assert_eq!(e.kind, ErrorKind::Transport);
    assert_eq!(e.detail, "broken pipe");
}

#[test]
fn serial_round_trip_keeps_bytes() {
    // A loopback peer hands back what was written: the device fills the
    // read buffer with the sent bytes and reports their count.
    let sent: Vec<u8> = (0..9999u32).map(|i| (i % 251) as u8).collect();
    assert!(serial_write_result(IoOutcome::Done(sent.len())).is_ok());
    let mut b = read_buffer();
    b[..sent.len()].copy_from_slice(&sent);
    let back = serial_read_result(b, IoOutcome::Done(sent.len())).unwrap();
    assert_eq!(back, sent);
}

#[test]
fn idle_network_read_is_empty_without_error() {
    assert!(network_read_result(read_buffer(), Some(IoOutcome::WouldBlock)).is_empty());
    assert!(network_read_result(read_buffer(), Some(IoOutcome::TimedOut)).is_empty());
    assert!(network_read_result(read_buffer(), Some(IoOutcome::Failed("reset".to_string()))).is_empty());
    assert!(network_read_result(read_buffer(), None).is_empty());
}

#[test]
fn network_read_returns_bytes_read() {
    let mut b = read_buffer();
    b[0] = 42;
    b[1] = 43;
    assert_eq!(network_read_result(b, Some(IoOutcome::Done(2))), vec![42, 43]);
}

#[test]
fn serial_write_outcomes_are_classified() {
    assert!(serial_write_result(IoOutcome::Done(0)).is_ok());
    assert!(serial_write_result(IoOutcome::Done(5)).is_ok());
    let e = serial_write_result(IoOutcome::TimedOut).unwrap_err();
    assert_eq!(e.kind, ErrorKind::Transport);
    assert_eq!(e.detail, DEVICE_TIMED_OUT);
    assert_eq!(serial_write_result(IoOutcome::WouldBlock).unwrap_err().kind, ErrorKind::Transport);
    let e = serial_write_result(IoOutcome::Failed("gone".to_string())).unwrap_err();
    assert_eq!(e.kind, ErrorKind::Transport);
    assert_eq!(e.detail, "gone");
}

#[test]
fn network_write_outcomes_are_classified() {
    assert!(network_write_result(IoOutcome::Done(4), 4).is_ok());
    assert!(network_write_result(IoOutcome::Done(0), 0).is_ok());
    let e = network_write_result(IoOutcome::Done(3), 4).unwrap_err();
    assert_eq!(e.kind, ErrorKind::Transport);
    assert_eq!(e.detail, SHORT_WRITE);
    let e = network_write_result(IoOutcome::TimedOut, 4).unwrap_err();
    assert_eq!(e.kind, ErrorKind::Timeout);
    assert_eq!(e.detail, SOCKET_TIMED_OUT);
    assert_eq!(network_write_result(IoOutcome::WouldBlock, 4).unwrap_err().kind, ErrorKind::Timeout);
    let e = network_write_result(IoOutcome::Failed("gone".to_string()), 4).unwrap_err();
    assert_eq!(e.kind, ErrorKind::Transport);
    assert_eq!(e.detail, "gone");
}

#[test]
fn outside_failures_are_classified() {
    assert_eq!(classify(FailedCall::Lookup, "no such host".to_string()).kind, ErrorKind::Resolution);
    assert_eq!(classify(FailedCall::ListDevices, "x".to_string()).kind, ErrorKind::Transport);
    assert_eq!(classify(FailedCall::OpenDevice, "x".to_string()).kind, ErrorKind::Transport);
    let e = classify(FailedCall::Connect, "refused".to_string());
    assert_eq!(e.kind, ErrorKind::Transport);
    assert_eq!(e.detail, "refused");
    assert!(call_result(FailedCall::SocketOption, Ok(())).is_ok());
    let e = call_result(FailedCall::Shutdown, Err("not connected".to_string())).unwrap_err();
    assert_eq!(e.kind, ErrorKind::Transport);
    assert_eq!(e.detail, "not connected");
    let e = call_result(FailedCall::Lookup, Err("bad".to_string())).unwrap_err();
    assert_eq!(e.kind, ErrorKind::Resolution);
}

#[test]
fn closing_serial_twice_succeeds_both_times() {
    let mut s: Slot<u32> = Slot::new();
    s.set(1);
    assert!(close_serial(&mut s).is_ok());
    assert!(!s.is_open());
    assert!(close_serial(&mut s).is_ok());
    assert!(!s.is_open());
}

#[test]
fn closing_network_twice_fails_the_second_time() {
    let mut s: Slot<u32> = Slot::new();
    s.set(4);
    assert_eq!(close_network(&mut s).ok(), Some(4));
    let e = close_network(&mut s).unwrap_err();
    assert_eq!(e.kind, ErrorKind::State);
    assert_eq!(e.detail, NO_CONNECTION_TO_CLOSE);
    assert!(!s.is_open());
}
