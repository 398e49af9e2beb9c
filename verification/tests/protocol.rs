use std::io;
use tarpc::protocol::rpc_futures::{RpcFutures, Writer};
use tarpc::protocol::server::{
    conn_step, serve_async_step, serve_step, AcceptAction, ConnAction, ConnRead, DieSignal,
    InflightRpcs,
};
use tarpc::protocol::{timed_out, DecodeFailure, Error};
use tarpc::ErrorKind;

#[test]
fn connection_reset_and_end_of_stream_mean_the_server_hung_up() {
    let reset = DecodeFailure::Io {
        kind: ErrorKind::ConnectionReset,
        error: io::Error::new(io::ErrorKind::ConnectionReset, "reset"),
    };
    assert!(matches!(
        Error::from_decode_failure_reset_as_hangup(reset),
        Error::ConnectionBroken
    ));
    assert!(matches!(
        Error::from_decode_failure_reset_as_hangup(DecodeFailure::EndOfStream),
        Error::ConnectionBroken
    ));
}

#[test]
fn blocking_client_reports_a_reset_as_an_io_error() {
    let reset = DecodeFailure::Io {
        kind: ErrorKind::ConnectionReset,
        error: io::Error::new(io::ErrorKind::ConnectionReset, "reset"),
    };
    match Error::from_decode_failure(reset) {
        Error::Io(e) => assert_eq!(e.kind(), io::ErrorKind::ConnectionReset),
        Error::ConnectionBroken => panic!("expected an I/O error"),
    }
    assert!(matches!(
        Error::from_decode_failure(DecodeFailure::EndOfStream),
        Error::ConnectionBroken
    ));
}

#[test]
fn other_read_errors_are_reported_as_io_errors() {
    let failure = DecodeFailure::Io {
        kind: ErrorKind::PermissionDenied,
        error: io::Error::new(io::ErrorKind::PermissionDenied, "denied"),
    };
    match Error::from_decode_failure(failure) {
        Error::Io(e) => {
            assert_eq!(e.kind(), io::ErrorKind::PermissionDenied);
            assert_eq!(e.to_string(), "denied");
        }
        Error::ConnectionBroken => panic!("expected an I/O error"),
    }
    match Error::from_io(io::Error::new(io::ErrorKind::Other, "boom")) {
        Error::Io(e) => assert_eq!(e.to_string(), "boom"),
        Error::ConnectionBroken => panic!("expected an I/O error"),
    }
}

#[test]
fn only_timeouts_and_would_block_count_as_timed_out() {
    assert!(timed_out(ErrorKind::TimedOut));
    assert!(timed_out(ErrorKind::WouldBlock));
    assert!(!timed_out(ErrorKind::Interrupted));
    assert!(!timed_out(ErrorKind::Other));
}

#[test]
fn serve_async_accept_loop_decisions() {
    assert_eq!(serve_async_step(DieSignal::Received, true, true), AcceptAction::Shutdown);
    assert_eq!(serve_async_step(DieSignal::Disconnected, true, true), AcceptAction::Stop);
    assert_eq!(serve_async_step(DieSignal::Empty, false, true), AcceptAction::Stop);
    assert_eq!(serve_async_step(DieSignal::Empty, true, false), AcceptAction::Stop);
    assert_eq!(serve_async_step(DieSignal::Empty, true, true), AcceptAction::Serve);
}

#[test]
fn serve_accept_loop_decisions() {
    assert_eq!(serve_step(DieSignal::Received, true, true, true), AcceptAction::Stop);
    assert_eq!(serve_step(DieSignal::Empty, false, true, true), AcceptAction::Stop);
    assert_eq!(serve_step(DieSignal::Empty, true, false, true), AcceptAction::Skip);
    assert_eq!(serve_step(DieSignal::Empty, true, true, false), AcceptAction::Skip);
    assert_eq!(serve_step(DieSignal::Empty, true, true, true), AcceptAction::Serve);
}

#[test]
fn connection_handler_decisions() {
    assert!(matches!(conn_step(ConnRead::Packet, false), ConnAction::ServeAndContinue));
    assert!(matches!(conn_step(ConnRead::Packet, true), ConnAction::ServeAndClose));
    let timeout = || ConnRead::Failed {
        error: Error::ConnectionBroken,
        io_kind: Some(ErrorKind::TimedOut),
    };
    assert!(matches!(conn_step(timeout(), false), ConnAction::Retry));
    assert!(matches!(conn_step(timeout(), true), ConnAction::Close));
    let broken = ConnRead::Failed { error: Error::ConnectionBroken, io_kind: None };
    assert!(matches!(conn_step(broken, false), ConnAction::Fail(Error::ConnectionBroken)));
    let other = ConnRead::Failed {
        error: Error::ConnectionBroken,
        io_kind: Some(ErrorKind::Other),
    };
    assert!(matches!(conn_step(other, true), ConnAction::Fail(_)));
}

#[test]
fn inflight_rpcs_count_up_and_down() {
    let mut rpcs = InflightRpcs::new();
    assert!(rpcs.is_zero());
    rpcs.increment();
    rpcs.increment();
    assert_eq!(rpcs.get(), 2);
    rpcs.decrement();
    assert!(!rpcs.is_zero());
    rpcs.decrement();
    assert!(rpcs.is_zero());
}

#[test]
fn writer_numbers_calls_and_records_their_senders() {
    let mut futures = RpcFutures::new();
    let mut writer = Writer::new();
    assert_eq!(writer.register(&mut futures, "a").ok(), Some(0));
    assert_eq!(writer.register(&mut futures, "b").ok(), Some(1));
    assert_eq!(futures.complete_reply(1), Some("b"));
    assert_eq!(futures.complete_reply(1), None);
    assert!(futures.remove_tx(0).is_ok());
    assert_eq!(futures.complete_reply(0), None);
}

#[test]
fn rpc_futures_error_is_sticky() {
    let mut futures = RpcFutures::new();
    assert!(futures.insert_tx(0, 'x').is_ok());
    assert!(!futures.is_err());
    futures.set_error(Error::ConnectionBroken);
    assert!(futures.is_err());
    assert!(matches!(futures.get_error(), Error::ConnectionBroken));
    assert!(matches!(futures.insert_tx(1, 'y'), Err(Error::ConnectionBroken)));
    assert!(matches!(futures.remove_tx(0), Err(Error::ConnectionBroken)));
    let mut writer = Writer::new();
    match writer.register(&mut futures, 'z') {
        Err((Error::ConnectionBroken, tx)) => assert_eq!(tx, 'z'),
        _ => panic!("expected the stored error"),
    }
    // No id was used up.
    assert!(futures.is_err());
}
