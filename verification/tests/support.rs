use drone_core::keyword::{keyword, unkeywordize};
use drone_core::log_baud_rate::{self, BaudRateError, Log, LogDso, LogSwo};
use drone_core::literal::literal_value;
use drone_core::thread_future::{
    resolve, Async, GeneratorState, Phase, Received, Routine, RoutineAction, RoutineEvent,
    ThreadFuture,
};
use drone_core::token::{clone_token, Delimiter, Token};
use futures::Future;

#[test]
fn keywords_get_an_underscore() {
    assert!(keyword("type"));
    assert!(keyword("Self"));
    assert!(!keyword("test_bit"));
    assert_eq!(unkeywordize("type"), "_type");
    assert_eq!(unkeywordize("mod"), "_mod");
    assert_eq!(unkeywordize("test_bit"), "test_bit");
    assert!(!keyword(&unkeywordize("yield")));
}

#[test]
fn swo_baud_rate_comes_first() {
    let log = Log { swo: Some(LogSwo { baud_rate: 115_200 }), dso: Some(LogDso { baud_rate: 9600 }) };
    assert_eq!(log_baud_rate::proc_macro(Some(log)), Ok(115_200));
}

#[test]
fn dso_baud_rate_without_swo() {
    let log = Log { swo: None, dso: Some(LogDso { baud_rate: 9600 }) };
    assert_eq!(log_baud_rate::proc_macro(Some(log)), Ok(9600));
}

#[test]
fn baud_rate_errors() {
    assert_eq!(log_baud_rate::proc_macro(None), Err(BaudRateError::MissingLog));
    let log = Log { swo: None, dso: None };
    assert_eq!(log_baud_rate::proc_macro(Some(log)), Err(BaudRateError::MissingOutput));
    assert_eq!(
        BaudRateError::MissingLog.message("Drone.toml"),
        "Missing `log` section in `Drone.toml`"
    );
    assert_eq!(
        BaudRateError::MissingOutput.message("Drone.toml"),
        "Missing one of `log.swo`, `log.dso` sections in `Drone.toml`"
    );
}

#[test]
fn resolves_received_values() {
    let r: Option<Result<Async<u8>, ()>> = resolve(Received::Ready(Ok(7)));
    assert_eq!(r, Some(Ok(Async::Ready(7))));
    let r: Option<Result<Async<u8>, u8>> = resolve(Received::Ready(Err(3)));
    assert_eq!(r, Some(Err(3)));
    let r: Option<Result<Async<u8>, u8>> = resolve(Received::NotReady);
    assert_eq!(r, Some(Ok(Async::NotReady)));
    let r: Option<Result<Async<u8>, u8>> = resolve(Received::Canceled);
    assert_eq!(r, None);
}

fn poll_future(fut: &mut ThreadFuture<u32, ()>) -> Option<Result<Async<u32>, ()>> {
    let received = match fut.rx.inner.poll() {
        Ok(futures::Async::Ready(v)) => Received::Ready(v),
        Ok(futures::Async::NotReady) => Received::NotReady,
        Err(_) => Received::Canceled,
    };
    resolve(received)
}

#[test]
fn thread_future_receives_the_result() {
    let (mut fut, tx) = ThreadFuture::<u32, ()>::new();
    futures::future::lazy(move || {
        assert_eq!(poll_future(&mut fut), Some(Ok(Async::NotReady)));
        tx.inner.send(Ok(42)).ok();
        assert_eq!(poll_future(&mut fut), Some(Ok(Async::Ready(42))));
        Ok::<(), ()>(())
    })
    .wait()
    .unwrap();
}

#[test]
fn thread_future_without_sender() {
    let (mut fut, tx) = ThreadFuture::<u32, ()>::new();
    drop(tx);
    futures::future::lazy(move || {
        assert_eq!(poll_future(&mut fut), None);
        Ok::<(), ()>(())
    })
    .wait()
    .unwrap();
}

#[test]
fn integer_literal_values() {
    assert_eq!(literal_value("0xDEAD_BEEF"), Some(0xDEAD_BEEF));
    assert_eq!(literal_value("0x20"), Some(32));
    assert_eq!(literal_value("1_000u32"), Some(1000));
    assert_eq!(literal_value("0b101"), Some(5));
    assert_eq!(literal_value("0x1f32"), Some(0x1f32));
    assert_eq!(literal_value("0xffu8"), Some(255));
    assert_eq!(literal_value("18446744073709551615"), Some(u64::MAX));
    assert_eq!(literal_value("18446744073709551616"), None);
    assert_eq!(literal_value("0b12"), None);
    assert_eq!(literal_value("0o9"), None);
    assert_eq!(literal_value("1u7"), Some(1));
    assert_eq!(literal_value("32x"), Some(32));
    assert_eq!(literal_value("1f32"), Some(1));
    assert_eq!(literal_value("0b1f"), Some(1));
    assert_eq!(literal_value("1usize"), Some(1));
    assert_eq!(literal_value("1e5usize"), None);
    assert_eq!(literal_value("0x1e5"), Some(0x1e5));
    assert_eq!(literal_value("2E"), None);
    assert_eq!(literal_value("0x"), Some(0));
    assert_eq!(literal_value("0x_"), Some(0));
    assert_eq!(literal_value("1.5"), None);
    assert_eq!(literal_value("1e5"), None);
    assert_eq!(literal_value("\"1\""), None);
    assert_eq!(literal_value("c\"x\""), None);
    assert_eq!(literal_value("x"), None);
}

#[test]
fn routine_delivers_once() {
    let mut r = Routine::new();
    assert!(matches!(
        r.step::<u8>(RoutineEvent::Checked { receiver_canceled: false }),
        RoutineAction::Resume
    ));
    assert!(matches!(r.step::<u8>(RoutineEvent::Resumed(GeneratorState::Yielded)), RoutineAction::Yield));
    assert_eq!(r.phase, Phase::Checking);
    assert!(matches!(
        r.step::<u8>(RoutineEvent::Checked { receiver_canceled: false }),
        RoutineAction::Resume
    ));
    assert!(matches!(
        r.step(RoutineEvent::Resumed(GeneratorState::Complete(5u8))),
        RoutineAction::Send(5)
    ));
    assert_eq!(r.phase, Phase::Finished);
}

#[test]
fn routine_stops_when_future_is_gone() {
    let mut r = Routine::new();
    assert!(matches!(
        r.step::<u8>(RoutineEvent::Checked { receiver_canceled: true }),
        RoutineAction::Stop
    ));
    assert_eq!(r.phase, Phase::Finished);
}

#[test]
fn tokens_are_copied() {
    let t = Token::Group(
        Delimiter::Bracket,
        vec![Token::Ident("doc".to_string()), Token::Punct('='), Token::Literal("\"x\"".to_string())],
    );
    let c = clone_token(&t);
    match c {
        Token::Group(Delimiter::Bracket, inner) => {
            assert_eq!(inner.len(), 3);
            assert!(matches!(&inner[0], Token::Ident(s) if s == "doc"));
            assert!(matches!(&inner[2], Token::Literal(s) if s == "\"x\""));
        },
        _ => panic!("not a group"),
    }
}
