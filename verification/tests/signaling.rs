use osaio_proxy::backoff::Backoff;
use osaio_proxy::json::Json;
use osaio_proxy::ws::{
    message_id, send_outcome, Incoming, Message, Reconnect, ReconnectAction, ReplyEvent, ReplyStep,
    SendEvent, Ws, WsError, PING_SECS, REPLY_SECS,
};

#[test]
fn numbers_of_messages() {
    assert_eq!(message_id(1700000000, 0), "rs-17000000000000");
    assert_eq!(message_id(1700000000, 42), "rs-17000000000042");
    assert_eq!(message_id(1700000000, 9999), "rs-17000000009999");
    assert_eq!(message_id(1, 12345), "rs-112345");
    assert_ne!(message_id(1700000000, 10), message_id(1700000001, 10));
    assert_ne!(message_id(1700000000, 10), message_id(1700000000, 11));
}

#[test]
fn messages_are_counted_and_written() {
    let mut ws = Ws::new();
    let out = ws.send(Message { method: "atr.get", data: Json::array() }, "cam", "GC3", 7, 8);
    assert_eq!(out.msg_id, "rs-70000");
    assert_eq!(
        out.text,
        "{\"data\":[],\"device_model\":\"GC3\",\"method\":\"atr.get\",\"msg_id\":\"rs-70000\",\
\"origin\":1,\"time\":8,\"uuid\":\"cam\",\"ver\":\"1.0\"}"
    );
    let out = ws.send(Message { method: "x", data: Json::Null }, "", "", 7, 7);
    assert_eq!(out.msg_id, "rs-70001");
}

#[test]
fn outcomes_of_sending() {
    assert_eq!(send_outcome(SendEvent::Written), (Ok(()), false));
    assert_eq!(send_outcome(SendEvent::NoLink), (Err(WsError::Reconnecting), false));
    assert_eq!(send_outcome(SendEvent::Failed), (Err(WsError::Sending), true));
}

fn incoming(msg_id: Option<&str>) -> Incoming {
    Incoming {
        method: "m".into(),
        msg_id: msg_id.map(String::from),
        uuid: None,
        data: Json::Int(4),
    }
}

#[test]
fn replies_are_matched_by_number() {
    let step = Ws::request("rs-1", ReplyEvent::Message(incoming(Some("rs-1"))));
    assert!(matches!(step, ReplyStep::Answer(Json::Int(4))));
    for other in [Some("rs-2"), Some(""), None] {
        let step = Ws::request("rs-1", ReplyEvent::Message(incoming(other).clone()));
        assert!(matches!(step, ReplyStep::Wait));
    }
    assert!(matches!(Ws::request("x", ReplyEvent::Closed), ReplyStep::Fail(WsError::Closed)));
    assert!(matches!(Ws::request("x", ReplyEvent::TimedOut), ReplyStep::Fail(WsError::TimedOut)));
}

#[test]
fn signaling_errors() {
    assert_eq!(WsError::Reconnecting.message(), "websocket is reconnecting");
    assert_eq!(WsError::Sending.message(), "sending on websocket");
    assert_eq!(WsError::Closed.message(), "websocket closed");
    assert_eq!(WsError::TimedOut.message(), "timed out waiting for reply");
    assert_eq!((PING_SECS, REPLY_SECS), (20, 10));
}

fn stop(keep_fresh: bool, connected: bool) -> ReconnectAction {
    ReconnectAction::Stop { keep_fresh, connected }
}

#[test]
fn reconnecting() {
    let mut r = Reconnect::start();
    assert_eq!(r.next(true), stop(false, true));
    assert_eq!(r, Reconnect::Over);

    let mut r = Reconnect::start();
    assert_eq!(r.next(false), ReconnectAction::Login);
    assert_eq!(r.next(false), stop(false, false));

    for ok in [true, false] {
        let mut r = Reconnect::start();
        assert_eq!(r.next(false), ReconnectAction::Login);
        assert_eq!(r.next(true), ReconnectAction::DialFresh);
        assert_eq!(r.next(ok), stop(true, ok));
        assert_eq!(r.next(true), stop(false, false));
    }
}

#[test]
fn signaling_delays() {
    let mut b = Backoff::signaling();
    let mut seen = Vec::new();
    for _ in 0..7 {
        seen.push(b.delay());
        b.failed();
    }
    assert_eq!(seen, vec![1, 2, 4, 8, 16, 30, 30]);
    b.succeeded();
    assert_eq!(b.delay(), 1);
    b.reconnected(false);
    b.reconnected(false);
    assert_eq!(b.delay(), 4);
    b.reconnected(true);
    assert_eq!(b.delay(), 1);
}

#[test]
fn camera_delays() {
    let mut b = Backoff::camera();
    let seen: Vec<u64> = (0..6).map(|_| b.stream_ended(60_000_000_000)).collect();
    assert_eq!(seen, vec![2, 4, 8, 16, 30, 30]);
    assert_eq!(b.stream_ended(60_000_000_001), 2);
    assert_eq!(b.stream_ended(0), 4);
}

#[test]
fn camera_delays_over_many_runs() {
    let short = 1_000_000_000u128;
    let long = 61_000_000_000u128;
    let runs = [short, short, long, short, short, short, short, short, long, long, short];
    let mut b = Backoff::camera();
    let seen: Vec<u64> = runs.iter().map(|r| b.stream_ended(*r)).collect();
    assert_eq!(seen, vec![2, 4, 2, 4, 8, 16, 30, 30, 2, 2, 4]);
}
