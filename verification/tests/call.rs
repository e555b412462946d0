use osaio_proxy::auth::{Ice, VideoCall};
use osaio_proxy::call::{
    audio_codec, call_id_of, candidate_message, is_from, new_call_id, offer_message,
    remote_candidate, switch_message, video_codec, AnswerError, AnswerEvent, AnswerStep,
    Negotiation, ANSWER_SECS,
};
use osaio_proxy::ice::{device_ice_arrays, ice_servers, text_or_empty};
use osaio_proxy::json::Json;
use osaio_proxy::ws::Incoming;

#[test]
fn numbers_of_calls() {
    assert_eq!(call_id_of(0), "1000000000000000");
    assert_eq!(call_id_of(999_999_999_999_998), "1999999999999998");
    assert_eq!(call_id_of(999_999_999_999_999), "1000000000000000");
    assert_eq!(call_id_of(u64::MAX).len(), 16);
    let id = new_call_id();
    assert_eq!(id.len(), 16);
    assert!(id.starts_with('1'));
    assert_ne!(new_call_id(), id);
}

#[test]
fn switching() {
    let m = switch_message(&Some("s".into()), "7");
    assert_eq!(m.method, "service.Switch");
    assert_eq!(
        m.data.to_text(),
        "{\"Action\":0,\"Quality\":2,\"SessionId\":\"s\",\"Timestamp\":0,\"call_id\":\"7\"}"
    );
    let m = switch_message(&None, "7");
    assert_eq!(m.data.get("SessionId").unwrap().as_text(), Some(""));
}

#[test]
fn offering() {
    let m = offer_message(
        "00",
        "7",
        &vec!["u".into()],
        &vec!["n".into()],
        &vec!["p".into()],
        &Some("s".into()),
    );
    assert_eq!(m.method, "service.SdpOffer");
    assert_eq!(
        m.data.to_text(),
        "{\"Action\":2,\"CodecMode\":1,\"DtlsWaitTime\":5000,\"EnableMic\":false,\
\"EnableSpeaker\":false,\"IcePassword\":[\"p\"],\"IceUrl\":[\"u\"],\"IceUsername\":[\"n\"],\
\"Quality\":1,\"SessionId\":\"s\",\"Timestamp\":0,\"TrickleICE\":false,\"WebrtcSdp\":\"00\",\
\"call_id\":\"7\"}"
    );
    let m = offer_message("00", "7", &vec![], &vec![], &vec![], &None);
    assert!(m.data.get("SessionId").is_none());
    assert_eq!(m.data.get("IceUrl").unwrap().to_text(), "[]");
}

#[test]
fn own_candidates() {
    let m = candidate_message("candidate:1");
    assert_eq!(m.method, "service.IceCandidate");
    assert_eq!(
        m.data.to_text(),
        "{\"WebrtcCandidate\":\"candidate:1\",\"WebrtcSdpMLineIndex\":0,\"WebrtcSdpMid\":\"\"}"
    );
}

#[test]
fn codecs() {
    let v = video_codec();
    assert_eq!((v.mime_type, v.clock_rate, v.channels, v.payload_type), ("video/H265", 90000, 0, 127));
    assert_eq!(v.feedback, vec!["nack".to_string()]);
    let a = audio_codec();
    assert_eq!((a.mime_type, a.clock_rate, a.channels, a.payload_type), ("audio/AAC", 16000, 1, 97));
    assert!(a.feedback.is_empty());
}

fn from(uuid: Option<&str>, method: &str, data: Json) -> Incoming {
    Incoming { method: method.into(), msg_id: None, uuid: uuid.map(String::from), data }
}

fn candidate(uuid: &str, c: &str) -> Incoming {
    from(Some(uuid), "event.IceCandidate", Json::object().with("WebrtcCandidate", Json::text(c)))
}

fn answer(data: Json) -> AnswerEvent {
    AnswerEvent::Message(from(Some("cam"), "response.SdpAnswer", data))
}

#[test]
fn senders() {
    assert!(is_from(&from(Some("cam"), "", Json::Null), "cam"));
    assert!(!is_from(&from(Some("cam2"), "", Json::Null), "cam"));
    assert!(!is_from(&from(None, "", Json::Null), "cam"));
}

#[test]
fn candidates_of_the_camera() {
    assert_eq!(remote_candidate(&candidate("cam", "c"), "cam").as_deref(), Some("c"));
    assert_eq!(remote_candidate(&candidate("other", "c"), "cam"), None);
    let m = from(Some("cam"), "event.Other", Json::object().with("WebrtcCandidate", Json::text("c")));
    assert_eq!(remote_candidate(&m, "cam"), None);
    let m = from(Some("cam"), "event.IceCandidate", Json::object().with("WebrtcCandidate", Json::Int(1)));
    assert_eq!(remote_candidate(&m, "cam"), None);
    let m = from(Some("cam"), "event.IceCandidate", Json::Null);
    assert_eq!(remote_candidate(&m, "cam"), None);
}

#[test]
fn candidates_wait_for_the_answer() {
    let mut n = Negotiation::new("cam");
    assert!(matches!(n.step(AnswerEvent::Message(candidate("cam", "a"))), AnswerStep::Wait));
    assert!(matches!(n.step(AnswerEvent::Message(candidate("other", "b"))), AnswerStep::Wait));
    let other = from(Some("other"), "response.SdpAnswer", Json::object().with("WebrtcSdp", Json::text("x")));
    assert!(matches!(n.step(AnswerEvent::Message(other)), AnswerStep::Wait));
    assert!(matches!(n.step(AnswerEvent::Message(candidate("cam", "c"))), AnswerStep::Wait));
    match n.step(answer(Json::object().with("Ret", Json::Int(0)).with("WebrtcSdp", Json::text("00")))) {
        AnswerStep::Answer(t) => assert_eq!(t, "00"),
        s => panic!("{s:?}"),
    }
    assert_eq!(n.pending, vec!["a".to_string(), "c".to_string()]);
}

#[test]
fn answers_that_fail() {
    let mut n = Negotiation::new("cam");
    let step = n.step(answer(Json::object().with("Ret", Json::Int(-3)).with("WebrtcSdp", Json::text("00"))));
    assert!(matches!(step, AnswerStep::Fail(AnswerError::Rejected(-3))));
    let step = n.step(answer(Json::object().with("Ret", Json::text("5"))));
    assert!(matches!(step, AnswerStep::Fail(AnswerError::MissingSdp)));
    let step = n.step(answer(Json::object().with("WebrtcSdp", Json::Int(5))));
    assert!(matches!(step, AnswerStep::Fail(AnswerError::MissingSdp)));
    assert!(matches!(n.step(AnswerEvent::Closed), AnswerStep::Fail(AnswerError::Closed)));
    assert!(matches!(n.step(AnswerEvent::TimedOut), AnswerStep::Fail(AnswerError::TimedOut)));
    assert!(n.pending.is_empty());
    assert_eq!(AnswerError::Rejected(-3).message(), "camera rejected offer with Ret=-3");
    assert_eq!(AnswerError::MissingSdp.message(), "sdp answer missing WebrtcSdp");
    assert_eq!(AnswerError::Closed.message(), "websocket closed");
    assert_eq!(AnswerError::TimedOut.message(), "timed out waiting for sdp answer");
    assert_eq!(ANSWER_SECS, 15);
}

fn ice(url: &str, ip: Option<&str>, user: Option<&str>, pass: Option<&str>) -> Ice {
    Ice {
        iceurl: url.into(),
        iceurl_ip: ip.map(String::from),
        username: user.map(String::from),
        password: pass.map(String::from),
    }
}

#[test]
fn servers_of_this_side() {
    let call = VideoCall {
        session_id: None,
        user_ices: vec![
            ice("turn:host:3479", Some("1.2.3.4"), Some("n"), Some("p")),
            ice("", Some("1.2.3.4"), None, None),
            ice("stun:host", Some("5.6.7.8"), None, None),
            ice("turn:host:1", None, None, Some("q")),
            ice("nocolon", Some("1.1.1.1"), None, None),
        ],
        device_ices: vec![],
    };
    let got: Vec<(Vec<String>, String, String)> =
        ice_servers(&call).into_iter().map(|s| (s.urls, s.username, s.credential)).collect();
    let want = |u: &str, n: &str, p: &str| (vec![u.to_string()], n.to_string(), p.to_string());
    assert_eq!(
        got,
        vec![
            want("turn:1.2.3.4:3479", "n", "p"),
            want("stun:5.6.7.8:host", "", ""),
            want("turn:host:1", "", "q"),
            want("nocolon", "", ""),
        ]
    );
}

#[test]
fn servers_of_the_camera() {
    let call = VideoCall {
        session_id: None,
        user_ices: vec![],
        device_ices: vec![
            ice("turn:h:1", Some("9.9.9.9"), Some("n"), None),
            ice("", None, Some("x"), Some("x")),
            ice("turns:h", None, None, Some("p")),
        ],
    };
    let texts = |t: &[&str]| t.iter().map(|s| s.to_string()).collect::<Vec<String>>();
    assert_eq!(
        device_ice_arrays(&call),
        (texts(&["turn:h:1?transport=udp", "turns:h"]), texts(&["n", ""]), texts(&["", "p"]))
    );
    assert_eq!(text_or_empty(&None), "");
}
