use osaio_proxy::json::Json;
use osaio_proxy::sdp;
use osaio_proxy::sdp::answer::{
    answer_payload, push_media, push_section, ssrc_of, write_answer, Answer, Com, MLine, Medium,
};
use osaio_proxy::sdp::offer::{encode_offer_with, frame_offer, read_offer};
use osaio_proxy::sdp::{
    attr, cname_of, decode_answer, encode_offer, local_ssrc, m_block, SdpError,
};

const LOCAL: &str = "v=0\r\no=- 42 2 IN IP4 0.0.0.0\r\ns=-\r\nt=0 0\r\na=fingerprint:sha-256 AB:CD \r\n\
a=group:BUNDLE 3 4\r\nm=audio 9 UDP/TLS/RTP/SAVPF 97\r\na=ice-ufrag:uf\r\na=ice-pwd: pw\r\n\
a=setup:actpass\r\na=mid:3\r\na=ssrc:777 cname:cam one \r\na=sendrecv\r\n\
m=video 9 UDP/TLS/RTP/SAVPF 127\r\na=mid:4\r\na=ssrc:888 cname:other\r\n";

fn without(what: &str) -> String {
    LOCAL.replace(what, "x=")
}

#[test]
fn lines_and_attributes() {
    assert_eq!(sdp::line(LOCAL, "a=mid:"), Some("a=mid:3"));
    assert_eq!(sdp::line(LOCAL, "z="), None);
    assert_eq!(attr(LOCAL, "a=ice-pwd:"), Some("pw"));
    assert_eq!(attr(LOCAL, "a=fingerprint:"), Some("sha-256 AB:CD"));
    assert_eq!(attr("b\na=mid:7", "a=mid:"), Some("7"));
    assert_eq!(attr("xa=mid:7", "a=mid:"), None);
    assert_eq!(sdp::line("a\r\n", ""), Some("a"));
}

#[test]
fn stream_numbers() {
    assert_eq!(local_ssrc("a=ssrc:123 cname:x"), Some("123"));
    assert_eq!(local_ssrc("a=ssrc:123"), None);
    assert_eq!(local_ssrc("a=ssrc: x"), Some(""));
    assert_eq!(local_ssrc("a=ssrc:"), None);
    assert_eq!(local_ssrc("m=audio"), None);
}

#[test]
fn stream_names() {
    assert_eq!(cname_of("a\r\na=ssrc:1 cname: n m \r\nb cname:z"), Some("n m"));
    assert_eq!(cname_of("a=ssrc:1 cname:a cname:b"), Some("a cname:b"));
    assert_eq!(cname_of("cname:x"), None);
}

#[test]
fn blocks() {
    let audio = m_block(LOCAL, "m=audio").unwrap();
    assert!(audio.starts_with("m=audio 9"));
    assert!(audio.ends_with("a=sendrecv"));
    let video = m_block(LOCAL, "m=video").unwrap();
    assert!(video.ends_with("cname:other\r\n"));
    assert_eq!(m_block(LOCAL, "m=text"), None);
    assert_eq!(m_block("m=a", "m=a"), Some("m=a"));
}

#[test]
fn offer_parts_are_read() {
    let p = read_offer(LOCAL).unwrap();
    assert_eq!((p.audio_mid, p.video_mid), (3, 4));
    assert_eq!(p.ufrag, "uf");
    assert_eq!(p.pwd, "pw");
    assert_eq!(p.fingerprint, "sha-256 AB:CD");
    assert_eq!(p.setup, "actpass");
    assert_eq!(p.origin, "- 42 2 IN IP4 0.0.0.0");
    assert_eq!(p.ssrc.as_deref(), Some("777"));
    assert_eq!(p.cname.as_deref(), Some("cam one"));
}

#[test]
fn each_missing_part_has_its_error() {
    for (what, error, message) in [
        ("m=audio", SdpError::MissingAudio, "missing m=audio in offer"),
        ("m=video", SdpError::MissingVideo, "missing m=video in offer"),
        ("a=ice-ufrag:", SdpError::MissingUfrag, "missing ice-ufrag"),
        ("a=ice-pwd:", SdpError::MissingPassword, "missing ice-pwd"),
        ("a=fingerprint:", SdpError::MissingFingerprint, "missing fingerprint"),
        ("a=setup:", SdpError::MissingSetup, "missing setup"),
        ("o=", SdpError::MissingOrigin, "missing o= line"),
    ] {
        let e = encode_offer(&without(what)).unwrap_err();
        assert_eq!(e, error);
        assert_eq!(e.message(), message);
    }
    assert_eq!(encode_offer("").unwrap_err(), SdpError::MissingAudio);
}

#[test]
fn missing_section_numbers_have_defaults() {
    let p = read_offer(&without("a=mid:")).unwrap();
    assert_eq!((p.audio_mid, p.video_mid), (0, 1));
    let p = read_offer(&LOCAL.replace("a=mid:3", "a=mid:300")).unwrap();
    assert_eq!((p.audio_mid, p.video_mid), (0, 4));
}

#[test]
fn offer_text_with_given_draws() {
    let (t, a, v) = encode_offer_with(LOCAL, 5, &[0; 12], &[1, 2]).unwrap();
    assert_eq!((a, v), (3, 4));
    assert_eq!(
        t,
        concat_lines(&[
            "00\r\n{\"audio\":{\"8000\":96,\"ce\":\"cam one\",\"dc\":1,\"m\":9,\"md\":\"Lo AID\",",
            "\"mid\":3,\"pt\":97,\"pts\":16000,\"rm\":1,\"sc\":[\"777\"],\"sr\":1},",
            "\"com\":{\"I\":\"IP4 0.0.0.0\",\"abs\":7,\"ft\":\"sha-256 AB:CD\",\"iG\":\"3 4\",",
            "\"iO\":\"- 42 2 IN IP4 0.0.0.0\",\"iT\":\"0 0\",\"is\":1,\"isc\":\"WMS Lo\",\"ll\":1,",
            "\"o\":\"trickle renomination\",\"p\":\"pw\",\"pp\":10,\"r\":\"9 IN IP4 0.0.0.0\",",
            "\"rk\":[1,2],\"s\":\"actpass\",\"sk\":[1,2],\"tcc\":3,\"u\":\"uf\",\"v\":1},",
            "\"video\":{\"ce\":\"\",\"dc\":1,\"fb\":35,\"fbc\":22,\"fec\":125,",
            "\"fmtp\":[\"123 apt=127\",\"122 apt=126\"],\"m\":9,\"md\":\"\",\"mid\":4,\"pt\":127,",
            "\"pts\":90000,\"red\":126,\"rm\":1,\"rr\":1,\"rtx\":[123,122],\"sc\":[],\"sr\":0}}",
        ])
    );
}

fn concat_lines(parts: &[&str]) -> String {
    parts.iter().copied().collect()
}

#[test]
fn missing_stream_is_drawn() {
    let local = without("a=ssrc:").replace(" cname:", " ");
    let drawn: Vec<u8> = (0..12).collect();
    let (t, _, _) = encode_offer_with(&local, 0, &drawn, &[1]).unwrap();
    assert!(t.contains("\"sc\":[\"1\"]"));
    assert!(t.contains("\"ce\":\"AAECAwQFBgcICQoL\""));
    let (t, _, _) = encode_offer_with(&local, 99, &[0xff, 0xfe], &[1]).unwrap();
    assert!(t.contains("\"sc\":[\"99\"]"));
    assert!(t.contains("\"ce\":\"//4=\""));
    let (t, _, _) = encode_offer_with(&local, 99, b"a", &[1]).unwrap();
    assert!(t.contains("\"ce\":\"YQ==\""));
}

#[test]
fn offers_have_fresh_keys() {
    let (a, _, _) = encode_offer(LOCAL).unwrap();
    let (b, _, _) = encode_offer(LOCAL).unwrap();
    assert_ne!(a, b);
    let v: serde_json::Value = serde_json::from_str(a.strip_prefix("00\r\n").unwrap()).unwrap();
    let key = v["com"]["sk"].as_array().unwrap();
    assert_eq!(key.len(), 30);
    assert!(key.iter().all(|b| (1..=255).contains(&b.as_i64().unwrap())));
    assert_eq!(v["com"]["sk"], v["com"]["rk"]);
}

fn com() -> Com {
    Com {
        io: "- 1 2 IN IP4 1.2.3.4".into(),
        is: 1,
        it: "0 0".into(),
        ig: "BUNDLE 0 1".into(),
        isc: "WMS".into(),
        ic: "".into(),
        r: "9 IN IP4 0.0.0.0".into(),
        u: "uf".into(),
        p: "pw".into(),
        o: "trickle".into(),
        ft: "sha-256 AA".into(),
        s: "active".into(),
    }
}

fn video() -> MLine {
    MLine {
        sr: 0,
        dc: 1,
        pt: 127,
        fbc: 31,
        rm: 1,
        rr: 0,
        rs: 1,
        sc: Json::array().and(Json::Int(11)),
        ce: "vc".into(),
        md: "Lo VID x".into(),
        m: 9,
        pts: 90000,
    }
}

fn audio() -> MLine {
    MLine {
        sr: 1,
        dc: 0,
        pt: 97,
        fbc: 0,
        rm: 1,
        rr: 1,
        rs: 0,
        sc: Json::text("22"),
        ce: "ac".into(),
        md: "solo".into(),
        m: 9,
        pts: 16000,
    }
}

const SESSION_TEXT: &str = "v=0\r\no=- 1 2 IN IP4 1.2.3.4\r\ns=-\r\nt=0 0\r\na=group:BUNDLE 0 1\r\n\
a=msid-semantic:WMS\r\n";

const TRANSPORT_TEXT: &str = "a=rtcp:9 IN IP4 0.0.0.0\r\na=ice-ufrag:uf\r\na=ice-pwd:pw\r\n\
a=ice-options:trickle\r\na=fingerprint:sha-256 AA\r\na=setup:active\r\n";

fn video_text(mid: u8) -> String {
    format!(
        "m=video 9 UDP/TLS/RTP/SAVPF 127\r\na=msid:Lo VID x\r\na=ssrc:11 cname:vc\r\n\
a=ssrc:11 msid:Lo VID x\r\na=ssrc:11 mslabel:Lo\r\na=ssrc:11 label:VID x\r\n{TRANSPORT_TEXT}a=mid:{mid}\r\n\
a=sendonly\r\na=rtcp-mux\r\na=rtcp-rsize\r\na=rtpmap:127 H265/90000\r\na=rtcp-fb:127 goog-remb\r\n\
a=rtcp-fb:127 transport-cc\r\na=rtcp-fb:127 ccm fir\r\na=rtcp-fb:127 nack pli\r\na=rtcp-fb:127 nack\r\n"
    )
}

fn audio_text(mid: u8) -> String {
    format!(
        "m=audio 9 UDP/TLS/RTP/SAVPF 97\r\na=msid:solo\r\na=ssrc:22 cname:ac\r\na=ssrc:22 msid:solo\r\n\
a=ssrc:22 mslabel:solo\r\na=ssrc:22 label:\r\n{TRANSPORT_TEXT}a=mid:{mid}\r\na=rtcp-mux\r\n\
a=sendrecv\r\na=rtcp-rsize\r\na=rtpmap:97 AAC/16000\r\n"
    )
}

#[test]
fn answers_are_written() {
    let a = Answer { video: video(), audio: audio(), com: com() };
    let t = decode_answer("00\r\n{}", Some(&a), 0, 1).unwrap();
    assert_eq!(t, format!("{SESSION_TEXT}{}{}", audio_text(0), video_text(1)));
    let t = decode_answer("00\r\n{}", Some(&a), 1, 0).unwrap();
    assert_eq!(t, format!("{SESSION_TEXT}{}{}", video_text(0), audio_text(1)));
    let t = decode_answer("00\r\n{}", Some(&a), 2, 2).unwrap();
    assert_eq!(t, format!("{SESSION_TEXT}{}{}", video_text(2), audio_text(2)));
}

#[test]
fn answer_flags_that_are_off() {
    let mut a = Answer { video: video(), audio: audio(), com: com() };
    a.com.is = 0;
    a.com.ic = "1 1 udp".into();
    a.video.sr = 1;
    a.video.rm = 0;
    a.video.rs = 0;
    a.video.dc = 0;
    a.video.fbc = 10;
    a.audio.rm = 0;
    a.audio.sr = 0;
    a.audio.rr = 0;
    let t = write_answer(&a, "", "5", 0, 1);
    assert_eq!(
        t,
        format!(
            "v=0\r\no=- 1 2 IN IP4 1.2.3.4\r\nt=0 0\r\na=group:BUNDLE 0 1\r\na=msid-semantic:WMS\r\n\
m=audio 9 UDP/TLS/RTP/SAVPF 97\r\na=candidate:1 1 udp\r\na=msid:solo\r\n{TRANSPORT_TEXT}a=mid:0\r\n\
a=rtpmap:97 AAC/16000\r\nm=video 9 UDP/TLS/RTP/SAVPF 127\r\na=candidate:1 1 udp\r\na=msid:Lo VID x\r\n\
a=ssrc:5 cname:vc\r\na=ssrc:5 msid:Lo VID x\r\na=ssrc:5 mslabel:Lo\r\na=ssrc:5 label:VID x\r\n\
{TRANSPORT_TEXT}a=mid:1\r\na=rtpmap:127 H264/90000\r\na=rtcp-fb:127 transport-cc\r\n\
a=rtcp-fb:127 nack pli\r\n"
        )
    );
}

#[test]
fn bad_answers() {
    let e = decode_answer("{}", None, 0, 1).unwrap_err();
    assert_eq!(e, SdpError::BadPrefix);
    assert_eq!(e.message(), "invalid compact answer prefix");
    let a = Answer { video: video(), audio: audio(), com: com() };
    assert_eq!(decode_answer("00\n{}", Some(&a), 0, 1).unwrap_err(), SdpError::BadPrefix);
    let e = decode_answer("00\r\n{", None, 0, 1).unwrap_err();
    assert_eq!(e, SdpError::BadJson);
    assert_eq!(e.message(), "parsing compact answer json");
    assert_eq!(answer_payload("00\r\n{\"a\":1}"), Ok("{\"a\":1}"));
    assert_eq!(answer_payload("00\r\n"), Ok(""));
}

#[test]
fn stream_numbers_of_answers() {
    assert_eq!(ssrc_of(&Json::text("x")), "x");
    assert_eq!(ssrc_of(&Json::array()), "");
    assert_eq!(ssrc_of(&Json::array().and(Json::text("7"))), "7");
    assert_eq!(ssrc_of(&Json::array().and(Json::UInt(4294967295)).and(Json::Null)), "4294967295");
    assert_eq!(ssrc_of(&Json::array().and(Json::object().with("a", Json::Null))), "{\"a\":null}");
    let v: serde_json::Value = serde_json::from_str("1e-30").unwrap();
    let f = || Json::Fraction(v.clone());
    assert_eq!(ssrc_of(&f()), "");
    assert_eq!(ssrc_of(&Json::array().and(f())), v.to_string());
    assert_eq!(ssrc_of(&Json::array().and(Json::array().and(f()))), format!("[{v}]"));
    assert_eq!(ssrc_of(&Json::Int(5)), "");
    assert_eq!(ssrc_of(&Json::Null), "");
}

#[test]
fn a_written_answer_gives_its_transport_back() {
    let a = Answer { video: video(), audio: audio(), com: com() };
    let t = write_answer(&a, "1", "2", 0, 1);
    assert_eq!(attr(&t, "a=ice-ufrag:"), Some("uf"));
    assert_eq!(attr(&t, "a=ice-pwd:"), Some("pw"));
    assert_eq!(attr(&t, "a=fingerprint:"), Some("sha-256 AA"));
    assert_eq!(attr(&t, "a=setup:"), Some("active"));
    let p = read_offer(&t).unwrap();
    assert_eq!((p.audio_mid, p.video_mid), (0, 1));
    assert_eq!(p.ssrc.as_deref(), Some("1"));
    assert_eq!(p.cname.as_deref(), Some("ac"));
}

#[test]
fn section_numbers_are_read_back() {
    let a = Answer { video: video(), audio: audio(), com: com() };
    for (audio_mid, video_mid) in [(0, 1), (1, 0), (9, 255), (100, 7)] {
        let p = read_offer(&write_answer(&a, "1", "", audio_mid, video_mid)).unwrap();
        assert_eq!((p.audio_mid, p.video_mid), (audio_mid, video_mid));
    }
}

fn text_at(v: &serde_json::Value, name: &str) -> String {
    v.get(name).and_then(|t| t.as_str()).unwrap_or_default().to_string()
}

fn int_at(v: &serde_json::Value, name: &str) -> i64 {
    v.get(name).and_then(|n| n.as_i64()).unwrap_or(0)
}

fn medium_at(v: &serde_json::Value) -> MLine {
    let mut sc = Json::array();
    for item in v["sc"].as_array().unwrap() {
        sc = sc.and(Json::text(item.as_str().unwrap()));
    }
    MLine {
        sr: int_at(v, "sr") as i32,
        dc: int_at(v, "dc") as i32,
        pt: int_at(v, "pt") as u32,
        fbc: int_at(v, "fbc") as u32,
        rm: int_at(v, "rm") as i32,
        rr: int_at(v, "rr") as i32,
        rs: int_at(v, "rs") as i32,
        sc,
        ce: text_at(v, "ce"),
        md: text_at(v, "md"),
        m: int_at(v, "m") as u32,
        pts: int_at(v, "pts") as u32,
    }
}

#[test]
fn an_offer_is_read_back() {
    for local in [LOCAL.to_string(), LOCAL.replace("a=mid:3", "a=mid:9"), without("a=ssrc:")] {
        let (compact, audio_mid, video_mid) = encode_offer(&local).unwrap();
        let v: serde_json::Value = serde_json::from_str(answer_payload(&compact).unwrap()).unwrap();
        let c = &v["com"];
        let a = Answer {
            video: medium_at(&v["video"]),
            audio: medium_at(&v["audio"]),
            com: Com {
                io: text_at(c, "iO"),
                is: int_at(c, "is") as i32,
                it: text_at(c, "iT"),
                ig: text_at(c, "iG"),
                isc: text_at(c, "isc"),
                ic: text_at(c, "ic"),
                r: text_at(c, "r"),
                u: text_at(c, "u"),
                p: text_at(c, "p"),
                o: text_at(c, "o"),
                ft: text_at(c, "ft"),
                s: text_at(c, "s"),
            },
        };
        let d = decode_answer(&compact, Some(&a), audio_mid, video_mid).unwrap();
        for p in ["o=", "a=ice-ufrag:", "a=ice-pwd:", "a=fingerprint:", "a=setup:"] {
            assert_eq!(attr(&d, p), attr(&local, p), "{p}");
            assert!(attr(&d, p).is_some());
        }
        assert!(d.lines().any(|l| l == format!("a=mid:{audio_mid}")));
        assert!(d.lines().any(|l| l == format!("a=mid:{video_mid}")));
    }
}

#[test]
fn a_section_is_the_same_whatever_stands_before_it() {
    let a = Answer { video: video(), audio: audio(), com: com() };
    let mut b = Answer { video: video(), audio: audio(), com: com() };
    b.audio.md = "other".into();
    let section = video_text(1);
    assert!(section.starts_with("m=video ") && section.ends_with("\r\n"));
    for t in [write_answer(&a, "22", "11", 0, 1), write_answer(&b, "", "11", 0, 1)] {
        assert!(t.ends_with(&section));
    }
    assert!(write_answer(&b, "", "11", 5, 1).starts_with(&format!("{SESSION_TEXT}{section}")));
    for before in ["", "x", "v=0\r\n"] {
        let mut t = before.to_string();
        push_media(&mut t, Medium::Video, &video(), &com(), 1);
        assert_eq!(t, format!("{before}{section}"));
        push_media(&mut t, Medium::Audio, &audio(), &com(), 7);
        assert_eq!(t, format!("{before}{section}{}", audio_text(7)));
        let mut t = before.to_string();
        push_section(&mut t, Medium::Video, &video(), "11", &com(), 1);
        assert_eq!(t, format!("{before}{section}"));
    }
}

#[test]
fn framed_text_is_read_back() {
    for t in ["", "{}", "00\r\n", "ä"] {
        assert_eq!(answer_payload(&frame_offer(t)), Ok(t));
    }
}

#[test]
fn media_are_named() {
    assert_eq!(Medium::Audio.name(), "audio");
    assert_eq!(Medium::Video.name(), "video");
    assert_eq!((sdp::VIDEO_PT, sdp::AUDIO_PT), (127, 97));
}
