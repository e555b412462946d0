use bytes::Bytes;
use osaio_proxy::auth::{Device, Session};
use osaio_proxy::camera::{
    Camera, CameraAction, CameraEvent, CameraNotFound, Cameras, Lookup,
};
use osaio_proxy::config::OsaioConfig;
use osaio_proxy::stream::{
    muxed_chunk, muxer_args, muxer_program, StartError, Starting, Stream, StreamAction,
    StreamError, StreamEvent, MEDIA_SECS, SWITCH_SECS,
};

fn device(uuid: &str, name: &str) -> Device {
    Device { uuid: uuid.into(), name: name.into(), model: "GC3".into() }
}

#[test]
fn cameras_are_found_by_identifier() {
    let c: Cameras<u8> = Cameras::new(vec![device("a", "one"), device("b", "two"), device("a", "three")]);
    assert_eq!(c.devices().len(), 3);
    assert_eq!(c.device("b").unwrap().name, "two");
    assert_eq!(c.device("a").unwrap().name, "one");
    assert_eq!(c.device("z").unwrap_err(), CameraNotFound);
    assert_eq!(CameraNotFound.message(), "camera not found");
}

#[test]
fn a_camera_is_started_once() {
    let mut c: Cameras<u8> = Cameras::new(vec![device("a", "one"), device("b", "two")]);
    assert!(matches!(c.camera("a"), Lookup::Start(d) if d.name == "one"));
    c.started("a", 7);
    assert!(matches!(c.camera("a"), Lookup::Running(7)));
    assert!(matches!(c.camera("b"), Lookup::Start(_)));
    assert!(matches!(c.camera("z"), Lookup::Unknown(CameraNotFound)));
    c.started("b", 8);
    assert!(matches!(c.camera("a"), Lookup::Running(7)));
    assert!(matches!(c.camera("b"), Lookup::Running(8)));
}

#[test]
fn all_cameras_are_started() {
    let list = vec![device("a", "1"), device("b", "2"), device("a", "3"), device("c", "4")];
    let mut c: Cameras<usize> = Cameras::new(list);
    c.started("b", 9);
    let names: Vec<String> = c.start_all().iter().map(|d| d.name.clone()).collect();
    assert_eq!(names, vec!["1".to_string(), "4".to_string()]);
    for (i, d) in c.start_all().iter().enumerate() {
        c.started(&d.uuid, i);
    }
    assert!(c.start_all().is_empty());
    assert!(matches!(c.camera("a"), Lookup::Running(0)));
    assert!(matches!(c.camera("b"), Lookup::Running(9)));
    assert!(matches!(c.camera("c"), Lookup::Running(1)));
}

#[test]
fn attributes_of_a_camera() {
    let session = Session {
        ws_url: "".into(),
        uid: "".into(),
        api_token: "".into(),
        phone_code: "".into(),
        osaio: OsaioConfig {
            appid: "".into(),
            app_secret: "".into(),
            user_agent: "".into(),
            global_base_url: "".into(),
        },
        web_base_url: "".into(),
    };
    let c: Cameras<u8> = Cameras::new(vec![device("a", "one")]);
    let (d, m) = c.get_attribute(&session, "a", "IrLedMode").unwrap();
    assert_eq!((d.name.as_str(), m.method), ("one", "atr.get"));
    assert_eq!(m.data.to_text(), "[\"IrLedMode\"]");
    let (d, _, m) = c.set_attribute(&session, "a", "IrLedMode", 2).unwrap();
    assert_eq!((d.uuid.as_str(), m.method), ("a", "atr.set"));
    assert_eq!(m.data.to_text(), "{\"IrLedMode\":2}");
    assert!(matches!(c.get_attribute(&session, "z", "x"), Err(CameraNotFound)));
    assert!(matches!(c.set_attribute(&session, "z", "x", 0), Err(CameraNotFound)));
}

fn running() -> Stream {
    let (starting, _) = Starting::first();
    match starting.switched(true) {
        Ok(switched) => switched.muxer_started(true).unwrap_or_else(|e| panic!("{e:?}")),
        Err(e) => panic!("{e:?}"),
    }
}

#[test]
fn a_stream_is_turned_on_before_its_muxer() {
    let (starting, first) = Starting::first();
    assert!(matches!(first, StreamAction::KeepAlive));
    assert!(matches!(starting.switched(false), Err(StartError::Switch)));
    let (starting, _) = Starting::first();
    let switched = match starting.switched(true) {
        Ok(switched) => switched,
        Err(e) => panic!("{e:?}"),
    };
    assert!(matches!(switched.muxer_started(false), Err(StartError::Muxer)));
    assert_eq!(StartError::Switch.context(), None);
    assert_eq!(StartError::Muxer.context().as_deref(), Some("spawning ffmpeg muxer"));
}

#[test]
fn a_camera_runs_again_after_every_end() {
    let short = 60_000_000_000u128;
    let (mut c, first) = Camera::start();
    assert_eq!(first, CameraAction::Run);
    let mut waits = Vec::new();
    for ran in [short, short, 1, short + 1, short, 0, 0, 0, 0] {
        match c.next(CameraEvent::Ended(ran)) {
            CameraAction::Wait(secs) => waits.push(secs),
            CameraAction::Run => panic!(),
        }
        assert_eq!(c.next(CameraEvent::Waited), CameraAction::Run);
    }
    assert_eq!(waits, vec![2, 4, 8, 2, 4, 8, 16, 30, 30]);
}

fn stops(event: StreamEvent, error: StreamError, message: &str) {
    let mut s = running();
    assert!(s.can_take(&event));
    match s.step(event) {
        StreamAction::Stop(e) => assert_eq!(e, error),
        _ => panic!(),
    }
    assert_eq!(error.message(), message);
}

#[test]
fn ends_of_a_stream() {
    stops(StreamEvent::NoMedia, StreamError::NoMedia, "no media timeout");
    stops(StreamEvent::VideoClosed, StreamError::VideoClosed, "video channel closed");
    stops(StreamEvent::WriteFailed, StreamError::WriteFailed, "writing video to ffmpeg");
    stops(StreamEvent::MuxerClosed, StreamError::MuxerClosed, "ffmpeg closed output");
    stops(StreamEvent::MuxerFailed, StreamError::MuxerFailed, "reading muxed video");
    stops(StreamEvent::AudioClosed, StreamError::AudioClosed, "audio channel closed");
    stops(StreamEvent::SwitchFailed, StreamError::SwitchFailed, "keepalive switch failed");
    assert_eq!((SWITCH_SECS, MEDIA_SECS), (25, 20));
}

#[test]
fn packets_become_units() {
    let mut s = running();
    let mut step = |p: &[u8]| match s.step(StreamEvent::Packet(Bytes::copy_from_slice(p))) {
        StreamAction::Write(units) => units,
        _ => panic!(),
    };
    assert!(step(&[49 << 1, 1, 0x80 | 19, 1]).is_empty());
    assert_eq!(step(&[49 << 1, 1, 0x40 | 19, 2]), vec![Bytes::from(vec![0, 0, 0, 1, 0x26, 1, 1, 2])]);
    assert_eq!(step(&[0x40, 1]), vec![Bytes::from(vec![0, 0, 0, 1, 0x40, 1])]);
}

#[test]
fn media_are_published() {
    let mut s = running();
    let b = Bytes::from(vec![1, 2]);
    assert!(matches!(s.step(StreamEvent::Muxed(b.clone())), StreamAction::PublishVideo(x) if x == b));
    assert!(matches!(s.step(StreamEvent::Audio(b.clone())), StreamAction::PublishAudio(x) if x == b));
    assert!(matches!(s.step(StreamEvent::KeepaliveDue), StreamAction::KeepAlive));
}

#[test]
fn the_muxer() {
    assert_eq!(muxer_program(None), "ffmpeg");
    assert_eq!(muxer_program(Some("/opt/ff".into())), "/opt/ff");
    assert_eq!(
        muxer_args().join(" "),
        "-hide_banner -loglevel error -fflags nobuffer -flags low_delay -f hevc -i pipe:0 -c:v copy \
-f mpegts -mpegts_flags resend_headers -flush_packets 1 -muxdelay 0 -muxpreload 0 pipe:1"
    );
    assert_eq!(muxed_chunk(vec![1, 2, 3], 0), None);
    assert_eq!(muxed_chunk(vec![1, 2, 3], 2), Some(vec![1, 2]));
    assert_eq!(muxed_chunk(vec![1, 2, 3], 3), Some(vec![1, 2, 3]));
}
