use osaio_proxy::auth::Device;
use osaio_proxy::camera::CameraNotFound;
use osaio_proxy::json::Json;
use osaio_proxy::sdp::answer::Medium;
use osaio_proxy::server::{
    camera_info, change_asked, err, no_stream, setting_asked, setting_get, setting_set, settings_all,
    stream_head, Reply,
};
use osaio_proxy::settings;

fn plain(r: Reply) -> (u16, String) {
    (r.status, r.body.to_text())
}

fn expect(status: u16, body: &str) -> (u16, String) {
    (status, body.to_string())
}

#[test]
fn settings_by_name() {
    let s = settings::find("night-vision").unwrap();
    assert_eq!((s.name, s.attribute), ("night-vision", "IrLedMode"));
    assert!(settings::find("night-vision ").is_none());
    assert!(settings::find("").is_none());
    assert_eq!(settings::all().len(), 1);
}

#[test]
fn values_of_a_setting() {
    let s = settings::find("night-vision").unwrap();
    for (text, value) in [("off", 0), ("0", 0), ("on", 1), ("1", 1), ("auto", 2), ("2", 2)] {
        assert_eq!(s.parse(text), Some(value));
        assert_eq!(s.parse(s.label(value)), Some(value));
    }
    for text in ["", "3", "On", "unknown", " on"] {
        assert_eq!(s.parse(text), None);
    }
    for value in [-1, 3, i64::MIN, i64::MAX] {
        assert_eq!(s.label(value), "unknown");
        assert_eq!(s.parse(s.label(value)), None);
    }
}

#[test]
fn errors_are_told() {
    assert_eq!(plain(err(404, "a \"b\"")), expect(404, "{\"error\":\"a \\\"b\\\"\"}"));
}

#[test]
fn cameras_are_listed() {
    let d = Device { uuid: "id1".into(), name: "Door".into(), model: "GC3".into() };
    assert_eq!(
        camera_info(&[d]).to_text(),
        "[{\"id\":\"id1\",\"model\":\"GC3\",\"name\":\"Door\",\"settings\":\"/cameras/id1/settings\",\
\"streams\":{\"audio\":\"/cameras/id1/stream/audio\",\"video\":\"/cameras/id1/stream/video\"}}]"
    );
    assert_eq!(camera_info(&[]).to_text(), "[]");
}

#[test]
fn streams_are_served() {
    let v = stream_head(Medium::Video);
    assert_eq!((v.status, v.content_type, v.cache_control), (200, "video/mp2t", "no-cache, no-store"));
    let a = stream_head(Medium::Audio);
    assert_eq!((a.status, a.content_type, a.cache_control), (200, "audio/aac", "no-cache, no-store"));
    assert_eq!(plain(no_stream(&CameraNotFound)), expect(404, "{\"error\":\"camera not found\"}"));
}

#[test]
fn all_settings_are_listed() {
    assert_eq!(
        settings_all(&vec![Ok(Json::Int(2))]).to_text(),
        "[{\"name\":\"night-vision\",\"value\":\"auto\"}]"
    );
    assert_eq!(
        settings_all(&vec![Ok(Json::text("2"))]).to_text(),
        "[{\"name\":\"night-vision\",\"value\":\"unknown\"}]"
    );
    assert_eq!(
        settings_all(&vec![Err("camera not found".into())]).to_text(),
        "[{\"error\":\"camera not found\",\"name\":\"night-vision\"}]"
    );
}

#[test]
fn a_setting_is_read() {
    assert_eq!(
        plain(setting_asked("zoom").unwrap_err()),
        expect(404, "{\"error\":\"unknown setting: zoom\"}")
    );
    let s = setting_asked("night-vision").unwrap();
    assert_eq!(
        plain(setting_get(&s, "night-vision", Ok(Json::UInt(1)))),
        expect(200, "{\"name\":\"night-vision\",\"value\":\"on\"}")
    );
    assert_eq!(
        plain(setting_get(&s, "night-vision", Err("gone".into()))),
        expect(502, "{\"error\":\"gone\"}")
    );
}

#[test]
fn a_setting_is_changed() {
    assert_eq!(
        plain(change_asked("zoom", "on").unwrap_err()),
        expect(404, "{\"error\":\"unknown setting: zoom\"}")
    );
    assert_eq!(
        plain(change_asked("night-vision", "dim").unwrap_err()),
        expect(400, "{\"error\":\"invalid value for night-vision: dim\"}")
    );
    let (s, wanted) = change_asked("night-vision", "auto").unwrap();
    assert_eq!(wanted, 2);
    assert_eq!(
        plain(setting_set(&s, "night-vision", wanted, Ok(Json::Int(2)))),
        expect(200, "{\"name\":\"night-vision\",\"value\":\"auto\"}")
    );
    assert_eq!(
        plain(setting_set(&s, "night-vision", wanted, Ok(Json::Int(0)))),
        expect(409, "{\"name\":\"night-vision\",\"value\":\"off\"}")
    );
    assert_eq!(
        plain(setting_set(&s, "night-vision", wanted, Ok(Json::Null))),
        expect(409, "{\"name\":\"night-vision\",\"value\":\"unknown\"}")
    );
    assert_eq!(
        plain(setting_set(&s, "night-vision", wanted, Err("gone".into()))),
        expect(502, "{\"error\":\"gone\"}")
    );
}
