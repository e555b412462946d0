//! What the HTTP endpoints answer.

use vstd::prelude::*;
use vstd::string::*;

use crate::auth::Device;
use crate::camera::CameraNotFound;
use crate::json::Json;
use crate::json::JsonModel;
use crate::sdp::answer::Medium;
use crate::settings;
use crate::settings::Setting;
use crate::settings::SettingModel;
use crate::text;

verus! {

pub const OK: u16 = 200;

pub const BAD_REQUEST: u16 = 400;

pub const NOT_FOUND: u16 = 404;

pub const CONFLICT: u16 = 409;

pub const BAD_GATEWAY: u16 = 502;

/// An answer with a JSON body.
#[derive(Debug)]
pub struct Reply {
    pub status: u16,
    pub body: Json,
}

/// An answer with a JSON body, as plain values.
pub struct ReplyModel {
    pub status: u16,
    pub body: JsonModel,
}

impl View for Reply {
    type V = ReplyModel;

    open spec fn view(&self) -> ReplyModel {
        ReplyModel { status: self.status, body: self.body@ }
    }
}

/// The answer that tells of an error.
pub open spec fn error_model(status: u16, message: Seq<char>) -> ReplyModel {
    ReplyModel {
        status,
        body: JsonModel::Object(map!["error"@ => JsonModel::Text(message)]),
    }
}

/// The answer that tells of an error.
pub fn err(status: u16, message: &str) -> (r: Reply)
    ensures
        r@ == error_model(status, message@),
{
    Reply { status, body: Json::object().with("error", Json::text(message)) }
}

// ---------------------------------------------------------------------------
// Cameras
// ---------------------------------------------------------------------------

/// The address of something of a camera.
pub open spec fn camera_path(uuid: Seq<char>, what: Seq<char>) -> Seq<char> {
    "/cameras/"@ + uuid + what
}

/// What is told of a camera.
pub open spec fn device_model(d: Device) -> JsonModel {
    JsonModel::Object(
        map![
            "id"@ => JsonModel::Text(d.uuid@),
            "name"@ => JsonModel::Text(d.name@),
            "model"@ => JsonModel::Text(d.model@),
            "streams"@ => JsonModel::Object(
                map![
                    "video"@ => JsonModel::Text(camera_path(d.uuid@, "/stream/video"@)),
                    "audio"@ => JsonModel::Text(camera_path(d.uuid@, "/stream/audio"@)),
                ],
            ),
            "settings"@ => JsonModel::Text(camera_path(d.uuid@, "/settings"@)),
        ],
    )
}

/// What is told of a camera.
fn device_info(d: &Device) -> (r: Json)
    ensures
        r@ == device_model(*d),
{
    let uuid = d.uuid.as_str();
    let streams = Json::object()
        .with("video", Json::Text(text::cat3("/cameras/", uuid, "/stream/video")))
        .with("audio", Json::Text(text::cat3("/cameras/", uuid, "/stream/audio")));
    Json::object()
        .with("id", Json::text(uuid))
        .with("name", Json::text(d.name.as_str()))
        .with("model", Json::text(d.model.as_str()))
        .with("streams", streams)
        .with("settings", Json::Text(text::cat3("/cameras/", uuid, "/settings")))
}

/// The list of all cameras.
pub fn camera_info(devices: &[Device]) -> (r: Json)
    ensures
        r@ == JsonModel::Array(devices@.map_values(|d: Device| device_model(d))),
{
    let mut r = Json::array();
    let mut i: usize = 0;
    let ghost told = |d: Device| device_model(d);
    assert(r@->Array_0 =~= devices@.take(0).map_values(told));
    while i < devices.len()
        invariant
            i <= devices.len(),
            told == (|d: Device| device_model(d)),
            r is Array,
            r@ == JsonModel::Array(devices@.take(i as int).map_values(told)),
        decreases devices.len() - i,
    {
        let ghost before = r@->Array_0;
        r = r.and(device_info(&devices[i]));
        i += 1;
        assert(before.push(device_model(devices@[i - 1])) =~= devices@.take(i as int).map_values(
            told,
        ));
    }
    assert(devices@.take(i as int) =~= devices@);
    r
}

/// How the stream of a camera is served.
pub struct StreamHead {
    pub status: u16,
    pub content_type: &'static str,
    pub cache_control: &'static str,
}

/// How the stream of a camera is served: video as MPEG-TS, audio as AAC, and neither is kept.
pub fn stream_head(medium: Medium) -> (r: StreamHead)
    ensures
        r.status == OK,
        r.content_type@ == (match medium {
            Medium::Video => "video/mp2t"@,
            Medium::Audio => "audio/aac"@,
        }),
        r.cache_control@ == "no-cache, no-store"@,
{
    StreamHead {
        status: OK,
        content_type: match medium {
            Medium::Video => "video/mp2t",
            Medium::Audio => "audio/aac",
        },
        cache_control: "no-cache, no-store",
    }
}

/// The answer to a request for the stream of a camera that the account does not have.
pub fn no_stream(e: &CameraNotFound) -> (r: Reply)
    ensures
        r@ == error_model(NOT_FOUND, "camera not found"@),
{
    err(NOT_FOUND, e.message().as_str())
}

// ---------------------------------------------------------------------------
// Settings
// ---------------------------------------------------------------------------

/// The value that a camera reported: -1 where it is no integer.
pub open spec fn reported_value(v: Json) -> i64 {
    match v.int_of() {
        Some(n) => n,
        None => (-1) as i64,
    }
}

/// The value that a camera reported: -1 where it is no integer.
fn value_reported(v: &Json) -> (r: i64)
    ensures
        r == reported_value(*v),
{
    match v.as_int() {
        Some(n) => n,
        None => -1,
    }
}

/// What is told of a setting that has a value.
pub open spec fn value_model(name: Seq<char>, value: i64) -> JsonModel {
    JsonModel::Object(
        map![
            "name"@ => JsonModel::Text(name),
            "value"@ => JsonModel::Text(settings::label_of(value)),
        ],
    )
}

/// What is told of a setting that could not be read.
pub open spec fn unread_model(name: Seq<char>, message: Seq<char>) -> JsonModel {
    JsonModel::Object(
        map!["name"@ => JsonModel::Text(name), "error"@ => JsonModel::Text(message)],
    )
}

/// What is told of a setting that has a value.
fn value_info(setting: &Setting, name: &str, value: i64) -> (r: Json)
    ensures
        r@ == value_model(name@, value),
{
    Json::object().with("name", Json::text(name)).with(
        "value",
        Json::text(setting.label(value)),
    )
}

/// What is told of a setting, after the camera was asked for it.
pub open spec fn entry_model(setting: SettingModel, outcome: Result<Json, String>) -> JsonModel {
    match outcome {
        Ok(v) => value_model(setting.name, reported_value(v)),
        Err(m) => unread_model(setting.name, m@),
    }
}

/// The list of all settings. `outcomes` holds for each setting, in order, what the camera
/// reported or why it could not be asked.
pub fn settings_all(outcomes: &Vec<Result<Json, String>>) -> (r: Json)
    requires
        outcomes@.len() == settings::known().len(),
    ensures
        r@ == JsonModel::Array(
            Seq::new(
                outcomes@.len(),
                |i: int| entry_model(settings::known()[i], outcomes@[i]),
            ),
        ),
{
    let all = settings::all();
    let mut r = Json::array();
    let mut i: usize = 0;
    let ghost entry = |i: int| entry_model(settings::known()[i], outcomes@[i]);
    assert(settings::models(all@).len() == all@.len());
    assert(r@->Array_0 =~= Seq::new(0, entry));
    while i < outcomes.len()
        invariant
            i <= outcomes.len(),
            all@.len() == outcomes@.len(),
            settings::models(all@) == settings::known(),
            entry == (|i: int| entry_model(settings::known()[i], outcomes@[i])),
            r is Array,
            r@ == JsonModel::Array(Seq::new(i as nat, entry)),
        decreases outcomes.len() - i,
    {
        let s = &all[i];
        assert(s@ == settings::models(all@)[i as int]);
        let told = match &outcomes[i] {
            Ok(v) => value_info(s, s.name, value_reported(v)),
            Err(m) => Json::object().with("name", Json::text(s.name)).with(
                "error",
                Json::text(m.as_str()),
            ),
        };
        let ghost before = r@->Array_0;
        r = r.and(told);
        i += 1;
        assert(before.push(told@) =~= Seq::new(i as nat, entry));
    }
    r
}

/// The answer to a request for a setting that there is not.
pub open spec fn unknown_setting(name: Seq<char>) -> ReplyModel {
    error_model(NOT_FOUND, "unknown setting: "@ + name)
}

/// Which setting a request asks for; otherwise the answer.
pub fn setting_asked(name: &str) -> (r: Result<Setting, Reply>)
    ensures
        match r {
            Ok(s) => settings::named(settings::known(), name@) == Some(s@),
            Err(reply) => settings::named(settings::known(), name@) is None && reply@
                == unknown_setting(name@),
        },
{
    match settings::find(name) {
        Some(s) => Ok(s),
        None => Err(err(NOT_FOUND, text::cat("unknown setting: ", name).as_str())),
    }
}

/// The answer to a request for a setting, after the camera was asked for it.
pub fn setting_get(setting: &Setting, name: &str, outcome: Result<Json, String>) -> (r: Reply)
    ensures
        r@ == (match outcome {
            Ok(v) => ReplyModel { status: OK, body: value_model(name@, reported_value(v)) },
            Err(m) => error_model(BAD_GATEWAY, m@),
        }),
{
    match outcome {
        Ok(v) => Reply { status: OK, body: value_info(setting, name, value_reported(&v)) },
        Err(m) => err(BAD_GATEWAY, m.as_str()),
    }
}

/// Which setting a request changes, and to which value; otherwise the answer.
pub fn change_asked(name: &str, value: &str) -> (r: Result<(Setting, i64), Reply>)
    ensures
        match r {
            Ok((s, wanted)) => settings::named(settings::known(), name@) == Some(s@)
                && settings::value_of(value@) == Some(wanted),
            Err(reply) => if settings::named(settings::known(), name@) is None {
                reply@ == unknown_setting(name@)
            } else {
                settings::value_of(value@) is None && reply@ == error_model(
                    BAD_REQUEST,
                    "invalid value for "@ + name@ + ": "@ + value@,
                )
            },
        },
{
    let setting = match setting_asked(name) {
        Ok(s) => s,
        Err(reply) => {
            return Err(reply);
        },
    };
    match setting.parse(value) {
        Some(wanted) => Ok((setting, wanted)),
        None => {
            let mut m = text::cat3("invalid value for ", name, ": ");
            m.append(value);
            Err(err(BAD_REQUEST, m.as_str()))
        },
    }
}

/// The answer to a request that changes a setting, after the camera was told and asked again: it
/// is a conflict where the camera reports another value than the one that was wanted.
pub fn setting_set(
    setting: &Setting,
    name: &str,
    wanted: i64,
    outcome: Result<Json, String>,
) -> (r: Reply)
    ensures
        r@ == (match outcome {
            Ok(v) => ReplyModel {
                status: if reported_value(v) == wanted {
                    OK
                } else {
                    CONFLICT
                },
                body: value_model(name@, reported_value(v)),
            },
            Err(m) => error_model(BAD_GATEWAY, m@),
        }),
{
    match outcome {
        Ok(v) => {
            let now: i64 = value_reported(&v);
            let status: u16 = if now == wanted {
                OK
            } else {
                CONFLICT
            };
            Reply { status, body: value_info(setting, name, now) }
        },
        Err(m) => err(BAD_GATEWAY, m.as_str()),
    }
}

/// The word that a changed setting is answered with stands for the value that was wanted.
pub proof fn law_change_confirmed(value: Seq<char>)
    requires
        settings::value_of(value) is Some,
    ensures
        ({
            let wanted = settings::value_of(value).unwrap();
            settings::value_of(settings::label_of(wanted)) == Some(wanted)
        }),
{
    settings::law_values(value);
    settings::law_label_parses(settings::value_of(value).unwrap());
}

} // verus!
