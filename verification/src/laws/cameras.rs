//! Laws on the cameras of the account, their settings, and what the endpoints answer.

use vstd::prelude::*;
use vstd::string::*;

use crate::auth::Device;
use crate::camera::by_uuid;
use crate::camera::device_with;
use crate::camera::to_start;
use crate::camera::uuid_set;
use crate::json::has_names;
use crate::json::holds;
use crate::json::Json;
use crate::json::JsonModel;
use crate::server;
use crate::settings;
use crate::settings::Setting;
use crate::settings::SettingModel;

verus! {

/// The camera that is found is the first with the identifier; where none is found, none has it.
pub proof fn law_first_device(devices: Seq<Device>, uuid: Seq<char>) -> (k: int)
    ensures
        match device_with(devices, uuid) {
            Some(d) => 0 <= k < devices.len() && devices[k] == d && d.uuid@ == uuid && (forall|
                j: int,
            |
                0 <= j < k ==> #[trigger] devices[j].uuid@ != uuid),
            None => forall|j: int| 0 <= j < devices.len() ==> #[trigger] devices[j].uuid@ != uuid,
        },
    decreases devices.len(),
{
    if devices.len() == 0 || devices[0].uuid@ == uuid {
        0
    } else {
        let rest = devices.skip(1);
        let k = law_first_device(rest, uuid);
        assert(forall|j: int| 1 <= j < devices.len() ==> #[trigger] devices[j] == rest[j - 1]);
        k + 1
    }
}

/// An identifier is one of some cameras exactly where one of them has it.
pub proof fn law_identifiers(devices: Seq<Device>, uuid: Seq<char>)
    ensures
        uuid_set(devices).contains(uuid) <==> exists|k: int|
            0 <= k < devices.len() && #[trigger] devices[k].uuid@ == uuid,
{
    let k = law_first_device(devices, uuid);
    if uuid_set(devices).contains(uuid) {
        assert(devices[k].uuid@ == uuid);
    }
}

/// One entry more is one handle more, under the identifier of the entry.
pub proof fn law_handles<C>(running: Seq<(String, C)>, uuid: String, handle: C)
    ensures
        by_uuid(Seq::<(String, C)>::empty()) == Map::<Seq<char>, C>::empty(),
        by_uuid(running.push((uuid, handle))) == by_uuid(running).insert(uuid@, handle),
{
    assert(running.push((uuid, handle)).drop_last() =~= running);
}

/// A camera is to be started exactly where it is not running, and what follows it in the list is
/// to be started as if it were.
pub proof fn law_start_order(d: Device, rest: Seq<Device>, running: Set<Seq<char>>)
    ensures
        to_start(Seq::empty(), running).len() == 0,
        running.contains(d.uuid@) ==> to_start(seq![d] + rest, running) == to_start(rest, running),
        !running.contains(d.uuid@) ==> to_start(seq![d] + rest, running) == seq![d] + to_start(
            rest,
            running.insert(d.uuid@),
        ),
{
    assert((seq![d] + rest).skip(1) =~= rest);
}

// ---------------------------------------------------------------------------
// Settings
// ---------------------------------------------------------------------------

/// The words for the values, and the value that each text stands for.
pub proof fn law_words(value: i64, t: Seq<char>)
    ensures
        settings::label_of(0) == "off"@,
        settings::label_of(1) == "on"@,
        settings::label_of(2) == "auto"@,
        value < 0 || value > 2 ==> settings::label_of(value) == "unknown"@,
        settings::value_of(t) == Some(0i64) <==> t == "off"@ || t == "0"@,
        settings::value_of(t) == Some(1i64) <==> t == "on"@ || t == "1"@,
        settings::value_of(t) == Some(2i64) <==> t == "auto"@ || t == "2"@,
        settings::value_of(t) matches Some(v) ==> v == 0 || v == 1 || v == 2,
{
    reveal_strlit("off");
    reveal_strlit("on");
    reveal_strlit("auto");
    reveal_strlit("0");
    reveal_strlit("1");
    reveal_strlit("2");
    assert("off"@.len() == 3 && "on"@.len() == 2 && "auto"@.len() == 4);
    assert("0"@.len() == 1 && "1"@.len() == 1 && "2"@.len() == 1);
    assert("0"@[0] == '0' && "1"@[0] == '1' && "2"@[0] == '2');
}

/// The setting that is found is the first with the name; where none is found, none has it.
pub proof fn law_first_setting(list: Seq<SettingModel>, name: Seq<char>) -> (k: int)
    ensures
        match settings::named(list, name) {
            Some(s) => 0 <= k < list.len() && list[k] == s && s.name == name && (forall|j: int|
                0 <= j < k ==> #[trigger] list[j].name != name),
            None => forall|j: int| 0 <= j < list.len() ==> #[trigger] list[j].name != name,
        },
    decreases list.len(),
{
    if list.len() == 0 || list[0].name == name {
        0
    } else {
        let rest = list.skip(1);
        let k = law_first_setting(rest, name);
        assert(forall|j: int| 1 <= j < list.len() ==> #[trigger] list[j] == rest[j - 1]);
        k + 1
    }
}

/// There is one setting, and it is held by the attribute for the infrared light.
pub proof fn law_known_settings(list: Seq<Setting>)
    ensures
        settings::known().len() == 1,
        settings::known()[0].name == "night-vision"@,
        settings::known()[0].attribute == "IrLedMode"@,
        settings::models(list).len() == list.len(),
        forall|i: int| 0 <= i < list.len() ==> #[trigger] settings::models(list)[i] == list[i]@,
{
}

// ---------------------------------------------------------------------------
// Answers
// ---------------------------------------------------------------------------

/// The value that is told is the integer that the camera reported, whichever it is; what is no
/// integer is told as -1.
pub proof fn law_reported_value(n: i64, u: u64, value: Json)
    ensures
        server::reported_value(Json::Int(n)) == n,
        u <= i64::MAX ==> server::reported_value(Json::UInt(u)) == u,
        u > i64::MAX ==> server::reported_value(Json::UInt(u)) == -1,
        !(value is Int) && !(value is UInt) ==> server::reported_value(value) == -1,
{
}

/// A camera that reports 0, 1 or 2 is told as off, on or auto, under the name that was asked for,
/// and any other report as unknown.
pub proof fn law_told_value(name: Seq<char>, n: i64)
    ensures
        ({
            let told = server::value_model(name, server::reported_value(Json::Int(n)));
            &&& holds(told, "name"@, JsonModel::Text(name))
            &&& has_names(told, set!["name"@, "value"@])
            &&& n == 0 ==> holds(told, "value"@, JsonModel::Text("off"@))
            &&& n == 1 ==> holds(told, "value"@, JsonModel::Text("on"@))
            &&& n == 2 ==> holds(told, "value"@, JsonModel::Text("auto"@))
            &&& n < 0 || n > 2 ==> holds(told, "value"@, JsonModel::Text("unknown"@))
        }),
{
    let told = server::value_model(name, server::reported_value(Json::Int(n)));
    reveal_strlit("name");
    reveal_strlit("value");
    assert("name"@.len() == 4 && "name"@[0] == 'n' && "name"@[1] == 'a' && "name"@[2] == 'm'
        && "name"@[3] == 'e');
    assert("value"@.len() == 5 && "value"@[0] == 'v' && "value"@[1] == 'a' && "value"@[2] == 'l'
        && "value"@[3] == 'u' && "value"@[4] == 'e');
    assert(told->Object_0.dom() =~= set!["name"@, "value"@]);
}

/// A setting of which the camera could be asked is told by its value, and any other by why it
/// could not.
pub proof fn law_told_setting(setting: SettingModel, outcome: Result<Json, String>)
    ensures
        ({
            let told = server::entry_model(setting, outcome);
            &&& holds(told, "name"@, JsonModel::Text(setting.name))
            &&& match outcome {
                Ok(v) => has_names(told, set!["name"@, "value"@]) && holds(
                    told,
                    "value"@,
                    JsonModel::Text(settings::label_of(server::reported_value(v))),
                ),
                Err(m) => has_names(told, set!["name"@, "error"@]) && holds(
                    told,
                    "error"@,
                    JsonModel::Text(m@),
                ),
            }
        }),
{
    let told = server::entry_model(setting, outcome);
    reveal_strlit("name");
    reveal_strlit("value");
    reveal_strlit("error");
    assert("name"@.len() == 4 && "name"@[0] == 'n' && "name"@[1] == 'a' && "name"@[2] == 'm'
        && "name"@[3] == 'e');
    assert("value"@.len() == 5 && "value"@[0] == 'v' && "value"@[1] == 'a' && "value"@[2] == 'l'
        && "value"@[3] == 'u' && "value"@[4] == 'e');
    assert("error"@.len() == 5 && "error"@[0] == 'e' && "error"@[1] == 'r' && "error"@[2] == 'r'
        && "error"@[3] == 'o' && "error"@[4] == 'r');
    match outcome {
        Ok(v) => {
            assert(told->Object_0.dom() =~= set!["name"@, "value"@]);
        },
        Err(m) => {
            assert(told->Object_0.dom() =~= set!["name"@, "error"@]);
        },
    }
}

/// An error is told with its status and its whole message; a setting that there is not is one
/// that was not found.
pub proof fn law_told_error(status: u16, message: Seq<char>, name: Seq<char>)
    ensures
        server::error_model(status, message).status == status,
        holds(server::error_model(status, message).body, "error"@, JsonModel::Text(message)),
        has_names(server::error_model(status, message).body, set!["error"@]),
        server::unknown_setting(name) == server::error_model(404, "unknown setting: "@ + name),
        server::OK == 200,
        server::BAD_REQUEST == 400,
        server::NOT_FOUND == 404,
        server::CONFLICT == 409,
        server::BAD_GATEWAY == 502,
{
    let told = server::error_model(status, message).body;
    assert(told->Object_0.dom() =~= set!["error"@]);
}

/// A camera is told with its identifier, its name and its model, each whole, and with the
/// addresses of its streams and settings, in which its identifier stands whole.
pub proof fn law_told_camera(d: Device)
    ensures
        ({
            let told = server::device_model(d);
            let path = |what: Seq<char>| JsonModel::Text("/cameras/"@ + d.uuid@ + what);
            &&& has_names(told, set!["id"@, "name"@, "model"@, "streams"@, "settings"@])
            &&& holds(told, "id"@, JsonModel::Text(d.uuid@))
            &&& holds(told, "name"@, JsonModel::Text(d.name@))
            &&& holds(told, "model"@, JsonModel::Text(d.model@))
            &&& holds(told, "settings"@, path("/settings"@))
            &&& has_names(told->Object_0["streams"@], set!["video"@, "audio"@])
            &&& holds(told->Object_0["streams"@], "video"@, path("/stream/video"@))
            &&& holds(told->Object_0["streams"@], "audio"@, path("/stream/audio"@))
        }),
{
    let told = server::device_model(d);
    reveal_strlit("id");
    reveal_strlit("name");
    reveal_strlit("model");
    reveal_strlit("streams");
    reveal_strlit("settings");
    reveal_strlit("video");
    reveal_strlit("audio");
    assert("id"@.len() == 2 && "id"@[0] == 'i' && "id"@[1] == 'd');
    assert("name"@.len() == 4 && "name"@[0] == 'n' && "name"@[1] == 'a' && "name"@[2] == 'm'
        && "name"@[3] == 'e');
    assert("model"@.len() == 5 && "model"@[0] == 'm' && "model"@[1] == 'o' && "model"@[2] == 'd'
        && "model"@[3] == 'e' && "model"@[4] == 'l');
    assert("streams"@.len() == 7 && "streams"@[0] == 's' && "streams"@[1] == 't'
        && "streams"@[2] == 'r' && "streams"@[3] == 'e' && "streams"@[4] == 'a'
        && "streams"@[5] == 'm' && "streams"@[6] == 's');
    assert("settings"@.len() == 8 && "settings"@[0] == 's' && "settings"@[1] == 'e'
        && "settings"@[2] == 't' && "settings"@[3] == 't' && "settings"@[4] == 'i'
        && "settings"@[5] == 'n' && "settings"@[6] == 'g' && "settings"@[7] == 's');
    assert("video"@.len() == 5 && "video"@[0] == 'v' && "video"@[1] == 'i' && "video"@[2] == 'd'
        && "video"@[3] == 'e' && "video"@[4] == 'o');
    assert("audio"@.len() == 5 && "audio"@[0] == 'a' && "audio"@[1] == 'u' && "audio"@[2] == 'd'
        && "audio"@[3] == 'i' && "audio"@[4] == 'o');
    assert(told->Object_0.dom() =~= set!["id"@, "name"@, "model"@, "streams"@, "settings"@]);
    assert(told->Object_0["streams"@]->Object_0.dom() =~= set!["video"@, "audio"@]);
}

} // verus!
