//! Laws on a call: its number, its messages, the camera's answer, and the servers.

use vstd::prelude::*;
use vstd::string::*;

use crate::auth::Ice;
use crate::call;
use crate::call::AnswerError;
use crate::call::AnswerEvent;
use crate::call::AnswerStep;
use crate::ice;
use crate::json::has_names;
use crate::json::holds;
use crate::json::Json;
use crate::json::JsonModel;
use crate::json::text_models;
use crate::text;
use crate::ws::Incoming;

verus! {

/// The number of a call lies in its range, and all numbers of the range come of a draw alike.
pub proof fn law_call_number(drawn: u64)
    ensures
        1_000_000_000_000_000 <= call::call_number(drawn) < 1_999_999_999_999_999,
        (call::call_number(drawn) - 1_000_000_000_000_000) % 999_999_999_999_999 == drawn as int
            % 999_999_999_999_999,
        drawn < 999_999_999_999_999 ==> call::call_number(drawn) == 1_000_000_000_000_000 + drawn,
{
}

/// The message that turns a stream on names the session and the call, each whole.
pub proof fn law_switch_data(session_id: Seq<char>, call_id: Seq<char>)
    ensures
        has_names(
            call::switch_model(session_id, call_id),
            set![
                "Action"@,
                "Timestamp"@,
                "Quality"@,
                "SessionId"@,
                "call_id"@,
            ],
        ),
        holds(call::switch_model(session_id, call_id), "Action"@, JsonModel::Int(0)),
        holds(call::switch_model(session_id, call_id), "Timestamp"@, JsonModel::Int(0)),
        holds(call::switch_model(session_id, call_id), "Quality"@, JsonModel::Int(2)),
        holds(call::switch_model(session_id, call_id), "SessionId"@, JsonModel::Text(session_id)),
        holds(call::switch_model(session_id, call_id), "call_id"@, JsonModel::Text(call_id)),
{
    reveal_strlit("Action");
    reveal_strlit("Timestamp");
    reveal_strlit("Quality");
    reveal_strlit("SessionId");
    reveal_strlit("call_id");
    assert("Action"@.len() == 6 && "Action"@[0] == 'A' && "Action"@[1] == 'c'
        && "Action"@[2] == 't');
    assert("Action"@[3] == 'i' && "Action"@[4] == 'o' && "Action"@[5] == 'n');
    assert("Timestamp"@.len() == 9 && "Timestamp"@[0] == 'T' && "Timestamp"@[1] == 'i'
        && "Timestamp"@[2] == 'm');
    assert("Timestamp"@[3] == 'e' && "Timestamp"@[4] == 's' && "Timestamp"@[5] == 't'
        && "Timestamp"@[6] == 'a');
    assert("Timestamp"@[7] == 'm' && "Timestamp"@[8] == 'p');
    assert("Quality"@.len() == 7 && "Quality"@[0] == 'Q' && "Quality"@[1] == 'u'
        && "Quality"@[2] == 'a');
    assert("Quality"@[3] == 'l' && "Quality"@[4] == 'i' && "Quality"@[5] == 't'
        && "Quality"@[6] == 'y');
    assert("SessionId"@.len() == 9 && "SessionId"@[0] == 'S' && "SessionId"@[1] == 'e'
        && "SessionId"@[2] == 's');
    assert("SessionId"@[3] == 's' && "SessionId"@[4] == 'i' && "SessionId"@[5] == 'o'
        && "SessionId"@[6] == 'n');
    assert("SessionId"@[7] == 'I' && "SessionId"@[8] == 'd');
    assert("call_id"@.len() == 7 && "call_id"@[0] == 'c' && "call_id"@[1] == 'a'
        && "call_id"@[2] == 'l');
    assert("call_id"@[3] == 'l' && "call_id"@[4] == '_' && "call_id"@[5] == 'i'
        && "call_id"@[6] == 'd');
    assert(call::switch_model(session_id, call_id)->Object_0.dom() =~= set![
        "Action"@,
        "Timestamp"@,
        "Quality"@,
        "SessionId"@,
        "call_id"@,
    ]);
}

/// The message that carries an offer holds the offer and the call, each whole, and the servers of
/// the camera, all of them and in order.
pub proof fn law_offer_data(
    compact: Seq<char>,
    call_id: Seq<char>,
    urls: Seq<String>,
    usernames: Seq<String>,
    passwords: Seq<String>,
)
    ensures
        has_names(
            JsonModel::Object(call::offer_members(compact, call_id, urls, usernames, passwords)),
            set![
                "WebrtcSdp"@,
                "Action"@,
                "Timestamp"@,
                "TrickleICE"@,
                "CodecMode"@,
                "EnableSpeaker"@,
                "EnableMic"@,
                "Quality"@,
                "DtlsWaitTime"@,
                "call_id"@,
                "IceUrl"@,
                "IceUsername"@,
                "IcePassword"@,
            ],
        ),
        holds(
            JsonModel::Object(call::offer_members(compact, call_id, urls, usernames, passwords)),
            "WebrtcSdp"@,
            JsonModel::Text(compact),
        ),
        holds(
            JsonModel::Object(call::offer_members(compact, call_id, urls, usernames, passwords)),
            "Action"@,
            JsonModel::Int(2),
        ),
        holds(
            JsonModel::Object(call::offer_members(compact, call_id, urls, usernames, passwords)),
            "Timestamp"@,
            JsonModel::Int(0),
        ),
        holds(
            JsonModel::Object(call::offer_members(compact, call_id, urls, usernames, passwords)),
            "TrickleICE"@,
            JsonModel::Bool(false),
        ),
        holds(
            JsonModel::Object(call::offer_members(compact, call_id, urls, usernames, passwords)),
            "CodecMode"@,
            JsonModel::Int(1),
        ),
        holds(
            JsonModel::Object(call::offer_members(compact, call_id, urls, usernames, passwords)),
            "EnableSpeaker"@,
            JsonModel::Bool(false),
        ),
        holds(
            JsonModel::Object(call::offer_members(compact, call_id, urls, usernames, passwords)),
            "EnableMic"@,
            JsonModel::Bool(false),
        ),
        holds(
            JsonModel::Object(call::offer_members(compact, call_id, urls, usernames, passwords)),
            "Quality"@,
            JsonModel::Int(1),
        ),
        holds(
            JsonModel::Object(call::offer_members(compact, call_id, urls, usernames, passwords)),
            "DtlsWaitTime"@,
            JsonModel::Int(5000),
        ),
        holds(
            JsonModel::Object(call::offer_members(compact, call_id, urls, usernames, passwords)),
            "call_id"@,
            JsonModel::Text(call_id),
        ),
        holds(
            JsonModel::Object(call::offer_members(compact, call_id, urls, usernames, passwords)),
            "IceUrl"@,
            JsonModel::Array(text_models(urls)),
        ),
        holds(
            JsonModel::Object(call::offer_members(compact, call_id, urls, usernames, passwords)),
            "IceUsername"@,
            JsonModel::Array(text_models(usernames)),
        ),
        holds(
            JsonModel::Object(call::offer_members(compact, call_id, urls, usernames, passwords)),
            "IcePassword"@,
            JsonModel::Array(text_models(passwords)),
        ),
{
    reveal_strlit("WebrtcSdp");
    reveal_strlit("Action");
    reveal_strlit("Timestamp");
    reveal_strlit("TrickleICE");
    reveal_strlit("CodecMode");
    reveal_strlit("EnableSpeaker");
    reveal_strlit("EnableMic");
    reveal_strlit("Quality");
    reveal_strlit("DtlsWaitTime");
    reveal_strlit("call_id");
    reveal_strlit("IceUrl");
    reveal_strlit("IceUsername");
    reveal_strlit("IcePassword");
    assert("WebrtcSdp"@.len() == 9 && "WebrtcSdp"@[0] == 'W' && "WebrtcSdp"@[1] == 'e'
        && "WebrtcSdp"@[2] == 'b');
    assert("WebrtcSdp"@[3] == 'r' && "WebrtcSdp"@[4] == 't' && "WebrtcSdp"@[5] == 'c'
        && "WebrtcSdp"@[6] == 'S');
    assert("WebrtcSdp"@[7] == 'd' && "WebrtcSdp"@[8] == 'p');
    assert("Action"@.len() == 6 && "Action"@[0] == 'A' && "Action"@[1] == 'c'
        && "Action"@[2] == 't');
    assert("Action"@[3] == 'i' && "Action"@[4] == 'o' && "Action"@[5] == 'n');
    assert("Timestamp"@.len() == 9 && "Timestamp"@[0] == 'T' && "Timestamp"@[1] == 'i'
        && "Timestamp"@[2] == 'm');
    assert("Timestamp"@[3] == 'e' && "Timestamp"@[4] == 's' && "Timestamp"@[5] == 't'
        && "Timestamp"@[6] == 'a');
    assert("Timestamp"@[7] == 'm' && "Timestamp"@[8] == 'p');
    assert("TrickleICE"@.len() == 10 && "TrickleICE"@[0] == 'T' && "TrickleICE"@[1] == 'r'
        && "TrickleICE"@[2] == 'i');
    assert("TrickleICE"@[3] == 'c' && "TrickleICE"@[4] == 'k' && "TrickleICE"@[5] == 'l'
        && "TrickleICE"@[6] == 'e');
    assert("TrickleICE"@[7] == 'I' && "TrickleICE"@[8] == 'C' && "TrickleICE"@[9] == 'E');
    assert("CodecMode"@.len() == 9 && "CodecMode"@[0] == 'C' && "CodecMode"@[1] == 'o'
        && "CodecMode"@[2] == 'd');
    assert("CodecMode"@[3] == 'e' && "CodecMode"@[4] == 'c' && "CodecMode"@[5] == 'M'
        && "CodecMode"@[6] == 'o');
    assert("CodecMode"@[7] == 'd' && "CodecMode"@[8] == 'e');
    assert("EnableSpeaker"@.len() == 13 && "EnableSpeaker"@[0] == 'E' && "EnableSpeaker"@[1] == 'n'
        && "EnableSpeaker"@[2] == 'a');
    assert("EnableSpeaker"@[3] == 'b' && "EnableSpeaker"@[4] == 'l' && "EnableSpeaker"@[5] == 'e'
        && "EnableSpeaker"@[6] == 'S');
    assert("EnableSpeaker"@[7] == 'p' && "EnableSpeaker"@[8] == 'e' && "EnableSpeaker"@[9] == 'a'
        && "EnableSpeaker"@[10] == 'k');
    assert("EnableSpeaker"@[11] == 'e' && "EnableSpeaker"@[12] == 'r');
    assert("EnableMic"@.len() == 9 && "EnableMic"@[0] == 'E' && "EnableMic"@[1] == 'n'
        && "EnableMic"@[2] == 'a');
    assert("EnableMic"@[3] == 'b' && "EnableMic"@[4] == 'l' && "EnableMic"@[5] == 'e'
        && "EnableMic"@[6] == 'M');
    assert("EnableMic"@[7] == 'i' && "EnableMic"@[8] == 'c');
    assert("Quality"@.len() == 7 && "Quality"@[0] == 'Q' && "Quality"@[1] == 'u'
        && "Quality"@[2] == 'a');
    assert("Quality"@[3] == 'l' && "Quality"@[4] == 'i' && "Quality"@[5] == 't'
        && "Quality"@[6] == 'y');
    assert("DtlsWaitTime"@.len() == 12 && "DtlsWaitTime"@[0] == 'D' && "DtlsWaitTime"@[1] == 't'
        && "DtlsWaitTime"@[2] == 'l');
    assert("DtlsWaitTime"@[3] == 's' && "DtlsWaitTime"@[4] == 'W' && "DtlsWaitTime"@[5] == 'a'
        && "DtlsWaitTime"@[6] == 'i');
    assert("DtlsWaitTime"@[7] == 't' && "DtlsWaitTime"@[8] == 'T' && "DtlsWaitTime"@[9] == 'i'
        && "DtlsWaitTime"@[10] == 'm');
    assert("DtlsWaitTime"@[11] == 'e');
    assert("call_id"@.len() == 7 && "call_id"@[0] == 'c' && "call_id"@[1] == 'a'
        && "call_id"@[2] == 'l');
    assert("call_id"@[3] == 'l' && "call_id"@[4] == '_' && "call_id"@[5] == 'i'
        && "call_id"@[6] == 'd');
    assert("IceUrl"@.len() == 6 && "IceUrl"@[0] == 'I' && "IceUrl"@[1] == 'c'
        && "IceUrl"@[2] == 'e');
    assert("IceUrl"@[3] == 'U' && "IceUrl"@[4] == 'r' && "IceUrl"@[5] == 'l');
    assert("IceUsername"@.len() == 11 && "IceUsername"@[0] == 'I' && "IceUsername"@[1] == 'c'
        && "IceUsername"@[2] == 'e');
    assert("IceUsername"@[3] == 'U' && "IceUsername"@[4] == 's' && "IceUsername"@[5] == 'e'
        && "IceUsername"@[6] == 'r');
    assert("IceUsername"@[7] == 'n' && "IceUsername"@[8] == 'a' && "IceUsername"@[9] == 'm'
        && "IceUsername"@[10] == 'e');
    assert("IcePassword"@.len() == 11 && "IcePassword"@[0] == 'I' && "IcePassword"@[1] == 'c'
        && "IcePassword"@[2] == 'e');
    assert("IcePassword"@[3] == 'P' && "IcePassword"@[4] == 'a' && "IcePassword"@[5] == 's'
        && "IcePassword"@[6] == 's');
    assert("IcePassword"@[7] == 'w' && "IcePassword"@[8] == 'o' && "IcePassword"@[9] == 'r'
        && "IcePassword"@[10] == 'd');
    assert(JsonModel::Object(call::offer_members(compact, call_id, urls, usernames, passwords))->Object_0.dom() =~= set![
        "WebrtcSdp"@,
        "Action"@,
        "Timestamp"@,
        "TrickleICE"@,
        "CodecMode"@,
        "EnableSpeaker"@,
        "EnableMic"@,
        "Quality"@,
        "DtlsWaitTime"@,
        "call_id"@,
        "IceUrl"@,
        "IceUsername"@,
        "IcePassword"@,
    ]);
}

/// A message comes from a camera exactly where it carries its identifier, whole.
pub proof fn law_sender(event: Incoming, uuid: Seq<char>)
    ensures
        event.uuid is None ==> !call::comes_from(event, uuid),
        event.uuid matches Some(id) ==> (call::comes_from(event, uuid) <==> id@ == uuid),
{
}

/// The text of a member is the whole text that stands there; there is none where there is no
/// member, or one that is no text.
pub proof fn law_text_member(data: Json, name: Seq<char>)
    ensures
        data.member(name) is None ==> call::text_member(data, name) is None,
        data.member(name) matches Some(v) ==> match v {
            Json::Text(t) => call::text_member(data, name) == Some(t@),
            _ => call::text_member(data, name) is None,
        },
{
}

/// A candidate is the whole text that the camera's own message gives; any other message gives
/// none.
pub proof fn law_candidate(event: Incoming, uuid: Seq<char>)
    ensures
        event.method@ == "event.IceCandidate"@ && call::comes_from(event, uuid)
            ==> call::candidate_in(event, uuid) == call::text_member(
            event.data,
            "WebrtcCandidate"@,
        ),
        event.method@ != "event.IceCandidate"@ || !call::comes_from(event, uuid)
            ==> call::candidate_in(event, uuid) is None,
{
}

/// The code of an answer is the integer that stands there, and 0 where none does.
pub proof fn law_answer_code(data: Json)
    ensures
        data.member("Ret"@) is None ==> call::ret_of(data) == 0,
        data.member("Ret"@) matches Some(v) ==> match v.int_of() {
            Some(n) => call::ret_of(data) == n,
            None => call::ret_of(data) == 0,
        },
{
}

/// The waiting ends with the camera's own answer: it is handed on whole where its code is 0 and it
/// holds a description, and refused with its code otherwise; or with the connection, or the time.
/// Whatever else comes, the waiting goes on.
pub proof fn law_answer_steps(uuid: Seq<char>, event: AnswerEvent, step: AnswerStep)
    requires
        call::follows(uuid, event, step),
    ensures
        step matches AnswerStep::Answer(t) ==> (event matches AnswerEvent::Message(m)
            && call::comes_from(m, uuid) && m.method@ == "response.SdpAnswer"@ && call::ret_of(
            m.data,
        ) == 0 && call::text_member(m.data, "WebrtcSdp"@) == Some(t@)),
        step matches AnswerStep::Fail(AnswerError::Rejected(code)) ==> code != 0 && (
        event matches AnswerEvent::Message(m) && call::comes_from(m, uuid) && m.method@
            == "response.SdpAnswer"@ && call::ret_of(m.data) == code),
        step matches AnswerStep::Fail(AnswerError::MissingSdp) ==> (event matches
            AnswerEvent::Message(m) && call::comes_from(m, uuid) && m.method@
            == "response.SdpAnswer"@ && call::ret_of(m.data) == 0 && call::text_member(
            m.data,
            "WebrtcSdp"@,
        ) is None),
        step == AnswerStep::Fail(AnswerError::Closed) <==> event is Closed,
        step == AnswerStep::Fail(AnswerError::TimedOut) <==> event is TimedOut,
        step is Wait ==> (event matches AnswerEvent::Message(m) && !(call::comes_from(m, uuid)
            && m.method@ == "response.SdpAnswer"@)),
{
}

/// What is noted is the candidate that a message gives, and nothing else.
pub proof fn law_noted(uuid: Seq<char>, event: AnswerEvent)
    ensures
        match event {
            AnswerEvent::Message(m) => match call::candidate_in(m, uuid) {
                Some(c) => call::noted(uuid, event).len() == 1 && call::noted(uuid, event)[0] == c,
                None => call::noted(uuid, event).len() == 0,
            },
            _ => call::noted(uuid, event).len() == 0,
        },
{
}

/// A refusal is told with its whole code.
pub proof fn law_refusal_message(code: i64)
    ensures
        AnswerError::Rejected(code).message_text() == "camera rejected offer with Ret="@
            + text::signed_decimal(code as int),
{
}

// ---------------------------------------------------------------------------
// Servers
// ---------------------------------------------------------------------------

/// A text that may be absent is taken whole where it is there.
pub proof fn law_or_empty(t: String)
    ensures
        ice::or_empty(Some(t)) == t@,
        ice::or_empty(None).len() == 0,
{
}

/// The usable servers of two lists are those of the one and then those of the other; a server
/// alone is usable exactly where it has an address.
pub proof fn law_usable_order(a: Seq<Ice>, b: Seq<Ice>, server: Ice)
    ensures
        ice::usable(a + b) == ice::usable(a) + ice::usable(b),
        server.iceurl@.len() > 0 ==> ice::usable(seq![server]) == seq![server],
        server.iceurl@.len() == 0 ==> ice::usable(seq![server]).len() == 0,
    decreases b.len(),
{
    assert(seq![server].drop_last() =~= Seq::empty());
    assert(ice::usable(seq![server].drop_last()) =~= Seq::empty());
    assert(Seq::empty().push(server) =~= seq![server]);
    if b.len() == 0 {
        assert(a + b =~= a);
        assert(ice::usable(a) + ice::usable(b) =~= ice::usable(a));
    } else {
        law_usable_order(a, b.drop_last(), server);
        assert((a + b).drop_last() =~= a + b.drop_last());
        assert(ice::usable(a + b) =~= ice::usable(a) + ice::usable(b));
    }
}

/// The address that this side uses: where the number address is known and the address has a
/// scheme, the scheme, that number address and what follows the last colon, each whole; otherwise
/// the address as it is.
pub proof fn law_server_address(server: Ice)
    ensures
        ice::server_model(server).urls == seq![ice::server_url(server)],
        ice::server_model(server).username == ice::or_empty(server.username),
        ice::server_model(server).credential == ice::or_empty(server.password),
        server.iceurl_ip is None ==> ice::server_url(server) == server.iceurl@,
        text::parted(server.iceurl@, ":"@) is None ==> ice::server_url(server) == server.iceurl@,
        server.iceurl_ip matches Some(ip) ==> (text::parted(server.iceurl@, ":"@) matches Some(p)
            ==> ice::server_url(server) == p.0 + ":"@ + ip@ + ":"@ + text::after_last(p.1, ':')),
{
}

/// The address that the camera is given is the whole address; behind that of a relay, and of no
/// other, the camera is told to use UDP.
pub proof fn law_camera_address(server: Ice)
    ensures
        server.iceurl@.is_prefix_of(ice::device_url(server)),
        "turn:"@.is_prefix_of(server.iceurl@) ==> ice::device_url(server).skip(
            server.iceurl@.len() as int,
        ) == "?transport=udp"@,
        !"turn:"@.is_prefix_of(server.iceurl@) ==> ice::device_url(server) == server.iceurl@,
{
    let u = server.iceurl@;
    let p = "turn:"@;
    if p.len() <= u.len() {
        assert(u.take(p.len() as int) =~= u.subrange(0, p.len() as int));
    }
    assert(u =~= ice::device_url(server).take(u.len() as int));
    if text::occurs_at(u, p, 0) {
        assert(ice::device_url(server).skip(u.len() as int) =~= "?transport=udp"@);
    }
}

} // verus!
