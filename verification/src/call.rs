//! A call with a camera: the messages that are sent, and the way to the camera's answer.

use vstd::prelude::*;
use vstd::string::*;

use crate::ice::or_empty;
use crate::ice::text_or_empty;
use crate::json::text_models;
use crate::json::Json;
use crate::json::JsonModel;
use crate::sdp;
use crate::text;
use crate::util;
use crate::ws::Incoming;
use crate::ws::Message;

verus! {

// ---------------------------------------------------------------------------
// Messages
// ---------------------------------------------------------------------------

/// The number of a call that comes of a number drawn at random: one of sixteen digits.
pub open spec fn call_number(drawn: u64) -> nat {
    (1_000_000_000_000_000 + drawn % 999_999_999_999_999) as nat
}

/// The number of a call that comes of a number drawn at random.
pub fn call_id_of(drawn: u64) -> (r: String)
    ensures
        r@ == text::decimal(call_number(drawn)),
{
    text::decimal_text(1_000_000_000_000_000 + drawn % 999_999_999_999_999)
}

/// The number of a new call, drawn at random.
pub fn new_call_id() -> (r: String)
    ensures
        exists|drawn: u64| r@ == text::decimal(#[trigger] call_number(drawn)),
{
    let drawn: u64 = util::random_u64();
    call_id_of(drawn)
}

/// The data of the message that turns a stream on and keeps it alive.
pub open spec fn switch_model(session_id: Seq<char>, call_id: Seq<char>) -> JsonModel {
    JsonModel::Object(
        map![
            "Action"@ => JsonModel::Int(0),
            "Timestamp"@ => JsonModel::Int(0),
            "Quality"@ => JsonModel::Int(2),
            "SessionId"@ => JsonModel::Text(session_id),
            "call_id"@ => JsonModel::Text(call_id),
        ],
    )
}

/// The message that turns a stream on and keeps it alive.
pub fn switch_message(session_id: &Option<String>, call_id: &str) -> (r: Message)
    ensures
        r.method@ == "service.Switch"@,
        r.data@ == switch_model(or_empty(*session_id), call_id@),
{
    let data = Json::object()
        .with("Action", Json::Int(0))
        .with("Timestamp", Json::Int(0))
        .with("Quality", Json::Int(2))
        .with("SessionId", Json::Text(text_or_empty(session_id)))
        .with("call_id", Json::text(call_id));
    Message { method: "service.Switch", data }
}

/// The message that gives the camera a candidate of this side.
pub fn candidate_message(candidate: &str) -> (r: Message)
    ensures
        r.method@ == "service.IceCandidate"@,
        r.data@ == JsonModel::Object(
            map![
                "WebrtcCandidate"@ => JsonModel::Text(candidate@),
                "WebrtcSdpMLineIndex"@ => JsonModel::Int(0),
                "WebrtcSdpMid"@ => JsonModel::Text(""@),
            ],
        ),
{
    let data = Json::object()
        .with("WebrtcCandidate", Json::text(candidate))
        .with("WebrtcSdpMLineIndex", Json::Int(0))
        .with("WebrtcSdpMid", Json::text(""));
    Message { method: "service.IceCandidate", data }
}

/// The members of the message that carries an offer to the camera, but for the session.
pub open spec fn offer_members(
    compact: Seq<char>,
    call_id: Seq<char>,
    urls: Seq<String>,
    usernames: Seq<String>,
    passwords: Seq<String>,
) -> Map<Seq<char>, JsonModel> {
    map![
        "WebrtcSdp"@ => JsonModel::Text(compact),
        "Action"@ => JsonModel::Int(2),
        "Timestamp"@ => JsonModel::Int(0),
        "TrickleICE"@ => JsonModel::Bool(false),
        "CodecMode"@ => JsonModel::Int(1),
        "EnableSpeaker"@ => JsonModel::Bool(false),
        "EnableMic"@ => JsonModel::Bool(false),
        "Quality"@ => JsonModel::Int(1),
        "DtlsWaitTime"@ => JsonModel::Int(5000),
        "call_id"@ => JsonModel::Text(call_id),
        "IceUrl"@ => JsonModel::Array(text_models(urls)),
        "IceUsername"@ => JsonModel::Array(text_models(usernames)),
        "IcePassword"@ => JsonModel::Array(text_models(passwords)),
    ]
}

/// The message that carries an offer to the camera. It names the session where there
/// is one.
pub fn offer_message(
    compact: &str,
    call_id: &str,
    urls: &Vec<String>,
    usernames: &Vec<String>,
    passwords: &Vec<String>,
    session_id: &Option<String>,
) -> (r: Message)
    ensures
        r.method@ == "service.SdpOffer"@,
        r.data@ == JsonModel::Object(
            match *session_id {
                Some(id) => offer_members(
                    compact@,
                    call_id@,
                    urls@,
                    usernames@,
                    passwords@,
                ).insert("SessionId"@, JsonModel::Text(id@)),
                None => offer_members(compact@, call_id@, urls@, usernames@, passwords@),
            },
        ),
{
    let data = Json::object()
        .with("WebrtcSdp", Json::text(compact))
        .with("Action", Json::Int(2))
        .with("Timestamp", Json::Int(0))
        .with("TrickleICE", Json::Bool(false))
        .with("CodecMode", Json::Int(1))
        .with("EnableSpeaker", Json::Bool(false))
        .with("EnableMic", Json::Bool(false))
        .with("Quality", Json::Int(1))
        .with("DtlsWaitTime", Json::Int(5000))
        .with("call_id", Json::text(call_id))
        .with("IceUrl", Json::texts(urls))
        .with("IceUsername", Json::texts(usernames))
        .with("IcePassword", Json::texts(passwords));
    let data = match session_id {
        Some(id) => data.with("SessionId", Json::text(id.as_str())),
        None => data,
    };
    Message { method: "service.SdpOffer", data }
}

/// A codec that this side takes.
pub struct Codec {
    pub mime_type: &'static str,
    pub clock_rate: u32,
    pub channels: u16,
    pub payload_type: u8,
    /// The kinds of feedback that this side gives.
    pub feedback: Vec<String>,
}

/// The codec of the video stream.
pub fn video_codec() -> (r: Codec)
    ensures
        r.mime_type@ == "video/H265"@,
        r.clock_rate == sdp::VIDEO_CLOCK_RATE,
        r.channels == 0,
        r.payload_type == sdp::VIDEO_PT,
        text::texts(r.feedback@) == seq!["nack"@],
{
    let mut feedback: Vec<String> = Vec::new();
    text::push_text(&mut feedback, "nack".to_owned());
    assert(text::texts(feedback@) =~= seq!["nack"@]);
    Codec {
        mime_type: "video/H265",
        clock_rate: sdp::VIDEO_CLOCK_RATE,
        channels: 0,
        payload_type: sdp::VIDEO_PT,
        feedback,
    }
}

/// The codec of the audio stream.
pub fn audio_codec() -> (r: Codec)
    ensures
        r.mime_type@ == "audio/AAC"@,
        r.clock_rate == sdp::AUDIO_CLOCK_RATE,
        r.channels == 1,
        r.payload_type == sdp::AUDIO_PT,
        r.feedback@.len() == 0,
{
    Codec {
        mime_type: "audio/AAC",
        clock_rate: sdp::AUDIO_CLOCK_RATE,
        channels: 1,
        payload_type: sdp::AUDIO_PT,
        feedback: Vec::new(),
    }
}

// ---------------------------------------------------------------------------
// The answer
// ---------------------------------------------------------------------------

/// The message comes from the camera `uuid`.
pub open spec fn comes_from(event: Incoming, uuid: Seq<char>) -> bool {
    event.uuid matches Some(id) && id@ == uuid
}

/// Whether a message comes from the camera `uuid`.
pub fn is_from(event: &Incoming, uuid: &str) -> (r: bool)
    ensures
        r == comes_from(*event, uuid@),
{
    match &event.uuid {
        Some(id) => text::same(id.as_str(), uuid),
        None => false,
    }
}

/// The text of a member of the data of a message.
pub open spec fn text_member(data: Json, name: Seq<char>) -> Option<Seq<char>> {
    match data.member(name) {
        Some(v) => v.text_of(),
        None => None,
    }
}

/// The text of a member of the data of a message.
fn member_text(data: &Json, name: &str) -> (r: Option<String>)
    ensures
        match r {
            Some(t) => text_member(*data, name@) == Some(t@),
            None => text_member(*data, name@) is None,
        },
{
    match data.get(name) {
        Some(v) => match v.as_text() {
            Some(t) => Some(t.to_owned()),
            None => None,
        },
        None => None,
    }
}

/// The candidate of the camera `uuid` that a message gives.
pub open spec fn candidate_in(event: Incoming, uuid: Seq<char>) -> Option<Seq<char>> {
    if event.method@ == "event.IceCandidate"@ && comes_from(event, uuid) {
        text_member(event.data, "WebrtcCandidate"@)
    } else {
        None
    }
}

/// The candidate of the camera `uuid` that a message gives.
pub fn remote_candidate(event: &Incoming, uuid: &str) -> (r: Option<String>)
    ensures
        match r {
            Some(c) => candidate_in(*event, uuid@) == Some(c@),
            None => candidate_in(*event, uuid@) is None,
        },
{
    if text::same(event.method.as_str(), "event.IceCandidate") && is_from(event, uuid) {
        member_text(&event.data, "WebrtcCandidate")
    } else {
        None
    }
}

/// Why there is no answer.
#[derive(Clone, Copy, PartialEq, Eq, Debug, Structural)]
pub enum AnswerError {
    /// The camera refused, with this code.
    Rejected(i64),
    /// The answer holds no description.
    MissingSdp,
    /// The signaling connection closed.
    Closed,
    TimedOut,
}

impl AnswerError {
    /// The message of the error.
    pub open spec fn message_text(self) -> Seq<char> {
        match self {
            AnswerError::Rejected(ret) => "camera rejected offer with Ret="@
                + text::signed_decimal(ret as int),
            AnswerError::MissingSdp => "sdp answer missing WebrtcSdp"@,
            AnswerError::Closed => "websocket closed"@,
            AnswerError::TimedOut => "timed out waiting for sdp answer"@,
        }
    }

    /// The message of the error.
    pub fn message(&self) -> (r: String)
        ensures
            r@ == self.message_text(),
    {
        match self {
            AnswerError::Rejected(ret) => text::cat(
                "camera rejected offer with Ret=",
                text::signed_text(*ret).as_str(),
            ),
            AnswerError::MissingSdp => "sdp answer missing WebrtcSdp".to_owned(),
            AnswerError::Closed => "websocket closed".to_owned(),
            AnswerError::TimedOut => "timed out waiting for sdp answer".to_owned(),
        }
    }
}

/// What happens while the answer is awaited.
#[derive(Debug)]
pub enum AnswerEvent {
    Message(Incoming),
    Closed,
    TimedOut,
}

/// What follows while the answer is awaited.
#[derive(Debug)]
pub enum AnswerStep {
    /// Wait on.
    Wait,
    /// This is the compact answer.
    Answer(String),
    Fail(AnswerError),
}

/// How long the answer of a camera is awaited, in seconds.
pub const ANSWER_SECS: u64 = 15;

/// The code of an answer: 0 where it gives none.
pub open spec fn ret_of(data: Json) -> i64 {
    match data.member("Ret"@) {
        Some(v) => match v.int_of() {
            Some(n) => n,
            None => 0,
        },
        None => 0,
    }
}

/// What follows from a message while the answer of the camera `uuid` is awaited.
pub open spec fn follows(uuid: Seq<char>, event: AnswerEvent, step: AnswerStep) -> bool {
    match event {
        AnswerEvent::Closed => step == AnswerStep::Fail(AnswerError::Closed),
        AnswerEvent::TimedOut => step == AnswerStep::Fail(AnswerError::TimedOut),
        AnswerEvent::Message(m) => if !(comes_from(m, uuid) && m.method@
            == "response.SdpAnswer"@) {
            step == AnswerStep::Wait
        } else if ret_of(m.data) != 0 {
            step == AnswerStep::Fail(AnswerError::Rejected(ret_of(m.data)))
        } else {
            match text_member(m.data, "WebrtcSdp"@) {
                Some(t) => step matches AnswerStep::Answer(a) && a@ == t,
                None => step == AnswerStep::Fail(AnswerError::MissingSdp),
            }
        },
    }
}

/// The candidate that an event gives, as a list of none or one.
pub open spec fn noted(uuid: Seq<char>, event: AnswerEvent) -> Seq<Seq<char>> {
    match event {
        AnswerEvent::Message(m) => match candidate_in(m, uuid) {
            Some(c) => seq![c],
            None => Seq::empty(),
        },
        _ => Seq::empty(),
    }
}

/// Waits for the answer of a camera, and keeps the candidates that arrive before it.
pub struct Negotiation {
    pub uuid: String,
    /// The candidates that arrived, in order.
    pub pending: Vec<String>,
}

impl Negotiation {
    /// No candidate has arrived yet.
    pub fn new(uuid: &str) -> (r: Negotiation)
        ensures
            r.uuid@ == uuid@,
            r.pending@.len() == 0,
    {
        Negotiation { uuid: uuid.to_owned(), pending: Vec::new() }
    }

    /// Takes an event, and gives what follows.
    pub fn step(&mut self, event: AnswerEvent) -> (r: AnswerStep)
        ensures
            follows(old(self).uuid@, event, r),
            final(self).uuid == old(self).uuid,
            text::texts(final(self).pending@) == text::texts(old(self).pending@) + noted(
                old(self).uuid@,
                event,
            ),
    {
        let ghost before = text::texts(self.pending@);
        assert(before + Seq::empty() =~= before);
        let m = match event {
            AnswerEvent::Closed => {
                return AnswerStep::Fail(AnswerError::Closed);
            },
            AnswerEvent::TimedOut => {
                return AnswerStep::Fail(AnswerError::TimedOut);
            },
            AnswerEvent::Message(m) => m,
        };
        if let Some(c) = remote_candidate(&m, self.uuid.as_str()) {
            text::push_text(&mut self.pending, c);
            assert(text::texts(self.pending@) =~= before + noted(old(self).uuid@, event));
        }
        if !is_from(&m, self.uuid.as_str()) || !text::same(
            m.method.as_str(),
            "response.SdpAnswer",
        ) {
            return AnswerStep::Wait;
        }
        let ret: i64 = match m.data.get("Ret") {
            Some(v) => match v.as_int() {
                Some(n) => n,
                None => 0,
            },
            None => 0,
        };
        if ret != 0 {
            return AnswerStep::Fail(AnswerError::Rejected(ret));
        }
        match member_text(&m.data, "WebrtcSdp") {
            Some(t) => AnswerStep::Answer(t),
            None => AnswerStep::Fail(AnswerError::MissingSdp),
        }
    }
}

// ---------------------------------------------------------------------------
// Laws
// ---------------------------------------------------------------------------

/// A numeral without leading zeros has as many digits as the power of ten below its number says.
proof fn lemma_decimal_len(n: nat, k: nat)
    requires
        k >= 1,
        vstd::arithmetic::power::pow(10, (k - 1) as nat) <= n < vstd::arithmetic::power::pow(10, k),
        k >= 2 || n < 10,
    ensures
        text::decimal(n).len() == k,
    decreases k,
{
    vstd::arithmetic::power::lemma_pow1(10);
    vstd::arithmetic::power::lemma_pow0(10);
    if k == 1 {
    } else {
        let a = vstd::arithmetic::power::pow(10, (k - 1) as nat);
        let b = vstd::arithmetic::power::pow(10, (k - 2) as nat);
        assert(a == 10 * b) by {
            reveal(vstd::arithmetic::power::pow);
        }
        assert(vstd::arithmetic::power::pow(10, k) == 10 * a) by {
            reveal(vstd::arithmetic::power::pow);
        }
        vstd::arithmetic::power::lemma_pow_positive(10, (k - 2) as nat);
        assert(n >= 10);
        assert(b <= n / 10 < a);
        lemma_decimal_len(n / 10, (k - 1) as nat);
    }
}

/// The number of a call always has sixteen digits.
pub proof fn law_call_id_digits(drawn: u64)
    ensures
        text::decimal(call_number(drawn)).len() == 16,
{
    reveal_with_fuel(vstd::arithmetic::power::pow, 17);
    assert(vstd::arithmetic::power::pow(10, 15) == 1_000_000_000_000_000);
    assert(vstd::arithmetic::power::pow(10, 16) == 10_000_000_000_000_000);
    lemma_decimal_len(call_number(drawn), 16);
}

/// A message of another camera changes nothing and is never taken for the answer.
pub proof fn law_other_camera(uuid: Seq<char>, m: Incoming, step: AnswerStep)
    requires
        !comes_from(m, uuid),
        follows(uuid, AnswerEvent::Message(m), step),
    ensures
        step == AnswerStep::Wait,
        noted(uuid, AnswerEvent::Message(m)).len() == 0,
{
}

/// A candidate is noted, and the waiting goes on.
pub proof fn law_candidate_waits(uuid: Seq<char>, m: Incoming, step: AnswerStep)
    requires
        candidate_in(m, uuid) is Some,
        follows(uuid, AnswerEvent::Message(m), step),
    ensures
        step == AnswerStep::Wait,
        noted(uuid, AnswerEvent::Message(m)) == seq![candidate_in(m, uuid).unwrap()],
{
    reveal_strlit("event.IceCandidate");
    reveal_strlit("response.SdpAnswer");
    assert("event.IceCandidate"@[0] != "response.SdpAnswer"@[0]);
}

} // verus!
