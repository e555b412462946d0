//! Signaling messages: their numbers, what is sent, and which message answers which.

use vstd::prelude::*;
use vstd::string::*;

use crate::json::Json;
use crate::json::JsonModel;
use crate::text;

verus! {

/// A message that came in.
#[derive(Debug)]
pub struct Incoming {
    pub method: String,
    pub msg_id: Option<String>,
    pub uuid: Option<String>,
    pub data: Json,
}

impl Clone for Incoming {
    fn clone(&self) -> (r: Incoming)
        ensures
            r.method == self.method,
            r.msg_id == self.msg_id,
            r.uuid == self.uuid,
            r.data@ == self.data@,
            self.data.alike(r.data),
    {
        Incoming {
            method: self.method.clone(),
            msg_id: self.msg_id.clone(),
            uuid: self.uuid.clone(),
            data: self.data.clone(),
        }
    }
}

/// A message that is to be sent: what it asks for, and its data.
#[derive(Debug)]
pub struct Message {
    pub method: &'static str,
    pub data: Json,
}

/// How often the connection is probed, in seconds.
pub const PING_SECS: u64 = 20;

/// How long an answer is awaited, in seconds.
pub const REPLY_SECS: u64 = 10;

/// The number of a message: the time, in seconds, and a count of at least four digits.
pub open spec fn id_text(now: u64, n: u64) -> Seq<char> {
    "rs-"@ + text::decimal(now as nat) + text::zero_padded(text::decimal(n as nat), 4)
}

/// The number of the message with the count `n` at the time `now`, in seconds.
pub fn message_id(now: u64, n: u64) -> (r: String)
    ensures
        r@ == id_text(now, n),
{
    let mut r = text::cat("rs-", text::decimal_text(now).as_str());
    let count = text::decimal_text(n);
    let digits: usize = text::chars_of(count.as_str()).len();
    let ghost head = r@;
    let mut width: usize = digits;
    while width < 4
        invariant
            digits == text::decimal(n as nat).len(),
            digits <= width,
            width <= 4 || width == digits,
            r@ == head + Seq::new((width - digits) as nat, |i: int| '0'),
        decreases 4 - width,
    {
        r.push('0');
        width += 1;
        assert(r@ =~= head + Seq::new((width - digits) as nat, |i: int| '0'));
    }
    r.append(count.as_str());
    assert(r@ =~= id_text(now, n));
    r
}

/// A message as it is sent.
pub open spec fn envelope_model(
    method: Seq<char>,
    msg_id: Seq<char>,
    now: u64,
    uuid: Seq<char>,
    model: Seq<char>,
    data: JsonModel,
) -> JsonModel {
    JsonModel::Object(
        map![
            "method"@ => JsonModel::Text(method),
            "msg_id"@ => JsonModel::Text(msg_id),
            "ver"@ => JsonModel::Text("1.0"@),
            "origin"@ => JsonModel::Int(1),
            "time"@ => JsonModel::Int(now as int),
            "uuid"@ => JsonModel::Text(uuid),
            "device_model"@ => JsonModel::Text(model),
            "data"@ => data,
        ],
    )
}

/// A message as it is sent to the camera `uuid`.
pub fn envelope(
    method: &str,
    msg_id: &str,
    now: u64,
    uuid: &str,
    model: &str,
    data: Json,
) -> (r: Json)
    ensures
        r@ == envelope_model(method@, msg_id@, now, uuid@, model@, data@),
{
    Json::object()
        .with("method", Json::text(method))
        .with("msg_id", Json::text(msg_id))
        .with("ver", Json::text("1.0"))
        .with("origin", Json::Int(1))
        .with("time", Json::UInt(now))
        .with("uuid", Json::text(uuid))
        .with("device_model", Json::text(model))
        .with("data", data)
}

/// A message with its number, as the text that is sent.
#[derive(Debug)]
pub struct Outgoing {
    pub msg_id: String,
    pub text: String,
}

/// Numbers the messages that are sent.
pub struct Ws {
    counter: u64,
}

impl Ws {
    /// The count of the next message.
    pub closed spec fn count(self) -> u64 {
        self.counter
    }

    /// No message was sent yet.
    pub fn new() -> (r: Ws)
        ensures
            r.count() == 0,
    {
        Ws { counter: 0 }
    }

    /// Numbers a message to the camera `uuid`, and writes it. `id_time` and `time` are the time, in
    /// seconds, when its number is made and when it is written.
    pub fn send(
        &mut self,
        message: Message,
        uuid: &str,
        model: &str,
        id_time: u64,
        time: u64,
    ) -> (r: Outgoing)
        ensures
            r.msg_id@ == id_text(id_time, old(self).count()),
            r.text@ == crate::json::json_text(
                envelope_model(
                    message.method@,
                    r.msg_id@,
                    time,
                    uuid@,
                    model@,
                    message.data@,
                ),
            ),
            final(self).count() == (if old(self).count() == u64::MAX {
                0
            } else {
                (old(self).count() + 1) as u64
            }),
    {
        let msg_id = message_id(id_time, self.counter);
        self.counter = self.counter.wrapping_add(1);
        let sent = envelope(message.method, msg_id.as_str(), time, uuid, model, message.data);
        Outgoing { msg_id, text: sent.to_text() }
    }
}

/// Why a message was not sent or not answered.
#[derive(Clone, Copy, PartialEq, Eq, Debug, Structural)]
pub enum WsError {
    Reconnecting,
    Sending,
    Closed,
    TimedOut,
}

impl WsError {
    /// The message of the error.
    pub open spec fn message_text(self) -> Seq<char> {
        match self {
            WsError::Reconnecting => "websocket is reconnecting"@,
            WsError::Sending => "sending on websocket"@,
            WsError::Closed => "websocket closed"@,
            WsError::TimedOut => "timed out waiting for reply"@,
        }
    }

    /// The message of the error.
    pub fn message(&self) -> (r: String)
        ensures
            r@ == self.message_text(),
    {
        let m: &str = match self {
            WsError::Reconnecting => "websocket is reconnecting",
            WsError::Sending => "sending on websocket",
            WsError::Closed => "websocket closed",
            WsError::TimedOut => "timed out waiting for reply",
        };
        m.to_owned()
    }
}

/// What became of a message that was to be sent.
#[derive(Clone, Copy, PartialEq, Eq, Debug, Structural)]
pub enum SendEvent {
    /// There was no connection.
    NoLink,
    /// It was written.
    Written,
    /// Writing it failed.
    Failed,
}

/// Whether a message was sent, and whether the connection is given up on that account.
pub fn send_outcome(event: SendEvent) -> (r: (Result<(), WsError>, bool))
    ensures
        r == (match event {
            SendEvent::NoLink => (Err::<(), WsError>(WsError::Reconnecting), false),
            SendEvent::Written => (Ok::<(), WsError>(()), false),
            SendEvent::Failed => (Err::<(), WsError>(WsError::Sending), true),
        }),
{
    match event {
        SendEvent::NoLink => (Err(WsError::Reconnecting), false),
        SendEvent::Written => (Ok(()), false),
        SendEvent::Failed => (Err(WsError::Sending), true),
    }
}

/// The message answers the one with the number `msg_id`.
pub open spec fn answers(event: Incoming, msg_id: Seq<char>) -> bool {
    event.msg_id matches Some(id) && id@ == msg_id
}

/// What happens while an answer is awaited.
#[derive(Debug)]
pub enum ReplyEvent {
    Message(Incoming),
    Closed,
    TimedOut,
}

/// What follows while an answer is awaited.
#[derive(Debug)]
pub enum ReplyStep {
    /// Wait on.
    Wait,
    /// This is the data of the answer.
    Answer(Json),
    Fail(WsError),
}

impl Ws {
    /// What follows from an event while the answer to the message `msg_id` is awaited.
    pub fn request(msg_id: &str, event: ReplyEvent) -> (r: ReplyStep)
        ensures
            r == (match event {
                ReplyEvent::Message(m) => if answers(m, msg_id@) {
                    ReplyStep::Answer(m.data)
                } else {
                    ReplyStep::Wait
                },
                ReplyEvent::Closed => ReplyStep::Fail(WsError::Closed),
                ReplyEvent::TimedOut => ReplyStep::Fail(WsError::TimedOut),
            }),
    {
        match event {
            ReplyEvent::Message(m) => {
                let answer = match &m.msg_id {
                    Some(id) => text::same(id.as_str(), msg_id),
                    None => false,
                };
                if answer {
                    ReplyStep::Answer(m.data)
                } else {
                    ReplyStep::Wait
                }
            },
            ReplyEvent::Closed => ReplyStep::Fail(WsError::Closed),
            ReplyEvent::TimedOut => ReplyStep::Fail(WsError::TimedOut),
        }
    }
}

// ---------------------------------------------------------------------------
// Reconnecting
// ---------------------------------------------------------------------------

/// How far a reconnection is.
#[derive(Clone, Copy, PartialEq, Eq, Debug, Structural)]
pub enum Reconnect {
    /// The connection is opened with the session that there is.
    Dialing,
    /// The account is logged in anew.
    LoggingIn,
    /// The connection is opened with the new session.
    DialingFresh,
    /// The connection is open, or not, and nothing more is tried.
    Over,
}

/// What to do next in a reconnection.
#[derive(Clone, Copy, PartialEq, Eq, Debug, Structural)]
pub enum ReconnectAction {
    /// Log the account in.
    Login,
    /// Open the connection with the new session.
    DialFresh,
    /// Stop. The new session takes the place of the old one where `keep_fresh` says so, and the
    /// connection is open where `connected` says so.
    Stop { keep_fresh: bool, connected: bool },
}

/// What follows after a step of a reconnection that went well or not.
pub open spec fn reconnect_next(state: Reconnect, ok: bool) -> (Reconnect, ReconnectAction) {
    match state {
        Reconnect::Dialing => if ok {
            (Reconnect::Over, ReconnectAction::Stop { keep_fresh: false, connected: true })
        } else {
            (Reconnect::LoggingIn, ReconnectAction::Login)
        },
        Reconnect::LoggingIn => if ok {
            (Reconnect::DialingFresh, ReconnectAction::DialFresh)
        } else {
            (Reconnect::Over, ReconnectAction::Stop { keep_fresh: false, connected: false })
        },
        Reconnect::DialingFresh => (
            Reconnect::Over,
            ReconnectAction::Stop { keep_fresh: true, connected: ok },
        ),
        Reconnect::Over => (
            Reconnect::Over,
            ReconnectAction::Stop { keep_fresh: false, connected: false },
        ),
    }
}

impl Reconnect {
    /// A reconnection begins with opening the connection with the session that there is.
    pub fn start() -> (r: Reconnect)
        ensures
            r == Reconnect::Dialing,
    {
        Reconnect::Dialing
    }

    /// Takes how the step went, and gives what to do next.
    pub fn next(&mut self, ok: bool) -> (r: ReconnectAction)
        ensures
            (*final(self), r) == reconnect_next(*old(self), ok),
    {
        match *self {
            Reconnect::Dialing => {
                if ok {
                    *self = Reconnect::Over;
                    ReconnectAction::Stop { keep_fresh: false, connected: true }
                } else {
                    *self = Reconnect::LoggingIn;
                    ReconnectAction::Login
                }
            },
            Reconnect::LoggingIn => {
                if ok {
                    *self = Reconnect::DialingFresh;
                    ReconnectAction::DialFresh
                } else {
                    *self = Reconnect::Over;
                    ReconnectAction::Stop { keep_fresh: false, connected: false }
                }
            },
            Reconnect::DialingFresh => {
                *self = Reconnect::Over;
                ReconnectAction::Stop { keep_fresh: true, connected: ok }
            },
            Reconnect::Over => {
                ReconnectAction::Stop { keep_fresh: false, connected: false }
            },
        }
    }
}

/// The last action of a reconnection whose steps go as `first`, `login` and `second` say.
pub open spec fn reconnect_end(first: bool, login: bool, second: bool) -> ReconnectAction {
    let (s1, a1) = reconnect_next(Reconnect::Dialing, first);
    if a1 is Stop {
        a1
    } else {
        let (s2, a2) = reconnect_next(s1, login);
        if a2 is Stop {
            a2
        } else {
            reconnect_next(s2, second).1
        }
    }
}

/// A reconnection stops after three steps at most; it is connected exactly if the last dial went
/// well; and a new session is kept exactly if the old one failed and the login went well, even
/// where the connection could not be opened with it.
pub proof fn law_reconnect(first: bool, login: bool, second: bool)
    ensures
        reconnect_end(first, login, second) == (ReconnectAction::Stop {
            keep_fresh: !first && login,
            connected: first || login && second,
        }),
{
}

// ---------------------------------------------------------------------------
// Laws
// ---------------------------------------------------------------------------

/// Zeros before a numeral leave its value as it is.
proof fn lemma_zeros(s: Seq<char>, k: nat)
    ensures
        text::digits_value(Seq::new(k, |i: int| '0') + s) == text::digits_value(s),
    decreases k + s.len(),
{
    let z = Seq::new(k, |i: int| '0');
    if s.len() > 0 {
        lemma_zeros(s.drop_last(), k);
        assert((z + s).drop_last() =~= z + s.drop_last());
    } else if k > 0 {
        let y = Seq::new((k - 1) as nat, |i: int| '0');
        lemma_zeros(s, (k - 1) as nat);
        assert((z + s).drop_last() =~= y + s);
        assert((z + s).last() == '0');
    } else {
        assert(z + s =~= s);
    }
}

/// The padded numeral of a count still stands for the count.
pub(crate) proof fn lemma_padded_value(n: nat)
    ensures
        text::digits_value(text::zero_padded(text::decimal(n), 4)) == Some(n),
{
    text::lemma_digits_of_decimal(n);
    let d = text::decimal(n);
    if d.len() < 4 {
        lemma_zeros(d, (4 - d.len()) as nat);
    }
}

/// Two messages have different numbers, where their counts or their times differ and the
/// numerals of the times have the same length, as those of any two times in the years from 2002
/// to 2285 have.
pub proof fn law_ids_differ(now1: u64, n1: u64, now2: u64, n2: u64)
    requires
        (now1, n1) != (now2, n2),
        text::decimal(now1 as nat).len() == text::decimal(now2 as nat).len(),
    ensures
        id_text(now1, n1) != id_text(now2, n2),
{
    let t1 = text::decimal(now1 as nat);
    let t2 = text::decimal(now2 as nat);
    let c1 = text::zero_padded(text::decimal(n1 as nat), 4);
    let c2 = text::zero_padded(text::decimal(n2 as nat), 4);
    let p = "rs-"@;
    if id_text(now1, n1) == id_text(now2, n2) {
        let l = p.len() as int;
        let k = t1.len() as int;
        assert(id_text(now1, n1).subrange(l, l + k) =~= t1);
        assert(id_text(now2, n2).subrange(l, l + k) =~= t2);
        assert(id_text(now1, n1).skip(l + k) =~= c1);
        assert(id_text(now2, n2).skip(l + k) =~= c2);
        text::lemma_digits_of_decimal(now1 as nat);
        text::lemma_digits_of_decimal(now2 as nat);
        lemma_padded_value(n1 as nat);
        lemma_padded_value(n2 as nat);
        assert(false);
    }
}

} // verus!
