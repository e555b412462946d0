//! Laws on the account: digests, requests, replies, the login, and the signaling connection.

use vstd::prelude::*;
use vstd::string::*;
use vstd::utf8::encode_utf8;

use crate::auth;
use crate::auth::ApiError;
use crate::auth::Client;
use crate::auth::Device;
use crate::auth::Envelope;
use crate::auth::Session;
use crate::auth::SetAction;
use crate::auth::SetEvent;
use crate::auth::SetStage;
use crate::backoff;
use crate::json::has_names;
use crate::json::holds;
use crate::json::JsonModel;
use crate::text;
use crate::util;
use crate::ws;
use crate::ws::Incoming;
use crate::ws::Reconnect;
use crate::ws::ReconnectAction;

verus! {

// ---------------------------------------------------------------------------
// Digests
// ---------------------------------------------------------------------------

/// The number of a hexadecimal digit.
pub open spec fn hex_value(c: char) -> int {
    if '0' <= c <= '9' {
        c as int - '0' as int
    } else {
        c as int - 'a' as int + 10
    }
}

/// Every byte is written as two lower-case hexadecimal digits, from which it can be read again, in
/// the order of the bytes.
pub proof fn law_hex(b: Seq<u8>)
    ensures
        util::hex_text(b).len() == 2 * b.len(),
        forall|i: int|
            0 <= i < b.len() ==> {
                let high = util::hex_text(b)[2 * i];
                let low = util::hex_text(b)[2 * i + 1];
                &&& '0' <= high <= '9' || 'a' <= high <= 'f'
                &&& '0' <= low <= '9' || 'a' <= low <= 'f'
                &&& 16 * hex_value(high) + hex_value(low) == #[trigger] b[i]
            },
{
    assert forall|i: int| 0 <= i < b.len() implies ({
        let high = util::hex_text(b)[2 * i];
        let low = util::hex_text(b)[2 * i + 1];
        &&& '0' <= high <= '9' || 'a' <= high <= 'f'
        &&& '0' <= low <= '9' || 'a' <= low <= 'f'
        &&& 16 * hex_value(high) + hex_value(low) == #[trigger] b[i]
    }) by {
        assert((2 * i) / 2 == i && (2 * i) % 2 == 0);
        assert((2 * i + 1) / 2 == i && (2 * i + 1) % 2 == 1);
    }
}

/// The number of a character in base 64.
pub open spec fn base64_value(c: char) -> int {
    if 'A' <= c <= 'Z' {
        c as int - 'A' as int
    } else if 'a' <= c <= 'z' {
        c as int - 'a' as int + 26
    } else if '0' <= c <= '9' {
        c as int - '0' as int + 52
    } else if c == '+' {
        62
    } else {
        63
    }
}

proof fn lemma_base64_value(n: int)
    requires
        0 <= n < 64,
    ensures
        base64_value(util::base64_digit(n)) == n,
        util::base64_digit(n) != '=',
{
}

/// Three bytes are read again from the four numbers of six bits that they make.
proof fn lemma_sextets(x: u32, y: u32, z: u32)
    requires
        x < 256,
        y < 256,
        z < 256,
    ensures
        ({
            let bits = x * 65536 + y * 256 + z;
            &&& 0 <= bits / 262144 < 64
            &&& x == 4 * (bits / 262144) + (bits / 4096 % 64) / 16
            &&& y == 16 * ((bits / 4096 % 64) % 16) + (bits / 64 % 64) / 4
            &&& z == 64 * ((bits / 64 % 64) % 4) + bits % 64
        }),
{
    let bits: u32 = (x * 65536 + y * 256 + z) as u32;
    assert(bits == x * 65536 + y * 256 + z);
    assert(bits / 262144 < 64 && x == 4 * (bits / 262144) + (bits / 4096 % 64) / 16 && y == 16 * ((
    bits / 4096 % 64) % 16) + (bits / 64 % 64) / 4 && z == 64 * ((bits / 64 % 64) % 4) + bits % 64)
        by (bit_vector)
        requires
            bits == x * 65536 + y * 256 + z,
            x < 256,
            y < 256,
            z < 256,
    ;
}

/// The four characters that stand for three bytes.
proof fn lemma_base64_group(b: Seq<u8>, g: int, k: int)
    requires
        0 <= 3 * g < b.len(),
        0 <= k < 4,
    ensures
        4 * g + k < util::base64_text(b).len(),
        util::base64_text(b)[4 * g + k] == util::base64_char(b, 4 * g + k),
        (4 * g + k) / 4 == g,
        (4 * g + k) % 4 == k,
{
    assert(g < (b.len() + 2) / 3);
}

/// From the base 64 text every byte can be read again: three bytes from four characters.
pub proof fn law_base64(b: Seq<u8>, g: int)
    requires
        0 <= 3 * g < b.len(),
    ensures
        util::base64_text(b).len() == (b.len() + 2) / 3 * 4,
        ({
            let t = util::base64_text(b);
            let v = |k: int| base64_value(t[4 * g + k]);
            &&& b[3 * g] == 4 * v(0) + v(1) / 16
            &&& 3 * g + 1 < b.len() ==> b[3 * g + 1] == 16 * (v(1) % 16) + v(2) / 4
            &&& 3 * g + 2 < b.len() ==> b[3 * g + 2] == 64 * (v(2) % 4) + v(3)
            &&& 3 * g + 1 >= b.len() ==> t[4 * g + 2] == '='
            &&& 3 * g + 2 >= b.len() ==> t[4 * g + 3] == '='
        }),
{
    let x = util::byte_or_zero(b, 3 * g);
    let y = util::byte_or_zero(b, 3 * g + 1);
    let z = util::byte_or_zero(b, 3 * g + 2);
    let bits = x * 65536 + y * 256 + z;
    lemma_base64_group(b, g, 0);
    lemma_base64_group(b, g, 1);
    lemma_base64_group(b, g, 2);
    lemma_base64_group(b, g, 3);
    lemma_sextets(x as u32, y as u32, z as u32);
    lemma_base64_value(bits / 262144);
    lemma_base64_value(bits / 4096 % 64);
    lemma_base64_value(bits / 64 % 64);
    lemma_base64_value(bits % 64);
}

/// A text can stand in a header exactly where each of its characters can: a tab, or any that is
/// no control character.
pub proof fn law_legal_header(t: Seq<char>, c: char)
    ensures
        util::legal_header(Seq::empty()),
        util::legal_header(t.push(c)) <==> util::legal_header(t) && (c as int >= 32 && c as int
            != 127 || c == '\t'),
{
    let u = t.push(c);
    assert(u[t.len() as int] == c);
    assert(forall|i: int| 0 <= i < t.len() ==> #[trigger] t[i] == u[i]);
}

/// The digest is that of the whole text, and the signature covers the app, the time, the user and
/// the token, each whole, under the whole secret.
pub proof fn law_digests(
    t: Seq<char>,
    secret: Seq<char>,
    appid: Seq<char>,
    timestamp: Seq<char>,
    uid: Seq<char>,
    token: Seq<char>,
)
    ensures
        auth::md5_text(t) == util::hex_text(util::md5_of(encode_utf8(t))),
        ({
            let code = util::hmac_sha256_of(
                encode_utf8(secret),
                encode_utf8(appid + timestamp + uid + token),
            );
            auth::signature(secret, appid, timestamp, uid, token) == util::base64_text(
                encode_utf8(util::hex_text(code)),
            )
        }),
{
}

/// The name of the machine is the first of the two that is known, whole.
pub proof fn law_host_name(a: Seq<char>, b: Option<Seq<char>>)
    ensures
        auth::host_name(Some(a), b) == a,
        auth::host_name(None, Some(a)) == a,
        auth::host_name(None, None) == "osaio-proxy"@,
        auth::chars(None) is None,
        forall|t: &str| #[trigger] auth::chars(Some(t)) == Some(t@),
{
}

// ---------------------------------------------------------------------------
// Replies
// ---------------------------------------------------------------------------

/// Which error a reply has, and what it holds: the first thing that is wrong counts, and nothing
/// of what it tells is lost. A reply that is right in all has none.
pub proof fn law_reply_error<T>(
    status: u16,
    reason: Seq<char>,
    text: Seq<char>,
    parsed: Option<Envelope<T>>,
    path: Seq<char>,
    e: ApiError,
)
    requires
        auth::reply_error(status, reason, text, parsed, path, e),
    ensures
        e matches ApiError::Status { path: p, status: s, text: t } ==> (status < 200 || status
            >= 300) && p@ == path && s@ == reason && t@ == text,
        !(e is Status) ==> 200 <= status < 300,
        e matches ApiError::Decode { path: p, text: t } ==> parsed is None && p@ == path && t@
            == text,
        e matches ApiError::Refused { path: p, code, msg } ==> parsed is Some && code
            == parsed.unwrap().code && code != 1000 && p@ == path && (parsed.unwrap().msg matches
            Some(m) ==> msg@ == m@) && (parsed.unwrap().msg is None ==> msg@.len() == 0),
        e matches ApiError::NoData { path: p } ==> parsed is Some && parsed.unwrap().code == 1000
            && parsed.unwrap().data is None && p@ == path,
        auth::CODE_OK == 1000,
{
}

/// What is said of an error holds all that the error holds.
pub proof fn law_error_messages(path: String, text: String, code: i32)
    ensures
        forall|s: String| #[trigger]
            (ApiError::Status { path, status: s, text }).message_text() == path@
                + " returned http "@ + s@ + ": "@ + text@,
        (ApiError::Decode { path, text }).message_text() == "decoding "@ + path@ + ": "@ + text@,
        (ApiError::Refused { path, code, msg: text }).message_text() == path@ + " failed: code="@
            + text::signed_decimal(code as int) + " msg="@ + text@,
        (ApiError::NoData { path }).message_text() == path@ + " missing data"@,
{
}

// ---------------------------------------------------------------------------
// Requests
// ---------------------------------------------------------------------------

/// Names and values are taken as they are, all of them and in order.
pub proof fn law_pairs(list: Seq<(String, String)>)
    ensures
        auth::pairs(list).len() == list.len(),
        forall|i: int|
            0 <= i < list.len() ==> #[trigger] auth::pairs(list)[i] == (list[i].0@, list[i].1@),
{
}

/// A request on behalf of a user carries the user and the token, each whole; one on behalf of
/// nobody carries none.
pub proof fn law_credentials(client: Client)
    ensures
        client.auth matches Some((uid, token)) ==> client.credentials() == (uid@, token@),
        client.auth is None ==> client.credentials().0.len() == 0
            && client.credentials().1.len() == 0,
{
}

/// A request can be sent exactly where the user and the token can both stand in headers; one on
/// behalf of nobody always can.
pub proof fn law_sendable(client: Client)
    ensures
        client.auth matches Some((uid, token)) ==> (client.auth_legal() <==> util::legal_header(
            uid@,
        ) && util::legal_header(token@)),
        client.auth is None ==> client.auth_legal(),
{
}

/// A page holds the hundred cameras that follow those of the pages before it, or as many as there
/// are.
pub proof fn law_page(all: Seq<Device>, page: u64)
    requires
        page >= 1,
    ensures
        auth::PER_PAGE == 100,
        all.len() >= 100 * page ==> auth::page_of(all, page).len() == 100,
        100 * (page - 1) <= all.len() < 100 * page ==> auth::page_of(all, page).len() == all.len()
            - 100 * (page - 1),
        all.len() < 100 * (page - 1) ==> auth::page_of(all, page).len() == 0,
        forall|i: int|
            0 <= i < auth::page_of(all, page).len() ==> #[trigger] auth::page_of(all, page)[i]
                == all[100 * (page - 1) + i],
{
}

/// The headers of a request, each with its whole value: what is configured where a header takes
/// it, the time, the signature over the time and the user, and the user.
pub proof fn law_header_values(client: Client, now: u64)
    ensures
        ({
            let list = client.header_pairs(now);
            let agent = util::legal_header(client.osaio.user_agent@);
            let appid = util::legal_header(client.osaio.appid@);
            let n = (if agent {
                1int
            } else {
                0
            }) + (if appid {
                1int
            } else {
                0
            });
            let ts = text::decimal(now as nat);
            let (uid, token) = client.credentials();
            &&& list.len() == n + (if client.auth is Some {
                6int
            } else {
                4
            })
            &&& agent ==> list[0] == ("User-Agent"@, client.osaio.user_agent@)
            &&& appid ==> list[n - 1] == ("appid"@, client.osaio.appid@)
            &&& list[n].0 == "ApiSignType"@
            &&& client.auth is Some ==> list[n].1 == "2"@
            &&& client.auth is None ==> list[n].1 == "1"@
            &&& list[n + 1] == ("timeout"@, "10"@)
            &&& list[n + 2] == ("timestamp"@, ts)
            &&& list[n + 3] == (
                "sign"@,
                auth::signature(client.osaio.app_secret@, client.osaio.appid@, ts, uid, token),
            )
            &&& client.auth is Some ==> list[n + 4] == ("uid"@, uid) && list[n + 5] == (
                "api-token"@,
                token,
            )
        }),
{
}

/// The signaling connection is opened with the token, the app, the machine and the user, each
/// whole, and only where a header takes each of them.
pub proof fn law_dial(session: Session)
    ensures
        session.dial_pairs().len() == 4,
        session.dial_pairs()[0] == ("api_token"@, session.api_token@),
        session.dial_pairs()[1] == ("appid"@, session.osaio.appid@),
        session.dial_pairs()[2] == ("phone_code"@, session.phone_code@),
        session.dial_pairs()[3] == ("uid"@, session.uid@),
        session.dial_legal() <==> util::legal_header(session.api_token@) && util::legal_header(
            session.osaio.appid@,
        ) && util::legal_header(session.phone_code@) && util::legal_header(session.uid@),
{
    let list = session.dial_pairs();
    assert(list[0].1 == session.api_token@ && list[1].1 == session.osaio.appid@);
    assert(list[2].1 == session.phone_code@ && list[3].1 == session.uid@);
}

/// A login carries the whole address, the digest of the whole password, whatever its length, and
/// the code of the machine, and nothing else that depends on them.
pub proof fn law_login_body(email: Seq<char>, password: Seq<char>, phone_code: Seq<char>)
    ensures
        has_names(
            auth::login_model(email, password, phone_code),
            set![
                "account"@,
                "country"@,
                "password"@,
                "phone_brand"@,
                "phone_code"@,
                "timezone_name"@,
                "zone"@,
            ],
        ),
        holds(auth::login_model(email, password, phone_code), "account"@, JsonModel::Text(email)),
        holds(auth::login_model(email, password, phone_code), "country"@, JsonModel::Text("1"@)),
        holds(
            auth::login_model(email, password, phone_code),
            "password"@,
            JsonModel::Text(util::hex_text(util::md5_of(encode_utf8(password)))),
        ),
        holds(
            auth::login_model(email, password, phone_code),
            "phone_brand"@,
            JsonModel::Text("linux"@),
        ),
        holds(
            auth::login_model(email, password, phone_code),
            "phone_code"@,
            JsonModel::Text(phone_code),
        ),
        holds(
            auth::login_model(email, password, phone_code),
            "timezone_name"@,
            JsonModel::Text("GMT"@),
        ),
        holds(auth::login_model(email, password, phone_code), "zone"@, JsonModel::Fraction("0.0"@)),
{
    reveal_strlit("account");
    reveal_strlit("country");
    reveal_strlit("password");
    reveal_strlit("phone_brand");
    reveal_strlit("phone_code");
    reveal_strlit("timezone_name");
    reveal_strlit("zone");
    assert("account"@.len() == 7 && "account"@[0] == 'a' && "account"@[1] == 'c'
        && "account"@[2] == 'c');
    assert("account"@[3] == 'o' && "account"@[4] == 'u' && "account"@[5] == 'n'
        && "account"@[6] == 't');
    assert("country"@.len() == 7 && "country"@[0] == 'c' && "country"@[1] == 'o'
        && "country"@[2] == 'u');
    assert("country"@[3] == 'n' && "country"@[4] == 't' && "country"@[5] == 'r'
        && "country"@[6] == 'y');
    assert("password"@.len() == 8 && "password"@[0] == 'p' && "password"@[1] == 'a'
        && "password"@[2] == 's');
    assert("password"@[3] == 's' && "password"@[4] == 'w' && "password"@[5] == 'o'
        && "password"@[6] == 'r');
    assert("password"@[7] == 'd');
    assert("phone_brand"@.len() == 11 && "phone_brand"@[0] == 'p' && "phone_brand"@[1] == 'h'
        && "phone_brand"@[2] == 'o');
    assert("phone_brand"@[3] == 'n' && "phone_brand"@[4] == 'e' && "phone_brand"@[5] == '_'
        && "phone_brand"@[6] == 'b');
    assert("phone_brand"@[7] == 'r' && "phone_brand"@[8] == 'a' && "phone_brand"@[9] == 'n'
        && "phone_brand"@[10] == 'd');
    assert("phone_code"@.len() == 10 && "phone_code"@[0] == 'p' && "phone_code"@[1] == 'h'
        && "phone_code"@[2] == 'o');
    assert("phone_code"@[3] == 'n' && "phone_code"@[4] == 'e' && "phone_code"@[5] == '_'
        && "phone_code"@[6] == 'c');
    assert("phone_code"@[7] == 'o' && "phone_code"@[8] == 'd' && "phone_code"@[9] == 'e');
    assert("timezone_name"@.len() == 13 && "timezone_name"@[0] == 't' && "timezone_name"@[1] == 'i'
        && "timezone_name"@[2] == 'm');
    assert("timezone_name"@[3] == 'e' && "timezone_name"@[4] == 'z' && "timezone_name"@[5] == 'o'
        && "timezone_name"@[6] == 'n');
    assert("timezone_name"@[7] == 'e' && "timezone_name"@[8] == '_' && "timezone_name"@[9] == 'n'
        && "timezone_name"@[10] == 'a');
    assert("timezone_name"@[11] == 'm' && "timezone_name"@[12] == 'e');
    assert("zone"@.len() == 4 && "zone"@[0] == 'z' && "zone"@[1] == 'o' && "zone"@[2] == 'n');
    assert("zone"@[3] == 'e');
    assert(auth::login_model(email, password, phone_code)->Object_0.dom() =~= set![
        "account"@,
        "country"@,
        "password"@,
        "phone_brand"@,
        "phone_code"@,
        "timezone_name"@,
        "zone"@,
    ]);
}

/// A change of an attribute: what follows each event, and that nothing else goes on.
pub proof fn law_change_steps(
    name: Seq<char>,
    stage: SetStage,
    event: SetEvent,
    next: SetStage,
    action: SetAction,
)
    requires
        auth::set_follows(name, stage, event, next, action),
    ensures
        action matches SetAction::Wait(millis) ==> stage is Sending && event is Sent && next
            is Waiting && millis == 600,
        action matches SetAction::Ask(m) ==> stage is Waiting && event is Waited && next is Asking
            && m.method@ == "atr.get"@ && (m.data@ matches JsonModel::Array(items) && items.len()
            == 1 && items[0] == JsonModel::Text(name)),
        action matches SetAction::Report(v) ==> stage is Asking && next is Over && (event matches
            SetEvent::Replied(reply) && (reply.member(name) matches Some(w) && v@ == w@
            && v.int_of() == w.int_of() && w.alike(v))),
        action matches SetAction::Missing(e) ==> stage is Asking && next is Over && e.name@ == name
            && (event matches SetEvent::Replied(reply) && reply.member(name) is None),
        action is Fail ==> next is Over,
        stage is Sending && event is Sent ==> action is Wait,
        stage is Waiting && event is Waited ==> action is Ask,
        stage is Asking && event is Replied ==> action is Report || action is Missing,
{
}

// ---------------------------------------------------------------------------
// Signaling
// ---------------------------------------------------------------------------

/// The number of a message is made of the time and the count, from which both can be read: the
/// time without zeros in front, the count with as many as make it four digits.
pub proof fn law_message_number(now: u64, n: u64) -> (r: (Seq<char>, Seq<char>))
    ensures
        ws::id_text(now, n) == "rs-"@ + r.0 + r.1,
        text::digits_value(r.0) == Some(now as nat),
        now > 0 ==> r.0.len() > 0 && r.0[0] != '0',
        now == 0 ==> r.0.len() == 1,
        text::digits_value(r.1) == Some(n as nat),
        r.1.len() >= 4,
        r.1.len() > 4 ==> r.1[0] != '0',
{
    let t = text::decimal(now as nat);
    let c = text::zero_padded(text::decimal(n as nat), 4);
    crate::laws::words::law_decimal(now as nat);
    crate::laws::words::law_decimal(n as nat);
    ws::lemma_padded_value(n as nat);
    (t, c)
}

/// A message is sent with what it asks for, its number, the time, the camera and its model, and its
/// data, each whole.
pub proof fn law_sent_message(
    method: Seq<char>,
    msg_id: Seq<char>,
    now: u64,
    uuid: Seq<char>,
    model: Seq<char>,
    data: JsonModel,
)
    ensures
        has_names(
            ws::envelope_model(method, msg_id, now, uuid, model, data),
            set![
                "method"@,
                "msg_id"@,
                "ver"@,
                "origin"@,
                "time"@,
                "uuid"@,
                "device_model"@,
                "data"@,
            ],
        ),
        holds(
            ws::envelope_model(method, msg_id, now, uuid, model, data),
            "method"@,
            JsonModel::Text(method),
        ),
        holds(
            ws::envelope_model(method, msg_id, now, uuid, model, data),
            "msg_id"@,
            JsonModel::Text(msg_id),
        ),
        holds(
            ws::envelope_model(method, msg_id, now, uuid, model, data),
            "ver"@,
            JsonModel::Text("1.0"@),
        ),
        holds(
            ws::envelope_model(method, msg_id, now, uuid, model, data),
            "origin"@,
            JsonModel::Int(1),
        ),
        holds(
            ws::envelope_model(method, msg_id, now, uuid, model, data),
            "time"@,
            JsonModel::Int(now as int),
        ),
        holds(
            ws::envelope_model(method, msg_id, now, uuid, model, data),
            "uuid"@,
            JsonModel::Text(uuid),
        ),
        holds(
            ws::envelope_model(method, msg_id, now, uuid, model, data),
            "device_model"@,
            JsonModel::Text(model),
        ),
        holds(ws::envelope_model(method, msg_id, now, uuid, model, data), "data"@, data),
{
    reveal_strlit("method");
    reveal_strlit("msg_id");
    reveal_strlit("ver");
    reveal_strlit("origin");
    reveal_strlit("time");
    reveal_strlit("uuid");
    reveal_strlit("device_model");
    reveal_strlit("data");
    assert("method"@.len() == 6 && "method"@[0] == 'm' && "method"@[1] == 'e'
        && "method"@[2] == 't');
    assert("method"@[3] == 'h' && "method"@[4] == 'o' && "method"@[5] == 'd');
    assert("msg_id"@.len() == 6 && "msg_id"@[0] == 'm' && "msg_id"@[1] == 's'
        && "msg_id"@[2] == 'g');
    assert("msg_id"@[3] == '_' && "msg_id"@[4] == 'i' && "msg_id"@[5] == 'd');
    assert("ver"@.len() == 3 && "ver"@[0] == 'v' && "ver"@[1] == 'e' && "ver"@[2] == 'r');
    assert("origin"@.len() == 6 && "origin"@[0] == 'o' && "origin"@[1] == 'r'
        && "origin"@[2] == 'i');
    assert("origin"@[3] == 'g' && "origin"@[4] == 'i' && "origin"@[5] == 'n');
    assert("time"@.len() == 4 && "time"@[0] == 't' && "time"@[1] == 'i' && "time"@[2] == 'm');
    assert("time"@[3] == 'e');
    assert("uuid"@.len() == 4 && "uuid"@[0] == 'u' && "uuid"@[1] == 'u' && "uuid"@[2] == 'i');
    assert("uuid"@[3] == 'd');
    assert("device_model"@.len() == 12 && "device_model"@[0] == 'd' && "device_model"@[1] == 'e'
        && "device_model"@[2] == 'v');
    assert("device_model"@[3] == 'i' && "device_model"@[4] == 'c' && "device_model"@[5] == 'e'
        && "device_model"@[6] == '_');
    assert("device_model"@[7] == 'm' && "device_model"@[8] == 'o' && "device_model"@[9] == 'd'
        && "device_model"@[10] == 'e');
    assert("device_model"@[11] == 'l');
    assert("data"@.len() == 4 && "data"@[0] == 'd' && "data"@[1] == 'a' && "data"@[2] == 't');
    assert("data"@[3] == 'a');
    assert(ws::envelope_model(method, msg_id, now, uuid, model, data)->Object_0.dom() =~= set![
        "method"@,
        "msg_id"@,
        "ver"@,
        "origin"@,
        "time"@,
        "uuid"@,
        "device_model"@,
        "data"@,
    ]);
}

/// A message answers another exactly where it carries its number, whole.
pub proof fn law_answers(event: Incoming, msg_id: Seq<char>)
    ensures
        event.msg_id is None ==> !ws::answers(event, msg_id),
        event.msg_id matches Some(id) ==> (ws::answers(event, msg_id) <==> id@ == msg_id),
{
}

/// The steps of a reconnection, one by one.
pub proof fn law_reconnect_steps(ok: bool)
    ensures
        ws::reconnect_next(Reconnect::Dialing, true).1 == (ReconnectAction::Stop {
            keep_fresh: false,
            connected: true,
        }),
        ws::reconnect_next(Reconnect::Dialing, false) == (
            Reconnect::LoggingIn,
            ReconnectAction::Login,
        ),
        ws::reconnect_next(Reconnect::LoggingIn, true) == (
            Reconnect::DialingFresh,
            ReconnectAction::DialFresh,
        ),
        ws::reconnect_next(Reconnect::LoggingIn, false).1 == (ReconnectAction::Stop {
            keep_fresh: false,
            connected: false,
        }),
        ws::reconnect_next(Reconnect::DialingFresh, ok).1 == (ReconnectAction::Stop {
            keep_fresh: true,
            connected: ok,
        }),
        ws::reconnect_next(Reconnect::Over, ok).1 == (ReconnectAction::Stop {
            keep_fresh: false,
            connected: false,
        }),
        ws::reconnect_next(Reconnect::Dialing, true).0 is Over,
        ws::reconnect_next(Reconnect::LoggingIn, false).0 is Over,
        ws::reconnect_next(Reconnect::DialingFresh, ok).0 is Over,
        ws::reconnect_next(Reconnect::Over, ok).0 is Over,
{
}

/// A delay is doubled, but to no more than half a minute; after a run of more than a minute it is
/// the shortest one, and otherwise what it was to be.
pub proof fn law_delays(secs: u64, shortest: u64, current: u64, ran: u128)
    ensures
        secs < 15 ==> backoff::doubled(secs) == 2 * secs,
        secs >= 15 ==> backoff::doubled(secs) == 30,
        ran > 60_000_000_000 ==> backoff::wait_after(shortest, current, ran) == shortest,
        ran <= 60_000_000_000 ==> backoff::wait_after(shortest, current, ran) == current,
        backoff::LONGEST == 30,
        backoff::CAMERA_SHORTEST == 2,
{
}

} // verus!
