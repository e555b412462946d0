//! The account: signing requests, reading replies, and the session that a login gives.

use vstd::prelude::*;
use vstd::string::*;
use vstd::utf8::encode_utf8;

use crate::config::AccountConfig;
use crate::config::OsaioConfig;
use crate::json::Json;
use crate::json::JsonModel;
use crate::text;
use crate::util;
use crate::ws::Message;

verus! {

// ---------------------------------------------------------------------------
// Digests
// ---------------------------------------------------------------------------

/// The MD5 digest of a text in hexadecimal.
pub open spec fn md5_text(t: Seq<char>) -> Seq<char> {
    util::hex_text(util::md5_of(encode_utf8(t)))
}

/// The MD5 digest of a text in hexadecimal.
pub fn md5_hex(input: &str) -> (r: String)
    ensures
        r@ == md5_text(input@),
        r@.len() == 32,
{
    let digest = util::md5_digest(input.as_bytes());
    util::hex(digest.as_slice())
}

/// What is signed: the app, the time, and the user with the token, or neither.
pub open spec fn signed_text(
    appid: Seq<char>,
    timestamp: Seq<char>,
    uid: Seq<char>,
    token: Seq<char>,
) -> Seq<char> {
    appid + timestamp + uid + token
}

/// A message authentication code as it is sent: its hexadecimal text in base 64.
pub open spec fn code_text(code: Seq<u8>) -> Seq<char> {
    util::base64_text(encode_utf8(util::hex_text(code)))
}

/// The signature of a request.
pub open spec fn signature(
    secret: Seq<char>,
    appid: Seq<char>,
    timestamp: Seq<char>,
    uid: Seq<char>,
    token: Seq<char>,
) -> Seq<char> {
    code_text(
        util::hmac_sha256_of(
            encode_utf8(secret),
            encode_utf8(signed_text(appid, timestamp, uid, token)),
        ),
    )
}

/// The UTF-8 bytes of a text in hexadecimal are as many as its characters.
proof fn lemma_hex_utf8(b: Seq<u8>)
    ensures
        encode_utf8(util::hex_text(b)).len() == 2 * b.len(),
{
    util::lemma_hex_chars(b);
    let t = util::hex_text(b);
    assert forall|i: int| 0 <= i < t.len() implies 0 <= #[trigger] t[i] as u32 <= 127 by {}
    assert(vstd::utf8::is_ascii_chars(t));
    vstd::utf8::is_ascii_chars_encode_utf8(t);
}

/// A message authentication code as it is sent: its hexadecimal text in base 64.
pub fn code_to_text(code: &[u8]) -> (r: String)
    requires
        code@.len() <= isize::MAX / 4,
    ensures
        r@ == code_text(code@),
{
    let digits = util::hex(code);
    proof {
        lemma_hex_utf8(code@);
    }
    util::base64_encode(digits.as_str().as_bytes())
}

/// Signs a request.
pub fn sign(secret: &str, appid: &str, timestamp: &str, uid: &str, token: &str) -> (r: String)
    ensures
        r@ == signature(secret@, appid@, timestamp@, uid@, token@),
{
    let mut message = text::cat3(appid, timestamp, uid);
    message.append(token);
    let code = util::hmac_sha256(secret.as_bytes(), message.as_str().as_bytes());
    code_to_text(code.as_slice())
}

/// The name of the machine: that under `COMPUTERNAME`, or else that under `HOSTNAME`, or else a
/// name of our own.
pub open spec fn host_name(
    computername: Option<Seq<char>>,
    hostname: Option<Seq<char>>,
) -> Seq<char> {
    match computername {
        Some(n) => n,
        None => match hostname {
            Some(n) => n,
            None => "osaio-proxy"@,
        },
    }
}

/// The characters of a text that may be absent.
pub open spec fn chars(t: Option<&str>) -> Option<Seq<char>> {
    match t {
        Some(t) => Some(t@),
        None => None,
    }
}

/// The code by which this machine is known to the account: a digest of its name and the address.
/// `computername` and `hostname` are what the environment holds under these names.
pub fn phone_code(email: &str, computername: Option<&str>, hostname: Option<&str>) -> (r: String)
    ensures
        r@ == md5_text(host_name(chars(computername), chars(hostname)) + ":"@ + email@),
{
    let host: &str = match computername {
        Some(n) => n,
        None => match hostname {
            Some(n) => n,
            None => "osaio-proxy",
        },
    };
    md5_hex(text::cat3(host, ":", email).as_str())
}

// ---------------------------------------------------------------------------
// Replies
// ---------------------------------------------------------------------------

/// What the service wraps every reply in.
pub struct Envelope<T> {
    pub code: i32,
    pub msg: Option<String>,
    pub data: Option<T>,
}

/// The code of a reply to a request that was carried out.
pub const CODE_OK: i32 = 1000;

/// Why a reply holds no result.
#[derive(Debug)]
pub enum ApiError {
    /// The HTTP status, by its number and reason, is none of success.
    Status { path: String, status: String, text: String },
    /// The body is not what it should be.
    Decode { path: String, text: String },
    /// The service says that it refused.
    Refused { path: String, code: i32, msg: String },
    /// The service holds the result back.
    NoData { path: String },
}

impl ApiError {
    /// The message of the error.
    pub open spec fn message_text(self) -> Seq<char> {
        match self {
            ApiError::Status { path, status, text } => path@ + " returned http "@ + status@ + ": "@
                + text@,
            ApiError::Decode { path, text } => "decoding "@ + path@ + ": "@ + text@,
            ApiError::Refused { path, code, msg } => path@ + " failed: code="@
                + text::signed_decimal(code as int) + " msg="@ + msg@,
            ApiError::NoData { path } => path@ + " missing data"@,
        }
    }

    /// The message of the error.
    pub fn message(&self) -> (r: String)
        ensures
            r@ == self.message_text(),
    {
        match self {
            ApiError::Status { path, status, text } => {
                let mut r = text::cat3(path.as_str(), " returned http ", status.as_str());
                r.append(": ");
                r.append(text.as_str());
                r
            },
            ApiError::Decode { path, text } => {
                let mut r = text::cat3("decoding ", path.as_str(), ": ");
                r.append(text.as_str());
                r
            },
            ApiError::Refused { path, code, msg } => {
                let code = text::signed_text(*code as i64);
                let mut r = text::cat3(path.as_str(), " failed: code=", code.as_str());
                r.append(" msg=");
                r.append(msg.as_str());
                r
            },
            ApiError::NoData { path } => text::cat(path.as_str(), " missing data"),
        }
    }
}

/// The error of a reply: it has the right HTTP status, its body is an envelope, the service says
/// that it did what was asked, and the result is there; the first of these that fails counts.
pub open spec fn reply_error<T>(
    status: u16,
    reason: Seq<char>,
    text: Seq<char>,
    parsed: Option<Envelope<T>>,
    path: Seq<char>,
    e: ApiError,
) -> bool {
    if !(200 <= status < 300) {
        e matches ApiError::Status { path: p, status: s, text: t } && p@ == path && s@ == reason
            && t@ == text
    } else {
        match parsed {
            None => e matches ApiError::Decode { path: p, text: t } && p@ == path && t@ == text,
            Some(env) => if env.code != CODE_OK {
                e matches ApiError::Refused { path: p, code: c, msg: m } && p@ == path && c
                    == env.code && m@ == (match env.msg {
                    Some(m) => m@,
                    None => Seq::empty(),
                })
            } else {
                env.data is None && (e matches ApiError::NoData { path: p } && p@ == path)
            },
        }
    }
}

/// Takes the result out of a reply to a request for `path`. `reason` is the HTTP status as it is
/// shown, `text` the body, and `parsed` the envelope that the body was read as.
pub fn unwrap_body<T>(
    status: u16,
    reason: &str,
    text: &str,
    parsed: Option<Envelope<T>>,
    path: &str,
) -> (r: Result<T, ApiError>)
    ensures
        match r {
            Ok(data) => 200 <= status < 300 && parsed is Some && parsed.unwrap().code == CODE_OK
                && parsed.unwrap().data == Some(data),
            Err(e) => reply_error(status, reason@, text@, parsed, path@, e),
        },
{
    let path = path.to_owned();
    if !(200 <= status && status < 300) {
        return Err(
            ApiError::Status { path, status: reason.to_owned(), text: text.to_owned() },
        );
    }
    match parsed {
        None => Err(ApiError::Decode { path, text: text.to_owned() }),
        Some(env) => {
            if env.code != CODE_OK {
                let msg = match env.msg {
                    Some(m) => m,
                    None => String::new(),
                };
                return Err(ApiError::Refused { path, code: env.code, msg });
            }
            match env.data {
                Some(data) => Ok(data),
                None => Err(ApiError::NoData { path }),
            }
        },
    }
}

// ---------------------------------------------------------------------------
// Requests
// ---------------------------------------------------------------------------

/// Names and values, as plain text.
pub open spec fn pairs(list: Seq<(String, String)>) -> Seq<(Seq<char>, Seq<char>)> {
    list.map_values(|p: (String, String)| (p.0@, p.1@))
}

/// A request that reads: its path and its query.
pub struct GetRequest {
    pub path: String,
    pub query: Vec<(String, String)>,
}

/// A request that has a body: its path and the body.
pub struct PostRequest {
    pub path: String,
    pub body: Json,
}

/// A request that reads, as it is sent.
pub struct HttpGet {
    pub url: String,
    pub headers: Vec<(String, String)>,
    pub query: Vec<(String, String)>,
}

/// A request with a body, as it is sent.
pub struct HttpPost {
    pub url: String,
    pub headers: Vec<(String, String)>,
    pub body: Json,
}

/// Makes requests to one address of the service, on behalf of a user once there is one.
pub struct Client {
    pub base_url: String,
    pub osaio: OsaioConfig,
    pub auth: Option<(String, String)>,
}

/// The header, where its value is legal.
pub open spec fn legal_pair(name: Seq<char>, value: Seq<char>) -> Seq<(Seq<char>, Seq<char>)> {
    if util::legal_header(value) {
        seq![(name, value)]
    } else {
        Seq::empty()
    }
}

impl Client {
    /// The user and the token, both empty before the login.
    pub open spec fn credentials(self) -> (Seq<char>, Seq<char>) {
        match self.auth {
            Some((uid, token)) => (uid@, token@),
            None => (Seq::empty(), Seq::empty()),
        }
    }

    /// The user and the token can stand in headers.
    pub open spec fn auth_legal(self) -> bool {
        util::legal_header(self.credentials().0) && util::legal_header(self.credentials().1)
    }

    /// The headers of a request at the time `now`, in seconds.
    pub open spec fn header_pairs(self, now: u64) -> Seq<(Seq<char>, Seq<char>)> {
        let ts = text::decimal(now as nat);
        let (uid, token) = self.credentials();
        let known = seq![
            (
                "ApiSignType"@,
                if self.auth is Some {
                    "2"@
                } else {
                    "1"@
                },
            ),
            ("timeout"@, "10"@),
            ("timestamp"@, ts),
            (
                "sign"@,
                signature(self.osaio.app_secret@, self.osaio.appid@, ts, uid, token),
            ),
        ];
        let user = if self.auth is Some {
            seq![("uid"@, uid), ("api-token"@, token)]
        } else {
            Seq::empty()
        };
        legal_pair("User-Agent"@, self.osaio.user_agent@) + legal_pair(
            "appid"@,
            self.osaio.appid@,
        ) + known + user
    }

    /// A client without a user.
    pub fn new(base_url: &str, osaio: OsaioConfig) -> (r: Client)
        ensures
            r.base_url@ == base_url@,
            r.osaio == osaio,
            r.auth is None,
    {
        Client { base_url: base_url.to_owned(), osaio, auth: None }
    }

    /// What is sent for a request that reads, at the time `now`, in seconds.
    pub fn get(&self, request: GetRequest, now: u64) -> (r: HttpGet)
        requires
            self.auth_legal(),
        ensures
            r.url@ == self.base_url@ + request.path@,
            pairs(r.headers@) == self.header_pairs(now),
            r.query == request.query,
    {
        HttpGet {
            url: self.url(request.path.as_str()),
            headers: self.headers(now),
            query: request.query,
        }
    }

    /// What is sent for a request with a body, at the time `now`, in seconds.
    pub fn post(&self, request: PostRequest, now: u64) -> (r: HttpPost)
        requires
            self.auth_legal(),
        ensures
            r.url@ == self.base_url@ + request.path@,
            pairs(r.headers@) == self.header_pairs(now),
            r.body == request.body,
    {
        HttpPost {
            url: self.url(request.path.as_str()),
            headers: self.headers(now),
            body: request.body,
        }
    }

    /// The address of a path.
    fn url(&self, path: &str) -> (r: String)
        ensures
            r@ == self.base_url@ + path@,
    {
        text::cat(self.base_url.as_str(), path)
    }

    /// Whether the user and the token can stand in headers.
    pub fn auth_is_legal(&self) -> (r: bool)
        ensures
            r == self.auth_legal(),
    {
        match &self.auth {
            Some((uid, token)) => util::header_accepts(uid.as_str()) && util::header_accepts(
                token.as_str(),
            ),
            None => true,
        }
    }

    /// The headers of a request at the time `now`, in seconds. A configured text that cannot
    /// stand in a header is left out.
    pub fn headers(&self, now: u64) -> (r: Vec<(String, String)>)
        requires
            self.auth_legal(),
        ensures
            pairs(r@) == self.header_pairs(now),
    {
        let ts = text::decimal_text(now);
        let (uid, token) = match &self.auth {
            Some((uid, token)) => (uid.clone(), token.clone()),
            None => (String::new(), String::new()),
        };
        let signed = sign(
            self.osaio.app_secret.as_str(),
            self.osaio.appid.as_str(),
            ts.as_str(),
            uid.as_str(),
            token.as_str(),
        );
        let mut r: Vec<(String, String)> = Vec::new();
        if util::header_accepts(self.osaio.user_agent.as_str()) {
            push_pair(&mut r, "User-Agent", self.osaio.user_agent.as_str());
        }
        if util::header_accepts(self.osaio.appid.as_str()) {
            push_pair(&mut r, "appid", self.osaio.appid.as_str());
        }
        assert(pairs(r@) =~= legal_pair("User-Agent"@, self.osaio.user_agent@) + legal_pair(
            "appid"@,
            self.osaio.appid@,
        ));
        let kind: &str = if self.auth.is_some() {
            "2"
        } else {
            "1"
        };
        push_pair(&mut r, "ApiSignType", kind);
        push_pair(&mut r, "timeout", "10");
        push_pair(&mut r, "timestamp", ts.as_str());
        push_pair(&mut r, "sign", signed.as_str());
        if self.auth.is_some() {
            push_pair(&mut r, "uid", uid.as_str());
            push_pair(&mut r, "api-token", token.as_str());
        }
        assert(pairs(r@) =~= self.header_pairs(now));
        r
    }
}

/// Appends a name and its value.
pub fn push_pair(list: &mut Vec<(String, String)>, name: &str, value: &str)
    ensures
        pairs(final(list)@) == pairs(old(list)@).push((name@, value@)),
{
    list.push((name.to_owned(), value.to_owned()));
    assert(pairs(list@) =~= pairs(old(list)@).push((name@, value@)));
}

/// The request for the addresses under which the account is served.
fn base_url_request(account: &AccountConfig) -> (r: GetRequest)
    ensures
        r.path@ == "/account/get-baseurl"@,
        pairs(r.query@) == seq![("account"@, account.email@), ("country"@, "1"@)],
{
    let mut query: Vec<(String, String)> = Vec::new();
    push_pair(&mut query, "account", account.email.as_str());
    push_pair(&mut query, "country", "1");
    assert(pairs(query@) =~= seq![("account"@, account.email@), ("country"@, "1"@)]);
    GetRequest { path: "/account/get-baseurl".to_owned(), query }
}

/// The body of a login.
pub open spec fn login_model(
    email: Seq<char>,
    password: Seq<char>,
    phone_code: Seq<char>,
) -> JsonModel {
    JsonModel::Object(
        map![
            "account"@ => JsonModel::Text(email),
            "country"@ => JsonModel::Text("1"@),
            "password"@ => JsonModel::Text(md5_text(password)),
            "phone_brand"@ => JsonModel::Text("linux"@),
            "phone_code"@ => JsonModel::Text(phone_code),
            "timezone_name"@ => JsonModel::Text("GMT"@),
            "zone"@ => JsonModel::Fraction("0.0"@),
        ],
    )
}

/// The login.
fn login_request(account: &AccountConfig, phone_code: &str) -> (r: PostRequest)
    ensures
        r.path@ == "/login/login"@,
        r.body@ == login_model(account.email@, account.password@, phone_code@),
{
    let body = Json::object()
        .with("account", Json::text(account.email.as_str()))
        .with("country", Json::text("1"))
        .with("password", Json::Text(md5_hex(account.password.as_str())))
        .with("phone_brand", Json::text("linux"))
        .with("phone_code", Json::text(phone_code))
        .with("timezone_name", Json::text("GMT"))
        .with("zone", Json::zero());
    PostRequest { path: "/login/login".to_owned(), body }
}

// ---------------------------------------------------------------------------
// The session
// ---------------------------------------------------------------------------

/// The addresses under which the account is served.
pub struct BaseUrls {
    pub web: String,
    pub ws: String,
}

/// What a login gives.
pub struct LoginResult {
    pub api_token: String,
    pub uid: String,
}

/// A camera of the account.
#[derive(Debug)]
pub struct Device {
    pub uuid: String,
    pub name: String,
    pub model: String,
}

impl Clone for Device {
    fn clone(&self) -> (r: Device)
        ensures
            r == *self,
    {
        Device { uuid: self.uuid.clone(), name: self.name.clone(), model: self.model.clone() }
    }
}

/// A server that helps two sides to find a way to each other.
#[derive(Debug)]
pub struct Ice {
    pub iceurl: String,
    pub iceurl_ip: Option<String>,
    pub username: Option<String>,
    pub password: Option<String>,
}

/// A video call: the servers for this side and those for the camera.
#[derive(Debug)]
pub struct VideoCall {
    pub session_id: Option<String>,
    pub user_ices: Vec<Ice>,
    pub device_ices: Vec<Ice>,
}

/// A text cannot stand in a header.
#[derive(Clone, Copy, PartialEq, Eq, Debug, Structural)]
pub struct IllegalHeader;

/// The session of a user who is logged in.
pub struct Session {
    pub ws_url: String,
    pub uid: String,
    pub api_token: String,
    pub phone_code: String,
    pub osaio: OsaioConfig,
    /// The address that requests go to.
    pub web_base_url: String,
}

impl Session {
    /// Begins a login: the global address is asked where the account is served.
    pub fn login(osaio: &OsaioConfig, account: &AccountConfig, phone_code: &str) -> (r: (
        Login,
        Client,
        GetRequest,
    ))
        ensures
            r.0.osaio() == *osaio,
            r.0.account() == *account,
            r.0.phone_code() == phone_code@,
            r.1.base_url@ == osaio.global_base_url@,
            r.1.osaio == *osaio,
            r.1.auth is None,
            r.2.path@ == "/account/get-baseurl"@,
            pairs(r.2.query@) == seq![("account"@, account.email@), ("country"@, "1"@)],
    {
        let client = Client::new(osaio.global_base_url.as_str(), osaio.clone());
        let request = base_url_request(account);
        let login = Login {
            osaio: osaio.clone(),
            account: account.clone(),
            phone_code: phone_code.to_owned(),
        };
        (login, client, request)
    }

    /// A client on behalf of the user.
    pub fn client(&self) -> (r: Client)
        ensures
            r.base_url@ == self.web_base_url@,
            r.osaio == self.osaio,
            r.auth == Some((self.uid, self.api_token)),
    {
        let mut client = Client::new(self.web_base_url.as_str(), self.osaio.clone());
        client.auth = Some((self.uid.clone(), self.api_token.clone()));
        client
    }

    /// The request for the first page of the cameras of the account.
    pub fn devices(&self) -> (r: GetRequest)
        ensures
            r.path@ == "/device/list"@,
            pairs(r.query@) == seq![("page"@, "1"@), ("per_page"@, "100"@)],
    {
        let mut query: Vec<(String, String)> = Vec::new();
        push_pair(&mut query, "page", "1");
        push_pair(&mut query, "per_page", "100");
        assert(pairs(query@) =~= seq![("page"@, "1"@), ("per_page"@, "100"@)]);
        GetRequest { path: "/device/list".to_owned(), query }
    }

    /// The request for a page of the cameras of the account. The first page has the number 1.
    pub fn devices_page(&self, page: u64) -> (r: GetRequest)
        ensures
            r.path@ == "/device/list"@,
            pairs(r.query@) == seq![
                ("page"@, text::decimal(page as nat)),
                ("per_page"@, "100"@),
            ],
    {
        let mut query: Vec<(String, String)> = Vec::new();
        push_pair(&mut query, "page", text::decimal_text(page).as_str());
        push_pair(&mut query, "per_page", "100");
        assert(pairs(query@) =~= seq![
            ("page"@, text::decimal(page as nat)),
            ("per_page"@, "100"@),
        ]);
        GetRequest { path: "/device/list".to_owned(), query }
    }

    /// The request for a video call with a camera.
    pub fn video_call(&self, uuid: &str) -> (r: PostRequest)
        ensures
            r.path@ == "/webrtcsession/user/videocall"@,
            r.body@ == JsonModel::Object(map!["device_id"@ => JsonModel::Text(uuid@)]),
    {
        PostRequest {
            path: "/webrtcsession/user/videocall".to_owned(),
            body: Json::object().with("device_id", Json::text(uuid)),
        }
    }

    /// The message that asks a camera for an attribute.
    pub fn get_attribute(&self, name: &str) -> (r: Message)
        ensures
            r.method@ == "atr.get"@,
            r.data@ == JsonModel::Array(seq![JsonModel::Text(name@)]),
    {
        attribute_request(name)
    }

    /// Begins to set an attribute of a camera: the camera is sent the message.
    pub fn set_attribute(&self, name: &str, value: i64) -> (r: (SetAttribute, Message))
        ensures
            r.0.name() == name@,
            r.0.stage() == SetStage::Sending,
            r.1.method@ == "atr.set"@,
            r.1.data@ == JsonModel::Object(map![name@ => JsonModel::Int(value as int)]),
    {
        let change = SetAttribute { name: name.to_owned(), stage: SetStage::Sending };
        let data = Json::object().with(name, Json::Int(value));
        (change, Message { method: "atr.set", data })
    }

    /// The headers with which the signaling connection is opened.
    pub open spec fn dial_pairs(self) -> Seq<(Seq<char>, Seq<char>)> {
        seq![
            ("api_token"@, self.api_token@),
            ("appid"@, self.osaio.appid@),
            ("phone_code"@, self.phone_code@),
            ("uid"@, self.uid@),
        ]
    }

    /// The headers with which the signaling connection is opened can be sent.
    pub open spec fn dial_legal(self) -> bool {
        forall|i: int|
            0 <= i < self.dial_pairs().len() ==> util::legal_header(
                #[trigger] self.dial_pairs()[i].1,
            )
    }

    /// The headers with which the signaling connection is opened.
    pub fn dial_headers(&self) -> (r: Result<Vec<(String, String)>, IllegalHeader>)
        ensures
            match r {
                Ok(list) => self.dial_legal() && pairs(list@) == self.dial_pairs(),
                Err(_) => !self.dial_legal(),
            },
    {
        proof {
            assert(self.dial_pairs()[0].1 == self.api_token@);
            assert(self.dial_pairs()[1].1 == self.osaio.appid@);
            assert(self.dial_pairs()[2].1 == self.phone_code@);
            assert(self.dial_pairs()[3].1 == self.uid@);
        }
        if !(util::header_accepts(self.api_token.as_str()) && util::header_accepts(
            self.osaio.appid.as_str(),
        ) && util::header_accepts(self.phone_code.as_str()) && util::header_accepts(
            self.uid.as_str(),
        )) {
            return Err(IllegalHeader);
        }
        let mut list: Vec<(String, String)> = Vec::new();
        push_pair(&mut list, "api_token", self.api_token.as_str());
        push_pair(&mut list, "appid", self.osaio.appid.as_str());
        push_pair(&mut list, "phone_code", self.phone_code.as_str());
        push_pair(&mut list, "uid", self.uid.as_str());
        assert(pairs(list@) =~= self.dial_pairs());
        Ok(list)
    }
}

impl Clone for Session {
    fn clone(&self) -> (r: Session)
        ensures
            r == *self,
    {
        Session {
            ws_url: self.ws_url.clone(),
            uid: self.uid.clone(),
            api_token: self.api_token.clone(),
            phone_code: self.phone_code.clone(),
            osaio: self.osaio.clone(),
            web_base_url: self.web_base_url.clone(),
        }
    }
}

/// A login that has yet to learn where the account is served.
pub struct Login {
    osaio: OsaioConfig,
    account: AccountConfig,
    phone_code: String,
}

/// A login that knows where the account is served.
pub struct LoginAt {
    osaio: OsaioConfig,
    phone_code: String,
    urls: BaseUrls,
}

impl Login {
    pub closed spec fn osaio(self) -> OsaioConfig {
        self.osaio
    }

    pub closed spec fn account(self) -> AccountConfig {
        self.account
    }

    pub closed spec fn phone_code(self) -> Seq<char> {
        self.phone_code@
    }

    /// Goes on with a login: the address that serves the account is sent the login.
    pub fn at(self, urls: BaseUrls) -> (r: (LoginAt, Client, PostRequest))
        ensures
            r.0.osaio() == self.osaio(),
            r.0.phone_code() == self.phone_code(),
            r.0.urls() == urls,
            r.1.base_url@ == urls.web@,
            r.1.osaio == self.osaio(),
            r.1.auth is None,
            r.2.path@ == "/login/login"@,
            r.2.body@ == login_model(
                self.account().email@,
                self.account().password@,
                self.phone_code(),
            ),
    {
        let client = Client::new(urls.web.as_str(), self.osaio.clone());
        let request = login_request(&self.account, self.phone_code.as_str());
        let next = LoginAt { osaio: self.osaio, phone_code: self.phone_code, urls };
        (next, client, request)
    }
}

impl LoginAt {
    pub closed spec fn osaio(self) -> OsaioConfig {
        self.osaio
    }

    pub closed spec fn phone_code(self) -> Seq<char> {
        self.phone_code@
    }

    pub closed spec fn urls(self) -> BaseUrls {
        self.urls
    }

    /// Ends a login: the session of the user.
    pub fn session(self, result: LoginResult) -> (r: Session)
        ensures
            r.ws_url == self.urls().ws,
            r.uid == result.uid,
            r.api_token == result.api_token,
            r.phone_code@ == self.phone_code(),
            r.osaio == self.osaio(),
            r.web_base_url == self.urls().web,
    {
        Session {
            ws_url: self.urls.ws,
            uid: result.uid,
            api_token: result.api_token,
            phone_code: self.phone_code,
            osaio: self.osaio,
            web_base_url: self.urls.web,
        }
    }
}

// ---------------------------------------------------------------------------
// The cameras of the account
// ---------------------------------------------------------------------------

/// How many cameras a page holds, but for the last.
pub const PER_PAGE: usize = 100;

/// The cameras of the account as far as they are listed.
pub struct Listing {
    devices: Vec<Device>,
    page: u64,
}

impl Listing {
    /// The cameras that are listed, in order.
    pub closed spec fn listed(self) -> Seq<Device> {
        self.devices@
    }

    /// The number of the page that is to be asked for.
    pub closed spec fn next_page(self) -> u64 {
        self.page
    }

    /// No camera is listed yet.
    pub fn new() -> (r: Listing)
        ensures
            r.listed() == Seq::<Device>::empty(),
            r.next_page() == 1,
    {
        Listing { devices: Vec::new(), page: 1 }
    }

    /// The number of the page that is to be asked for.
    pub fn page(&self) -> (r: u64)
        ensures
            r == self.next_page(),
    {
        self.page
    }

    /// Takes a page, and gives whether to ask for the next one: a page that is not full is the
    /// last, and so is the one with the greatest number.
    pub fn take(&mut self, page: Vec<Device>) -> (r: bool)
        ensures
            final(self).listed() == old(self).listed() + page@,
            r == (page@.len() >= PER_PAGE && old(self).next_page() < u64::MAX),
            final(self).next_page() == (if r {
                (old(self).next_page() + 1) as u64
            } else {
                old(self).next_page()
            }),
    {
        let mut page = page;
        let more = page.len() >= PER_PAGE && self.page < u64::MAX;
        self.devices.append(&mut page);
        if more {
            self.page = self.page + 1;
        }
        more
    }

    /// The cameras that are listed, in order.
    pub fn devices(self) -> (r: Vec<Device>)
        ensures
            r@ == self.listed(),
    {
        self.devices
    }
}

/// The page with the number `page` of all cameras of an account.
pub open spec fn page_of(all: Seq<Device>, page: u64) -> Seq<Device> {
    let from = (page - 1) * PER_PAGE;
    let to = page * PER_PAGE;
    all.subrange(
        if from < all.len() {
            from
        } else {
            all.len() as int
        },
        if to < all.len() {
            to
        } else {
            all.len() as int
        },
    )
}

/// The cameras that are listed after the pages up to `page` were taken.
pub open spec fn listed_up_to(all: Seq<Device>, page: u64) -> Seq<Device>
    decreases page,
{
    if page == 0 {
        Seq::empty()
    } else {
        listed_up_to(all, (page - 1) as u64) + page_of(all, page)
    }
}

/// The pages that were taken hold the cameras that they should, in order.
proof fn lemma_listed_up_to(all: Seq<Device>, page: u64)
    ensures
        listed_up_to(all, page) == all.take(
            if page * PER_PAGE < all.len() {
                page * PER_PAGE
            } else {
                all.len() as int
            },
        ),
    decreases page,
{
    if page == 0 {
        assert(all.take(0) =~= Seq::empty());
    } else {
        lemma_listed_up_to(all, (page - 1) as u64);
        let to = if page * PER_PAGE < all.len() {
            page * PER_PAGE
        } else {
            all.len() as int
        };
        assert(listed_up_to(all, page) =~= all.take(to));
    }
}

/// All cameras are listed, each once and in order, whatever their number: every page before the
/// last is full, so that the next one is asked for; the last is not; and together they hold all.
pub proof fn law_all_listed(all: Seq<Device>, last: u64)
    requires
        last == all.len() / PER_PAGE as nat + 1,
    ensures
        forall|page: u64| 1 <= page < last ==> (#[trigger] page_of(all, page)).len() == PER_PAGE,
        page_of(all, last).len() < PER_PAGE,
        listed_up_to(all, last) == all,
{
    lemma_listed_up_to(all, last);
    assert(all.take(all.len() as int) =~= all);
}

// ---------------------------------------------------------------------------
// Attributes of a camera
// ---------------------------------------------------------------------------

/// How long a camera takes to apply a change, in milliseconds.
pub const APPLY_MILLIS: u64 = 600;

/// The camera's reply does not hold the attribute.
#[derive(Debug)]
pub struct NotReported {
    pub name: String,
}

impl NotReported {
    /// The message of the error.
    pub fn message(&self) -> (r: String)
        ensures
            r@ == "camera did not report "@ + self.name@,
    {
        text::cat("camera did not report ", self.name.as_str())
    }
}

/// The value of an attribute in the camera's reply.
pub fn reported<'a>(reply: &'a Json, name: &str) -> (r: Result<&'a Json, NotReported>)
    ensures
        match r {
            Ok(v) => reply.member(name@) == Some(*v),
            Err(e) => reply.member(name@) is None && e.name@ == name@,
        },
{
    match reply.get(name) {
        Some(v) => Ok(v),
        None => Err(NotReported { name: name.to_owned() }),
    }
}

/// The message that asks a camera for an attribute.
fn attribute_request(name: &str) -> (r: Message)
    ensures
        r.method@ == "atr.get"@,
        r.data@ == JsonModel::Array(seq![JsonModel::Text(name@)]),
{
    let data = Json::array().and(Json::text(name));
    assert(data@->Array_0 =~= seq![JsonModel::Text(name@)]);
    Message { method: "atr.get", data }
}

/// How far a change of an attribute is.
#[derive(Clone, Copy, PartialEq, Eq, Debug, Structural)]
pub enum SetStage {
    /// The change is sent.
    Sending,
    /// The camera is given time to apply it.
    Waiting,
    /// The camera is asked for the attribute.
    Asking,
    Over,
}

/// What happens while an attribute is changed.
#[derive(Debug)]
pub enum SetEvent {
    /// The change was sent.
    Sent,
    /// The change could not be sent.
    SendFailed,
    /// The time has passed.
    Waited,
    /// The camera replied.
    Replied(Json),
    /// The camera could not be asked.
    AskFailed,
}

/// What to do while an attribute is changed.
#[derive(Debug)]
pub enum SetAction {
    /// Wait so many milliseconds.
    Wait(u64),
    /// Send this message, and await the reply.
    Ask(Message),
    /// The change is over, and this is what the camera reports.
    Report(Json),
    /// The change is over, and the camera does not report the attribute.
    Missing(NotReported),
    /// The change is over, and failed.
    Fail,
}

/// The event leads from one stage to the next, with the action. The camera is asked only once the
/// change was sent and the time has passed; whatever fails ends the change.
pub open spec fn set_follows(
    name: Seq<char>,
    stage: SetStage,
    event: SetEvent,
    next: SetStage,
    action: SetAction,
) -> bool {
    match (stage, event) {
        (SetStage::Sending, SetEvent::Sent) => next == SetStage::Waiting && action
            == SetAction::Wait(APPLY_MILLIS),
        (SetStage::Waiting, SetEvent::Waited) => next == SetStage::Asking && (action matches
            SetAction::Ask(m) && m.method@ == "atr.get"@ && m.data@ == JsonModel::Array(
            seq![JsonModel::Text(name)],
        )),
        (SetStage::Asking, SetEvent::Replied(reply)) => next == SetStage::Over && (
        match reply.member(name) {
            Some(v) => action matches SetAction::Report(r) && r@ == v@ && r.int_of() == v.int_of()
                && v.alike(r),
            None => action matches SetAction::Missing(e) && e.name@ == name,
        }),
        _ => next == SetStage::Over && action == SetAction::Fail,
    }
}

/// A change of an attribute of a camera.
pub struct SetAttribute {
    name: String,
    stage: SetStage,
}

impl SetAttribute {
    /// The name of the attribute.
    pub closed spec fn name(self) -> Seq<char> {
        self.name@
    }

    /// How far the change is.
    pub closed spec fn stage(self) -> SetStage {
        self.stage
    }

    /// Takes an event, and gives what to do next.
    pub fn next(&mut self, event: SetEvent) -> (r: SetAction)
        ensures
            final(self).name() == old(self).name(),
            set_follows(old(self).name(), old(self).stage(), event, final(self).stage(), r),
    {
        match (self.stage, event) {
            (SetStage::Sending, SetEvent::Sent) => {
                self.stage = SetStage::Waiting;
                SetAction::Wait(APPLY_MILLIS)
            },
            (SetStage::Waiting, SetEvent::Waited) => {
                self.stage = SetStage::Asking;
                SetAction::Ask(attribute_request(self.name.as_str()))
            },
            (SetStage::Asking, SetEvent::Replied(reply)) => {
                self.stage = SetStage::Over;
                match reported(&reply, self.name.as_str()) {
                    Ok(v) => SetAction::Report(v.clone()),
                    Err(e) => SetAction::Missing(e),
                }
            },
            _ => {
                self.stage = SetStage::Over;
                SetAction::Fail
            },
        }
    }
}

// ---------------------------------------------------------------------------
// Laws
// ---------------------------------------------------------------------------

/// A signature can always stand in a header.
pub proof fn law_signature_legal(
    secret: Seq<char>,
    appid: Seq<char>,
    timestamp: Seq<char>,
    uid: Seq<char>,
    token: Seq<char>,
)
    ensures
        util::legal_header(signature(secret, appid, timestamp, uid, token)),
{
    let code = util::hmac_sha256_of(
        encode_utf8(secret),
        encode_utf8(signed_text(appid, timestamp, uid, token)),
    );
    let b = encode_utf8(util::hex_text(code));
    let t = util::base64_text(b);
    util::lemma_base64_chars(b);
    assert forall|i: int| 0 <= i < t.len() implies ({
        let n = #[trigger] t[i] as u32;
        n >= 32 && n != 127 || n == 9
    }) by {
        let c = util::base64_text(b)[i];
        assert('A' <= c <= 'Z' || 'a' <= c <= 'z' || '0' <= c <= '9' || c == '+' || c == '/' || c
            == '=');
    }
}

/// Every header of a request can be sent.
pub proof fn law_headers_legal(client: Client, now: u64)
    requires
        client.auth_legal(),
    ensures
        forall|i: int|
            0 <= i < client.header_pairs(now).len() ==> util::legal_header(
                #[trigger] client.header_pairs(now)[i].1,
            ),
{
    let ts = text::decimal(now as nat);
    let (uid, token) = client.credentials();
    law_signature_legal(client.osaio.app_secret@, client.osaio.appid@, ts, uid, token);
    text::lemma_digits_of_decimal(now as nat);
    assert(util::legal_header(ts)) by {
        assert forall|i: int| 0 <= i < ts.len() implies ({
            let n = #[trigger] ts[i] as u32;
            n >= 32 && n != 127 || n == 9
        }) by {
            assert(text::digit(text::decimal(now as nat)[i]));
        }
    }
    reveal_strlit("1");
    reveal_strlit("2");
    reveal_strlit("10");
    let list = client.header_pairs(now);
    let a = legal_pair("User-Agent"@, client.osaio.user_agent@);
    let b = legal_pair("appid"@, client.osaio.appid@);
    assert forall|i: int| 0 <= i < list.len() implies util::legal_header(#[trigger] list[i].1) by {
        let k = i - a.len() - b.len();
        if i < a.len() {
            assert(list[i] == a[i]);
        } else if i < a.len() + b.len() {
            assert(list[i] == b[i - a.len()]);
        } else if k == 0 {
            assert(list[i].1 == "1"@ || list[i].1 == "2"@);
        } else if k == 1 {
            assert(list[i].1 == "10"@);
        } else if k == 2 {
            assert(list[i].1 == ts);
        }
    }
}

/// Only a request on behalf of a user names the user, and says so by the kind of its signature.
pub proof fn law_user_headers(client: Client, now: u64)
    ensures
        client.auth is Some ==> client.header_pairs(now).contains(
            ("ApiSignType"@, "2"@),
        ) && client.header_pairs(now).contains(("uid"@, client.credentials().0))
            && client.header_pairs(now).contains(("api-token"@, client.credentials().1)),
        client.auth is None ==> client.header_pairs(now).contains(("ApiSignType"@, "1"@)) && (
        forall|i: int|
            0 <= i < client.header_pairs(now).len() ==> #[trigger] client.header_pairs(now)[i].0
                != "uid"@ && client.header_pairs(now)[i].0 != "api-token"@),
{
    let list = client.header_pairs(now);
    let a = legal_pair("User-Agent"@, client.osaio.user_agent@);
    let b = legal_pair("appid"@, client.osaio.appid@);
    let n = (a.len() + b.len()) as int;
    if client.auth is Some {
        assert(list[n] == ("ApiSignType"@, "2"@));
        assert(list[n + 4] == ("uid"@, client.credentials().0));
        assert(list[n + 5] == ("api-token"@, client.credentials().1));
    } else {
        assert(list[n] == ("ApiSignType"@, "1"@));
        reveal_strlit("User-Agent");
        reveal_strlit("appid");
        reveal_strlit("ApiSignType");
        reveal_strlit("timeout");
        reveal_strlit("timestamp");
        reveal_strlit("sign");
        reveal_strlit("uid");
        reveal_strlit("api-token");
        assert("uid"@.len() == 3 && "api-token"@.len() == 9);
        assert("timestamp"@[0] != "api-token"@[0]);
        assert forall|i: int| 0 <= i < list.len() implies #[trigger] list[i].0 != "uid"@
            && list[i].0 != "api-token"@ by {
            if i < a.len() {
                assert(list[i] == a[i]);
            } else if i < n {
                assert(list[i] == b[i - a.len()]);
            }
        }
    }
}

/// What a change reports is what the camera told after the change was sent and the time had
/// passed: any change that ends with a report went through these steps, in this order.
pub proof fn law_change_order(
    name: Seq<char>,
    first: SetEvent,
    s1: SetStage,
    a1: SetAction,
    second: SetEvent,
    s2: SetStage,
    a2: SetAction,
    third: SetEvent,
    s3: SetStage,
    a3: SetAction,
)
    requires
        set_follows(name, SetStage::Sending, first, s1, a1),
        set_follows(name, s1, second, s2, a2),
        set_follows(name, s2, third, s3, a3),
    ensures
        !(a1 is Report) && !(a2 is Report),
        a3 is Report ==> first is Sent && a1 == SetAction::Wait(APPLY_MILLIS) && second is Waited
            && a2 is Ask && third is Replied,
{
}

} // verus!
