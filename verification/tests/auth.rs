use osaio_proxy::auth::{
    md5_hex, phone_code, reported, sign, unwrap_body, ApiError, BaseUrls, Client, Envelope,
    Device, GetRequest, Listing, LoginResult, PostRequest, Session, SetAction, SetEvent,
    APPLY_MILLIS, PER_PAGE,
};
use osaio_proxy::config::{AccountConfig, Config, OsaioConfig, ServerConfig};
use osaio_proxy::json::Json;

fn osaio() -> OsaioConfig {
    OsaioConfig {
        appid: "app".into(),
        app_secret: "secret".into(),
        user_agent: "agent/1".into(),
        global_base_url: "https://global/v2".into(),
    }
}

fn account() -> AccountConfig {
    AccountConfig { email: "me@example.com".into(), password: "pässword".into() }
}

fn session() -> Session {
    Session {
        ws_url: "wss://x".into(),
        uid: "u1".into(),
        api_token: "tok".into(),
        phone_code: "pc".into(),
        osaio: osaio(),
        web_base_url: "https://web".into(),
    }
}

fn header_accepts(t: &str) -> bool {
    let mut s = session();
    s.uid = t.into();
    s.client().auth_is_legal() && s.dial_headers().is_ok()
}

fn pair(name: &str, value: &str) -> (String, String) {
    (name.into(), value.into())
}

const SIGN_OF_USER: &str = "M2VhMmQwMzZlMDhkMjc0NWZhYjNkMDY4YzZhMjcyNDAyMDM3NGUyYWFhMzRiMDg3YmI3YTQxYjNmYzk5Zjc0OA==";
const SIGN_OF_NONE: &str = "NDI0NDliYTk0MjFhNDJkMWFhNTQ4MzM5ZjRhZTgxYTlmYzQwYWEzZTdiM2FiYjQ5MjdjMmE1MTBjNzdiOTEwZQ==";

#[test]
fn digests() {
    assert_eq!(md5_hex("hello"), "5d41402abc4b2a76b9719d911017c592");
    assert_eq!(md5_hex("pässword"), "8e1843033a0f6ee52e2f618aa8ebbef4");
    assert_eq!(md5_hex(""), "d41d8cd98f00b204e9800998ecf8427e");
}

#[test]
fn signatures() {
    assert_eq!(sign("secret", "app", "1700000000", "u1", "tok"), SIGN_OF_USER);
    assert_eq!(sign("secret", "app", "1700000000", "", ""), SIGN_OF_NONE);
    assert!(header_accepts(&sign("", "ä\n", "", "", "")));
}

#[test]
fn machine_names() {
    assert_eq!(phone_code("me@example.com", Some("box"), None), "3419b21efc8c48ff8db0e968bb0b4ef9");
    assert_eq!(
        phone_code("me@example.com", Some("box"), Some("other")),
        "3419b21efc8c48ff8db0e968bb0b4ef9"
    );
    assert_eq!(phone_code("me@example.com", None, Some("box")), "3419b21efc8c48ff8db0e968bb0b4ef9");
    assert_eq!(phone_code("me@example.com", None, None), "583c7f9006936e10ef2726c8a3c29671");
}

#[test]
fn header_values() {
    for t in ["", "a b", "tab\there", "ä", "~"] {
        assert!(header_accepts(t), "{t:?}");
    }
    for t in ["\n", "a\rb", "\0", "\u{7f}"] {
        assert!(!header_accepts(t), "{t:?}");
    }
}

fn envelope(code: i32, msg: Option<&str>, data: Option<u8>) -> Option<Envelope<u8>> {
    Some(Envelope { code, msg: msg.map(String::from), data })
}

fn message(r: Result<u8, ApiError>) -> String {
    r.unwrap_err().message()
}

#[test]
fn replies_are_unwrapped() {
    assert_eq!(unwrap_body(200, "200 OK", "t", envelope(1000, None, Some(7)), "/p").unwrap(), 7);
    assert_eq!(unwrap_body(299, "299", "t", envelope(1000, Some("m"), Some(7)), "/p").unwrap(), 7);
}

#[test]
fn replies_without_success() {
    assert_eq!(
        message(unwrap_body(404, "404 Not Found", "no", envelope(1000, None, Some(7)), "/p")),
        "/p returned http 404 Not Found: no"
    );
    assert_eq!(message(unwrap_body(199, "199 <unknown status code>", "", None, "/p")),
        "/p returned http 199 <unknown status code>: ");
    assert_eq!(message(unwrap_body(300, "300 Multiple Choices", "x", None, "/p")),
        "/p returned http 300 Multiple Choices: x");
}

#[test]
fn replies_that_are_no_envelope() {
    assert_eq!(message(unwrap_body(200, "200 OK", "<html>", None, "/p")), "decoding /p: <html>");
}

#[test]
fn replies_that_refuse() {
    assert_eq!(
        message(unwrap_body(200, "200 OK", "t", envelope(-1, Some("bad"), Some(7)), "/p")),
        "/p failed: code=-1 msg=bad"
    );
    assert_eq!(
        message(unwrap_body(200, "200 OK", "t", envelope(1001, None, None), "/p")),
        "/p failed: code=1001 msg="
    );
}

#[test]
fn replies_without_data() {
    assert_eq!(
        message(unwrap_body(200, "200 OK", "t", envelope(1000, None, None), "/p")),
        "/p missing data"
    );
}

#[test]
fn headers_of_nobody() {
    let c = Client::new("https://a", osaio());
    assert!(c.auth_is_legal());
    assert_eq!(
        c.headers(1700000000),
        vec![
            pair("User-Agent", "agent/1"),
            pair("appid", "app"),
            pair("ApiSignType", "1"),
            pair("timeout", "10"),
            pair("timestamp", "1700000000"),
            pair("sign", SIGN_OF_NONE),
        ]
    );
}

#[test]
fn headers_of_a_user() {
    let c = session().client();
    assert!(c.auth_is_legal());
    let h = c.headers(1700000000);
    assert_eq!(
        h,
        vec![
            pair("User-Agent", "agent/1"),
            pair("appid", "app"),
            pair("ApiSignType", "2"),
            pair("timeout", "10"),
            pair("timestamp", "1700000000"),
            pair("sign", SIGN_OF_USER),
            pair("uid", "u1"),
            pair("api-token", "tok"),
        ]
    );
    assert!(h.iter().all(|(_, v)| header_accepts(v)));
}

#[test]
fn illegal_configured_texts_are_left_out() {
    let mut o = osaio();
    o.user_agent = "a\nb".into();
    o.appid = "\u{7f}".into();
    let h = Client::new("", o).headers(0);
    assert_eq!(h.len(), 4);
    assert_eq!(h[0], pair("ApiSignType", "1"));
    assert_eq!(h[2], pair("timestamp", "0"));
}

#[test]
fn users_that_no_header_takes() {
    let mut s = session();
    s.api_token = "a\n".into();
    assert!(!s.client().auth_is_legal());
    s.api_token = "a".into();
    s.uid = "\r".into();
    assert!(!s.client().auth_is_legal());
}

#[test]
fn requests_are_addressed() {
    let c = session().client();
    let g = c.get(GetRequest { path: "/p".into(), query: vec![pair("a", "b")] }, 5);
    assert_eq!(g.url, "https://web/p");
    assert_eq!(g.query, vec![pair("a", "b")]);
    assert_eq!(g.headers, c.headers(5));
    let p = c.post(PostRequest { path: "/q".into(), body: Json::Int(3) }, 6);
    assert_eq!(p.url, "https://web/q");
    assert_eq!(p.body.to_text(), "3");
    assert_eq!(p.headers, c.headers(6));
}

#[test]
fn a_login() {
    let (login, client, request) = Session::login(&osaio(), &account(), "pc");
    assert_eq!(client.base_url, "https://global/v2");
    assert!(client.auth.is_none());
    assert_eq!(request.path, "/account/get-baseurl");
    assert_eq!(request.query, vec![pair("account", "me@example.com"), pair("country", "1")]);

    let urls = BaseUrls { web: "https://web".into(), ws: "wss://ws".into() };
    let (login, client, request) = login.at(urls);
    assert_eq!(client.base_url, "https://web");
    assert_eq!(client.osaio.appid, "app");
    assert!(client.auth.is_none());
    assert_eq!(request.path, "/login/login");
    assert_eq!(
        request.body.to_text(),
        "{\"account\":\"me@example.com\",\"country\":\"1\",\
\"password\":\"8e1843033a0f6ee52e2f618aa8ebbef4\",\"phone_brand\":\"linux\",\"phone_code\":\"pc\",\
\"timezone_name\":\"GMT\",\"zone\":0.0}"
    );

    let s = login.session(LoginResult { api_token: "tok".into(), uid: "u1".into() });
    assert_eq!(s.ws_url, "wss://ws");
    assert_eq!(s.web_base_url, "https://web");
    assert_eq!((s.uid.as_str(), s.api_token.as_str()), ("u1", "tok"));
    assert_eq!(s.phone_code, "pc");
    assert_eq!(s.clone().client().auth, Some(pair("u1", "tok")));
}

#[test]
fn requests_of_a_session() {
    let s = session();
    let d = s.devices();
    assert_eq!(d.path, "/device/list");
    assert_eq!(d.query, vec![pair("page", "1"), pair("per_page", "100")]);
    let v = s.video_call("cam");
    assert_eq!(v.path, "/webrtcsession/user/videocall");
    assert_eq!(v.body.to_text(), "{\"device_id\":\"cam\"}");
}

#[test]
fn pages_of_cameras() {
    let s = session();
    let p = s.devices_page(12);
    assert_eq!(p.path, "/device/list");
    assert_eq!(p.query, vec![pair("page", "12"), pair("per_page", "100")]);
    assert_eq!(s.devices_page(1).query, s.devices().query);
}

#[test]
fn all_cameras_are_listed() {
    for n in [0usize, 1, 99, 100, 101, 200, 250] {
        let name = |i: usize| format!("cam{i}");
        let device = |i: usize| Device { uuid: name(i), name: "".into(), model: "".into() };
        let mut listing = Listing::new();
        let mut asked = 0;
        loop {
            asked += 1;
            assert_eq!(listing.page(), asked as u64);
            let from = (asked - 1) * PER_PAGE;
            let page: Vec<Device> = (from.min(n)..(from + PER_PAGE).min(n)).map(device).collect();
            if !listing.take(page) {
                break;
            }
        }
        assert_eq!(asked, n / PER_PAGE + 1);
        let got: Vec<String> = listing.devices().into_iter().map(|d| d.uuid).collect();
        let want: Vec<String> = (0..n).map(name).collect();
        assert_eq!(got, want);
    }
}

#[test]
fn attribute_messages() {
    let s = session();
    let m = s.get_attribute("IrLedMode");
    assert_eq!((m.method, m.data.to_text().as_str()), ("atr.get", "[\"IrLedMode\"]"));
    let (_, m) = s.set_attribute("IrLedMode", -2);
    assert_eq!((m.method, m.data.to_text().as_str()), ("atr.set", "{\"IrLedMode\":-2}"));
    assert_eq!(APPLY_MILLIS, 600);
}

#[test]
fn a_change_is_sent_then_awaited_then_asked_for() {
    let s = session();
    let (mut c, _) = s.set_attribute("A", 1);
    assert!(matches!(c.next(SetEvent::Sent), SetAction::Wait(600)));
    match c.next(SetEvent::Waited) {
        SetAction::Ask(m) => {
            assert_eq!((m.method, m.data.to_text().as_str()), ("atr.get", "[\"A\"]"))
        }
        a => panic!("{a:?}"),
    }
    let reply = Json::object().with("A", Json::Int(1));
    assert!(matches!(c.next(SetEvent::Replied(reply)), SetAction::Report(Json::Int(1))));
    assert!(matches!(c.next(SetEvent::Sent), SetAction::Fail));
}

#[test]
fn a_change_that_fails() {
    let s = session();
    let (mut c, _) = s.set_attribute("A", 1);
    assert!(matches!(c.next(SetEvent::SendFailed), SetAction::Fail));
    let (mut c, _) = s.set_attribute("A", 1);
    assert!(matches!(c.next(SetEvent::Waited), SetAction::Fail));
    assert!(matches!(c.next(SetEvent::Sent), SetAction::Fail));
    let (mut c, _) = s.set_attribute("A", 1);
    c.next(SetEvent::Sent);
    c.next(SetEvent::Waited);
    assert!(matches!(c.next(SetEvent::AskFailed), SetAction::Fail));
    let (mut c, _) = s.set_attribute("A", 1);
    c.next(SetEvent::Sent);
    c.next(SetEvent::Waited);
    match c.next(SetEvent::Replied(Json::object())) {
        SetAction::Missing(e) => assert_eq!(e.message(), "camera did not report A"),
        a => panic!("{a:?}"),
    }
}

#[test]
fn reported_attributes() {
    let reply = Json::object().with("a", Json::Null);
    assert!(matches!(reported(&reply, "a"), Ok(Json::Null)));
    assert_eq!(reported(&reply, "b").unwrap_err().message(), "camera did not report b");
    assert_eq!(reported(&Json::Null, "a").unwrap_err().message(), "camera did not report a");
}

#[test]
fn dialing() {
    let s = session();
    assert_eq!(
        s.dial_headers().unwrap(),
        vec![
            pair("api_token", "tok"),
            pair("appid", "app"),
            pair("phone_code", "pc"),
            pair("uid", "u1"),
        ]
    );
    let mut t = session();
    t.osaio.appid = "\n".into();
    assert!(t.dial_headers().is_err());
    let mut t = session();
    t.phone_code = "\n".into();
    assert!(t.dial_headers().is_err());
    let mut t = session();
    t.uid = "\n".into();
    assert!(t.dial_headers().is_err());
    let mut t = session();
    t.api_token = "\n".into();
    assert!(t.dial_headers().is_err());
}

#[test]
fn configured_defaults() {
    assert_eq!(ServerConfig::default().bind, "0.0.0.0:8080");
    let c = Config { osaio: osaio(), account: account(), server: ServerConfig::default() };
    let d = c.clone();
    assert_eq!(d.account.email, "me@example.com");
    assert_eq!(d.osaio.app_secret, "secret");
    assert_eq!(d.server.bind, osaio_proxy::config::default_bind());
}
