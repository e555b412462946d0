//! The servers that help the two sides of a call to find a way to each other.

use vstd::prelude::*;
use vstd::string::*;

use crate::auth::Ice;
use crate::auth::VideoCall;
use crate::text;

verus! {

/// A text that may be absent, empty where it is.
pub open spec fn or_empty(t: Option<String>) -> Seq<char> {
    match t {
        Some(t) => t@,
        None => Seq::empty(),
    }
}

/// A text that may be absent, empty where it is.
pub fn text_or_empty(t: &Option<String>) -> (r: String)
    ensures
        r@ == or_empty(*t),
{
    match t {
        Some(t) => t.clone(),
        None => String::new(),
    }
}

/// The servers that have an address, in order.
pub open spec fn usable(ices: Seq<Ice>) -> Seq<Ice>
    decreases ices.len(),
{
    if ices.len() == 0 {
        Seq::empty()
    } else if ices.last().iceurl@.len() == 0 {
        usable(ices.drop_last())
    } else {
        usable(ices.drop_last()).push(ices.last())
    }
}

/// A server as this side uses it.
pub struct IceServer {
    pub urls: Vec<String>,
    pub username: String,
    pub credential: String,
}

/// A server as this side uses it, as plain text.
pub struct IceServerModel {
    pub urls: Seq<Seq<char>>,
    pub username: Seq<char>,
    pub credential: Seq<char>,
}

impl View for IceServer {
    type V = IceServerModel;

    open spec fn view(&self) -> IceServerModel {
        IceServerModel {
            urls: text::texts(self.urls@),
            username: self.username@,
            credential: self.credential@,
        }
    }
}

/// The address that this side uses: where the number address of the server is known it takes the
/// place of the name, between the scheme and what stands after the last colon.
pub open spec fn server_url(ice: Ice) -> Seq<char> {
    match (ice.iceurl_ip, text::parted(ice.iceurl@, ":"@)) {
        (Some(ip), Some((scheme, rest))) => scheme + ":"@ + ip@ + ":"@ + text::after_last(
            rest,
            ':',
        ),
        _ => ice.iceurl@,
    }
}

/// A server as this side uses it.
pub open spec fn server_model(ice: Ice) -> IceServerModel {
    IceServerModel {
        urls: seq![server_url(ice)],
        username: or_empty(ice.username),
        credential: or_empty(ice.password),
    }
}

/// The address that this side uses.
fn url_of(ice: &Ice) -> (r: String)
    ensures
        r@ == server_url(*ice),
{
    match (&ice.iceurl_ip, text::split_once(ice.iceurl.as_str(), ":")) {
        (Some(ip), Some((scheme, rest))) => {
            let mut r = text::cat3(scheme, ":", ip.as_str());
            r.append(":");
            r.append(text::last_part(rest, ':'));
            r
        },
        _ => ice.iceurl.clone(),
    }
}

/// The servers that this side of a call uses.
pub fn ice_servers(call: &VideoCall) -> (r: Vec<IceServer>)
    ensures
        r@.map_values(|s: IceServer| s@) == usable(call.user_ices@).map_values(
            |i: Ice| server_model(i),
        ),
{
    let ices = &call.user_ices;
    let mut r: Vec<IceServer> = Vec::new();
    let mut i: usize = 0;
    let ghost as_model = |s: IceServer| s@;
    let ghost modelled = |i: Ice| server_model(i);
    assert(r@.map_values(as_model) =~= usable(ices@.take(0)).map_values(modelled));
    while i < ices.len()
        invariant
            i <= ices.len(),
            as_model == (|s: IceServer| s@),
            modelled == (|i: Ice| server_model(i)),
            r@.map_values(as_model) == usable(ices@.take(i as int)).map_values(modelled),
        decreases ices.len() - i,
    {
        let ghost before = usable(ices@.take(i as int)).map_values(modelled);
        let ice = &ices[i];
        assert(ices@.take(i + 1).drop_last() =~= ices@.take(i as int));
        if !ice.iceurl.as_str().is_empty() {
            let mut urls: Vec<String> = Vec::new();
            urls.push(url_of(ice));
            let server = IceServer {
                urls,
                username: text_or_empty(&ice.username),
                credential: text_or_empty(&ice.password),
            };
            assert(text::texts(server.urls@) =~= seq![server_url(*ice)]);
            r.push(server);
            assert(r@.map_values(as_model) =~= before.push(server_model(*ice)));
            assert(usable(ices@.take(i + 1)).map_values(modelled) =~= before.push(
                server_model(*ice),
            ));
        }
        i += 1;
    }
    assert(ices@.take(i as int) =~= ices@);
    r
}

/// The address that the camera is given: one of a relay asks for UDP.
pub open spec fn device_url(ice: Ice) -> Seq<char> {
    if text::occurs_at(ice.iceurl@, "turn:"@, 0) {
        ice.iceurl@ + "?transport=udp"@
    } else {
        ice.iceurl@
    }
}

/// The addresses, user names and passwords of the servers that the camera uses. The entries at
/// one position belong to one server.
pub fn device_ice_arrays(call: &VideoCall) -> (r: (Vec<String>, Vec<String>, Vec<String>))
    ensures
        text::texts(r.0@) == usable(call.device_ices@).map_values(|i: Ice| device_url(i)),
        text::texts(r.1@) == usable(call.device_ices@).map_values(|i: Ice| or_empty(i.username)),
        text::texts(r.2@) == usable(call.device_ices@).map_values(|i: Ice| or_empty(i.password)),
{
    let ices = &call.device_ices;
    let mut urls: Vec<String> = Vec::new();
    let mut usernames: Vec<String> = Vec::new();
    let mut passwords: Vec<String> = Vec::new();
    let mut i: usize = 0;
    let ghost url = |i: Ice| device_url(i);
    let ghost user = |i: Ice| or_empty(i.username);
    let ghost pass = |i: Ice| or_empty(i.password);
    assert(text::texts(urls@) =~= usable(ices@.take(0)).map_values(url));
    assert(text::texts(usernames@) =~= usable(ices@.take(0)).map_values(user));
    assert(text::texts(passwords@) =~= usable(ices@.take(0)).map_values(pass));
    while i < ices.len()
        invariant
            i <= ices.len(),
            url == (|i: Ice| device_url(i)),
            user == (|i: Ice| or_empty(i.username)),
            pass == (|i: Ice| or_empty(i.password)),
            text::texts(urls@) == usable(ices@.take(i as int)).map_values(url),
            text::texts(usernames@) == usable(ices@.take(i as int)).map_values(user),
            text::texts(passwords@) == usable(ices@.take(i as int)).map_values(pass),
        decreases ices.len() - i,
    {
        let ghost before = usable(ices@.take(i as int));
        let ice = &ices[i];
        assert(ices@.take(i + 1).drop_last() =~= ices@.take(i as int));
        if !ice.iceurl.as_str().is_empty() {
            if text::begins_with(ice.iceurl.as_str(), "turn:") {
                text::push_text(&mut urls, text::cat(ice.iceurl.as_str(), "?transport=udp"));
            } else {
                text::push_text(&mut urls, ice.iceurl.clone());
            }
            text::push_text(&mut usernames, text_or_empty(&ice.username));
            text::push_text(&mut passwords, text_or_empty(&ice.password));
            assert(before.push(*ice).map_values(url) =~= before.map_values(url).push(
                device_url(*ice),
            ));
            assert(before.push(*ice).map_values(user) =~= before.map_values(user).push(
                or_empty(ice.username),
            ));
            assert(before.push(*ice).map_values(pass) =~= before.map_values(pass).push(
                or_empty(ice.password),
            ));
        }
        i += 1;
    }
    assert(ices@.take(i as int) =~= ices@);
    (urls, usernames, passwords)
}

/// Only servers that have an address are usable, and no such server is left out.
pub proof fn law_usable(ices: Seq<Ice>)
    ensures
        forall|ice: Ice| #[trigger]
            usable(ices).contains(ice) <==> ices.contains(ice) && ice.iceurl@.len() > 0,
    decreases ices.len(),
{
    if ices.len() > 0 {
        let rest = ices.drop_last();
        let last = ices.last();
        law_usable(rest);
        assert forall|ice: Ice| #[trigger]
            usable(ices).contains(ice) <==> ices.contains(ice) && ice.iceurl@.len() > 0 by {
            assert(ices =~= rest.push(last));
            assert(usable(rest).contains(ice) <==> rest.contains(ice) && ice.iceurl@.len() > 0);
            if ices.contains(ice) {
                let k = choose|k: int| 0 <= k < ices.len() && ices[k] == ice;
                if k < rest.len() {
                    assert(rest[k] == ice);
                }
            }
            if rest.contains(ice) {
                let k = choose|k: int| 0 <= k < rest.len() && rest[k] == ice;
                assert(ices[k] == ice);
            }
            if last.iceurl@.len() > 0 {
                let u = usable(rest).push(last);
                assert(u[usable(rest).len() as int] == last);
                if u.contains(ice) {
                    let k = choose|k: int| 0 <= k < u.len() && u[k] == ice;
                    if k < usable(rest).len() {
                        assert(usable(rest)[k] == ice);
                    }
                }
                if usable(rest).contains(ice) {
                    let k = choose|k: int| 0 <= k < usable(rest).len() && usable(rest)[k] == ice;
                    assert(u[k] == ice);
                }
            }
        }
    }
}

} // verus!
