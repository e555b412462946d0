//! Laws on JSON values, and on the plain values that types stand for.

use vstd::prelude::*;
use vstd::string::*;

use crate::ice::IceServer;
use crate::json;
use crate::json::Json;
use crate::json::JsonModel;
use crate::sdp::offer::OfferParts;
use crate::server::Reply;
use crate::settings::Setting;

verus! {

/// A JSON value that is no list stands for what it holds, whole.
pub proof fn law_plain_values(b: bool, n: i64, u: u64, t: String, v: serde_json::Value)
    ensures
        Json::Null@ == JsonModel::Null,
        Json::Bool(b)@ == JsonModel::Bool(b),
        Json::Int(n)@ == JsonModel::Int(n as int),
        Json::UInt(u)@ == JsonModel::Int(u as int),
        Json::Text(t)@ == JsonModel::Text(t@),
        Json::Fraction(v)@ == json::held(v),
{
}

proof fn lemma_items(items: Seq<Json>)
    ensures
        Json::item_models(items).len() == items.len(),
        forall|i: int|
            0 <= i < items.len() ==> #[trigger] Json::item_models(items)[i] == items[i].model(),
    decreases items.len(),
{
    if items.len() > 0 {
        lemma_items(items.drop_last());
    }
}

/// An array stands for what its items stand for, all of them and in order.
pub proof fn law_array_items(items: Vec<Json>)
    ensures
        Json::Array(items)@ matches JsonModel::Array(models) && models.len() == items@.len()
            && forall|i: int| 0 <= i < items@.len() ==> #[trigger] models[i] == items@[i]@,
{
    lemma_items(items@);
}

/// The member that is found has the name that was asked for, and none behind it has; where none is
/// found, none has it.
pub proof fn law_last_named(members: Seq<(String, Json)>, name: Seq<char>) -> (k: int)
    ensures
        match json::last_named(members, name) {
            Some(v) => 0 <= k < members.len() && members[k].0@ == name && members[k].1 == v && (
            forall|j: int| k < j < members.len() ==> #[trigger] members[j].0@ != name),
            None => forall|j: int| 0 <= j < members.len() ==> #[trigger] members[j].0@ != name,
        },
    decreases members.len(),
{
    if members.len() == 0 || members.last().0@ == name {
        members.len() - 1
    } else {
        let front = members.drop_last();
        let k = law_last_named(front, name);
        assert(forall|j: int| 0 <= j < front.len() ==> #[trigger] members[j] == front[j]);
        k
    }
}

/// Only an object has members, and they are its own.
pub proof fn law_members(value: Json, members: Vec<(String, Json)>, name: Seq<char>)
    ensures
        Json::Object(members).member(name) == json::last_named(members@, name),
        !(value is Object) ==> value.member(name) is None,
{
}

/// An integer is read as it is, where an `i64` can hold it, and a text as it is; nothing else is
/// read as one.
pub proof fn law_read_values(n: i64, u: u64, t: String, value: Json)
    ensures
        Json::Int(n).int_of() == Some(n),
        u <= i64::MAX ==> (Json::UInt(u).int_of() matches Some(k) && k == u),
        u > i64::MAX ==> Json::UInt(u).int_of() is None,
        !(value is Int) && !(value is UInt) ==> value.int_of() is None,
        Json::Text(t).text_of() == Some(t@),
        !(value is Text) ==> value.text_of() is None,
{
}

proof fn lemma_items_alike(a: Seq<Json>, b: Seq<Json>)
    ensures
        Json::items_alike(a, b) <==> a.len() == b.len() && forall|i: int|
            0 <= i < a.len() ==> #[trigger] a[i].alike(b[i]),
    decreases a.len(),
{
    if a.len() == b.len() && a.len() > 0 {
        let x = a.drop_last();
        let y = b.drop_last();
        lemma_items_alike(x, y);
        assert(forall|i: int| 0 <= i < x.len() ==> #[trigger] x[i] == a[i] && y[i] == b[i]);
        if Json::items_alike(a, b) {
            assert forall|i: int| 0 <= i < a.len() implies #[trigger] a[i].alike(b[i]) by {
                if i < x.len() {
                    assert(x[i].alike(y[i]));
                }
            }
        }
        if forall|i: int| 0 <= i < a.len() ==> #[trigger] a[i].alike(b[i]) {
            assert(a[a.len() - 1].alike(b[a.len() - 1]));
            assert forall|i: int| 0 <= i < x.len() implies #[trigger] x[i].alike(y[i]) by {
                assert(a[i].alike(b[i]));
            }
        }
    }
}

proof fn lemma_members_alike(a: Seq<(String, Json)>, b: Seq<(String, Json)>, name: Seq<char>)
    requires
        Json::members_alike(a, b),
    ensures
        json::last_named(a, name) is Some <==> json::last_named(b, name) is Some,
        json::last_named(a, name) matches Some(v) ==> v.alike(json::last_named(b, name).unwrap()),
    decreases a.len(),
{
    if a.len() > 0 && a.last().0@ != name {
        lemma_members_alike(a.drop_last(), b.drop_last(), name);
    }
}

/// A value and its copy are read alike: as the same integer or text, item by item, and under every
/// name with members that are read alike again.
pub proof fn law_copies(value: Json, copy: Json, name: Seq<char>)
    requires
        value.alike(copy),
    ensures
        value.int_of() == copy.int_of(),
        value.text_of() == copy.text_of(),
        value matches Json::Bool(b) ==> copy == Json::Bool(b),
        value is Null ==> copy is Null,
        value.member(name) is Some <==> copy.member(name) is Some,
        value.member(name) matches Some(v) ==> v.alike(copy.member(name).unwrap()),
        value matches Json::Array(items) ==> (copy matches Json::Array(others) && items@.len()
            == others@.len() && forall|i: int|
            0 <= i < items@.len() ==> #[trigger] items@[i].alike(others@[i])),
{
    if let (Json::Array(a), Json::Array(b)) = (value, copy) {
        lemma_items_alike(a@, b@);
    }
    if let (Json::Object(a), Json::Object(b)) = (value, copy) {
        lemma_members_alike(a@, b@, name);
    }
}

/// A list of texts, or of bytes, is written item by item.
pub proof fn law_lists(texts: Seq<String>, bytes: Seq<u8>)
    ensures
        json::text_models(texts).len() == texts.len(),
        forall|i: int|
            0 <= i < texts.len() ==> #[trigger] json::text_models(texts)[i] == JsonModel::Text(
                texts[i]@,
            ),
        json::byte_models(bytes).len() == bytes.len(),
        forall|i: int|
            0 <= i < bytes.len() ==> #[trigger] json::byte_models(bytes)[i] == JsonModel::Int(
                bytes[i] as int,
            ),
{
}

/// The plain values of a type are those of its fields, each whole.
pub proof fn law_views(reply: Reply, setting: Setting, server: IceServer, parts: OfferParts)
    ensures
        reply@.status == reply.status,
        reply@.body == reply.body@,
        setting@.name == setting.name@,
        setting@.attribute == setting.attribute@,
        server@.username == server.username@,
        server@.credential == server.credential@,
        server@.urls.len() == server.urls@.len(),
        forall|i: int|
            0 <= i < server.urls@.len() ==> #[trigger] server@.urls[i] == server.urls@[i]@,
        parts@.audio_mid == parts.audio_mid,
        parts@.video_mid == parts.video_mid,
        parts@.ufrag == parts.ufrag@,
        parts@.pwd == parts.pwd@,
        parts@.fingerprint == parts.fingerprint@,
        parts@.setup == parts.setup@,
        parts@.origin == parts.origin@,
        parts@.ssrc is Some <==> parts.ssrc is Some,
        parts.ssrc matches Some(t) ==> parts@.ssrc == Some(t@),
        parts@.cname is Some <==> parts.cname is Some,
        parts.cname matches Some(t) ==> parts@.cname == Some(t@),
{
}

} // verus!
