//! JSON values: the messages that are built and read, and their text.

use vstd::prelude::*;
use vstd::string::*;

use crate::text::same;

verus! {

/// A JSON value.
#[derive(Debug)]
pub enum Json {
    Null,
    Bool(bool),
    Int(i64),
    /// An integer that may be above the greatest `i64`.
    UInt(u64),
    /// A number that is not an integer, or too great for one, as `serde_json` holds it.
    Fraction(serde_json::Value),
    Text(String),
    Array(Vec<Json>),
    /// The members in order. Where a name stands twice, the later member counts.
    Object(Vec<(String, Json)>),
}

/// What a JSON value stands for.
pub enum JsonModel {
    Null,
    Bool(bool),
    Int(int),
    /// A number that is not an integer, by the text that `serde_json` writes for it.
    Fraction(Seq<char>),
    Text(Seq<char>),
    Array(Seq<JsonModel>),
    Object(Map<Seq<char>, JsonModel>),
}

/// The value that `serde_json::from_str` reads from a text, `Null` where it reads none.
pub uninterp spec fn read_value(t: Seq<char>) -> JsonModel;

/// The compact text that `serde_json` writes for a value.
pub uninterp spec fn json_text(m: JsonModel) -> Seq<char>;

/// What a `serde_json::Value` holds.
pub uninterp spec fn held(v: serde_json::Value) -> JsonModel;

/// The type `serde_json::Value`, whose contents `held` names.
#[verifier::external_type_specification]
#[verifier::external_body]
pub struct ExValue(serde_json::Value);

impl Json {
    pub open spec fn model(self) -> JsonModel
        decreases self,
    {
        match self {
            Json::Null => JsonModel::Null,
            Json::Bool(b) => JsonModel::Bool(b),
            Json::Int(i) => JsonModel::Int(i as int),
            Json::UInt(u) => JsonModel::Int(u as int),
            Json::Fraction(v) => held(v),
            Json::Text(t) => JsonModel::Text(t@),
            Json::Array(items) => JsonModel::Array(Self::item_models(items@)),
            Json::Object(members) => JsonModel::Object(Self::member_models(members@)),
        }
    }

    /// The models of the items of an array.
    pub open spec fn item_models(items: Seq<Json>) -> Seq<JsonModel>
        decreases items,
    {
        if items.len() == 0 {
            Seq::empty()
        } else {
            Self::item_models(items.drop_last()).push(items.last().model())
        }
    }

    /// The models of the members of an object, by name.
    pub open spec fn member_models(members: Seq<(String, Json)>) -> Map<Seq<char>, JsonModel>
        decreases members,
    {
        if members.len() == 0 {
            Map::empty()
        } else {
            Self::member_models(members.drop_last()).insert(
                members.last().0@,
                members.last().1.model(),
            )
        }
    }
}

impl Json {
    /// The two are the same, piece by piece; a number with a fraction by what it holds.
    pub open spec fn alike(self, other: Json) -> bool
        decreases self,
    {
        match (self, other) {
            (Json::Null, Json::Null) => true,
            (Json::Bool(a), Json::Bool(b)) => a == b,
            (Json::Int(a), Json::Int(b)) => a == b,
            (Json::UInt(a), Json::UInt(b)) => a == b,
            (Json::Fraction(a), Json::Fraction(b)) => held(a) == held(b),
            (Json::Text(a), Json::Text(b)) => a@ == b@,
            (Json::Array(a), Json::Array(b)) => Self::items_alike(a@, b@),
            (Json::Object(a), Json::Object(b)) => Self::members_alike(a@, b@),
            _ => false,
        }
    }

    /// The items of two arrays are the same, in order.
    pub open spec fn items_alike(a: Seq<Json>, b: Seq<Json>) -> bool
        decreases a,
    {
        a.len() == b.len() && (a.len() == 0 || Self::items_alike(a.drop_last(), b.drop_last())
            && a.last().alike(b.last()))
    }

    /// The members of two objects are the same, in order.
    pub open spec fn members_alike(a: Seq<(String, Json)>, b: Seq<(String, Json)>) -> bool
        decreases a,
    {
        a.len() == b.len() && (a.len() == 0 || Self::members_alike(a.drop_last(), b.drop_last())
            && a.last().0@ == b.last().0@ && a.last().1.alike(b.last().1))
    }
}

/// The value is an object, and holds `value` under `name`.
pub open spec fn holds(object: JsonModel, name: Seq<char>, value: JsonModel) -> bool {
    object matches JsonModel::Object(members) && members.dom().contains(name) && members[name]
        == value
}

/// The value is an object, and `names` are the names of its members.
pub open spec fn has_names(object: JsonModel, names: Set<Seq<char>>) -> bool {
    object matches JsonModel::Object(members) && members.dom() == names
}

impl View for Json {
    type V = JsonModel;

    open spec fn view(&self) -> JsonModel {
        self.model()
    }
}

impl Clone for Json {
    fn clone(&self) -> (r: Json)
        ensures
            r@ == self@,
            r.int_of() == self.int_of(),
            r.text_of() == self.text_of(),
            self.alike(r),
    {
        self.copied()
    }
}

/// What the items of an array of `serde_json` hold.
pub open spec fn held_items(items: Seq<serde_json::Value>) -> Seq<JsonModel> {
    items.map_values(|v: serde_json::Value| held(v))
}

/// What the members of an object of `serde_json` hold, by name.
pub open spec fn held_members(members: Seq<(String, serde_json::Value)>) -> Map<
    Seq<char>,
    JsonModel,
>
    decreases members.len(),
{
    if members.len() == 0 {
        Map::empty()
    } else {
        held_members(members.drop_last()).insert(members.last().0@, held(members.last().1))
    }
}

/// Wraps `serde_json::Value::Null`.
#[verifier::external_body]
fn null_value() -> (v: serde_json::Value)
    ensures
        held(v) == JsonModel::Null,
{
    serde_json::Value::Null
}

/// Wraps `serde_json::Value::from` for a `bool`: the value is that boolean.
#[verifier::external_body]
fn bool_value(b: bool) -> (v: serde_json::Value)
    ensures
        held(v) == JsonModel::Bool(b),
{
    serde_json::Value::from(b)
}

/// Wraps `serde_json::Value::from` for an `i64`: the value is that integer.
#[verifier::external_body]
fn i64_value(n: i64) -> (v: serde_json::Value)
    ensures
        held(v) == JsonModel::Int(n as int),
{
    serde_json::Value::from(n)
}

/// Wraps `serde_json::Value::from` for a `u64`: the value is that integer.
#[verifier::external_body]
fn u64_value(n: u64) -> (v: serde_json::Value)
    ensures
        held(v) == JsonModel::Int(n as int),
{
    serde_json::Value::from(n)
}

/// Wraps `serde_json::Value::from` for a `String`: the value is that text.
#[verifier::external_body]
fn text_value(t: String) -> (v: serde_json::Value)
    ensures
        held(v) == JsonModel::Text(t@),
{
    serde_json::Value::from(t)
}

/// Wraps `serde_json::from_str` into a `Value`. What it reads is named `read_value`; a text that
/// it refuses gives `Null`. The text `0.0` gives the number that is written so again.
#[verifier::external_body]
fn value_read(t: &str) -> (v: serde_json::Value)
    ensures
        held(v) == read_value(t@),
        t@ == "0.0"@ ==> held(v) == JsonModel::Fraction("0.0"@),
{
    serde_json::from_str(t).unwrap_or_default()
}

/// Wraps `Clone::clone` of a `serde_json::Value`: the copy holds the same.
#[verifier::external_body]
fn value_copy(v: &serde_json::Value) -> (r: serde_json::Value)
    ensures
        held(r) == held(*v),
{
    v.clone()
}

/// Wraps `serde_json::Value::from` for a `Vec<Value>`: the value is the array of those items.
#[verifier::external_body]
fn array_value(items: Vec<serde_json::Value>) -> (v: serde_json::Value)
    ensures
        held(v) == JsonModel::Array(held_items(items@)),
{
    serde_json::Value::from(items)
}

/// Wraps `serde_json::Value::from_iter` for names and values: the value is the object with those
/// members. Nothing is known of it where a name stands twice, so that is left out.
#[verifier::external_body]
fn object_value(members: Vec<(String, serde_json::Value)>) -> (v: serde_json::Value)
    requires
        forall|i: int, j: int|
            0 <= i < j < members@.len() ==> #[trigger] members@[i].0@ != #[trigger] members@[j].0@,
    ensures
        held(v) == JsonModel::Object(held_members(members@)),
{
    serde_json::Value::from_iter(members)
}

/// Wraps `to_string` of a `serde_json::Value`. The compact text that it writes is named
/// `json_text`.
#[verifier::external_body]
fn value_text(v: &serde_json::Value) -> (t: String)
    ensures
        t@ == json_text(held(*v)),
{
    v.to_string()
}

/// The name stands at position `i` or later.
pub open spec fn named_from(members: Seq<(String, Json)>, i: int, name: Seq<char>) -> bool {
    exists|j: int| i <= j < members.len() && #[trigger] members[j].0@ == name
}

/// Two maps agree on a name.
pub open spec fn same_at(
    a: Map<Seq<char>, JsonModel>,
    b: Map<Seq<char>, JsonModel>,
    name: Seq<char>,
) -> bool {
    &&& a.dom().contains(name) == b.dom().contains(name)
    &&& a.dom().contains(name) ==> a[name] == b[name]
}

/// A name that stands at position `i` or later stands at `i`, or later.
proof fn lemma_named_from(members: Seq<(String, Json)>, i: int)
    requires
        0 <= i < members.len(),
    ensures
        forall|name: Seq<char>| #[trigger]
            named_from(members, i, name) <==> members[i].0@ == name || named_from(
                members,
                i + 1,
                name,
            ),
        forall|name: Seq<char>| #[trigger]
            named_from(members, i + 1, name) ==> named_from(members, i, name),
{
    assert forall|name: Seq<char>| #[trigger]
        named_from(members, i, name) <==> members[i].0@ == name || named_from(
            members,
            i + 1,
            name,
        ) by {
        if named_from(members, i, name) {
            let j = choose|j: int| i <= j < members.len() && #[trigger] members[j].0@ == name;
            if j > i {
                assert(members[j].0@ == name);
            }
        }
        if named_from(members, i + 1, name) {
            let j = choose|j: int| i + 1 <= j < members.len() && #[trigger] members[j].0@ == name;
            assert(members[j].0@ == name);
        }
    }
}

/// Whether the name stands at position `i` or later.
fn stands_from(members: &Vec<(String, Json)>, i: usize, name: &str) -> (r: bool)
    ensures
        r == named_from(members@, i as int, name@),
{
    let mut k: usize = i;
    while k < members.len()
        invariant
            i <= k,
            forall|j: int| i <= j < k && j < members@.len() ==> #[trigger] members@[j].0@ != name@,
        decreases members.len() - k,
    {
        if same(members[k].0.as_str(), name) {
            assert(members@[k as int].0@ == name@);
            return true;
        }
        k += 1;
    }
    false
}

impl Json {
    /// The value as one of `serde_json`. Where a name stands twice in an object, only the later
    /// member is handed over.
    fn to_value(&self) -> (v: serde_json::Value)
        ensures
            held(v) == self@,
        decreases self,
    {
        match self {
            Json::Null => null_value(),
            Json::Bool(b) => bool_value(*b),
            Json::Int(n) => i64_value(*n),
            Json::UInt(n) => u64_value(*n),
            Json::Fraction(v) => value_copy(v),
            Json::Text(t) => text_value(t.clone()),
            Json::Array(items) => {
                let mut out: Vec<serde_json::Value> = Vec::new();
                let mut i: usize = 0;
                while i < items.len()
                    invariant
                        i <= items.len(),
                        decreases_to!(self => items),
                        held_items(out@) == Self::item_models(items@.take(i as int)),
                    decreases items.len() - i,
                {
                    assert(decreases_to!(items@ => items@[i as int]));
                    let v = items[i].to_value();
                    out.push(v);
                    i += 1;
                    assert(items@.take(i as int).drop_last() =~= items@.take(i - 1));
                    assert(held_items(out@) =~= Self::item_models(items@.take(i as int)));
                }
                assert(items@.take(i as int) =~= items@);
                array_value(out)
            },
            Json::Object(members) => {
                let mut out: Vec<(String, serde_json::Value)> = Vec::new();
                let mut i: usize = 0;
                assert(Self::member_models(members@.take(0)) =~= held_members(out@));
                while i < members.len()
                    invariant
                        i <= members.len(),
                        decreases_to!(self => members),
                        forall|a: int, b: int|
                            0 <= a < b < out@.len() ==> #[trigger] out@[a].0@
                                != #[trigger] out@[b].0@,
                        forall|a: int|
                            0 <= a < out@.len() ==> !named_from(
                                members@,
                                i as int,
                                #[trigger] out@[a].0@,
                            ),
                        forall|name: Seq<char>|
                            !(#[trigger] named_from(members@, i as int, name)) ==> same_at(
                                held_members(out@),
                                Self::member_models(members@.take(i as int)),
                                name,
                            ),
                    decreases members.len() - i,
                {
                    let ghost before = out@;
                    let ghost name = members@[i as int].0@;
                    assert(decreases_to!(members@ => members@[i as int]));
                    assert(members@.take(i + 1).drop_last() =~= members@.take(i as int));
                    assert(named_from(members@, i as int, name)) by {
                        assert(members@[i as int].0@ == name);
                    }
                    proof {
                        lemma_named_from(members@, i as int);
                    }
                    if !stands_from(members, i + 1, members[i].0.as_str()) {
                        let v = members[i].1.to_value();
                        out.push((members[i].0.clone(), v));
                        assert(out@.drop_last() =~= before);
                    }
                    assert forall|n: Seq<char>|
                        !(#[trigger] named_from(members@, i + 1, n)) implies same_at(
                        held_members(out@),
                        Self::member_models(members@.take(i + 1)),
                        n,
                    ) by {
                        if n != name {
                            assert(!named_from(members@, i as int, n));
                        }
                    }
                    i += 1;
                }
                assert(members@.take(i as int) =~= members@);
                assert(held_members(out@) =~= Self::member_models(members@)) by {
                    assert forall|n: Seq<char>| same_at(
                        held_members(out@),
                        Self::member_models(members@),
                        n,
                    ) by {
                        assert(!named_from(members@, i as int, n));
                    }
                    assert forall|n: Seq<char>|
                        #![trigger held_members(out@).dom().contains(n)]
                        held_members(out@).dom().contains(n) == Self::member_models(
                            members@,
                        ).dom().contains(n) by {
                        assert(same_at(held_members(out@), Self::member_models(members@), n));
                    }
                    assert forall|n: Seq<char>|
                        #![trigger held_members(out@)[n]]
                        held_members(out@).dom().contains(n) implies held_members(out@)[n]
                        == Self::member_models(members@)[n] by {
                        assert(same_at(held_members(out@), Self::member_models(members@), n));
                    }
                }
                object_value(out)
            },
        }
    }

    /// The same value again.
    fn copied(&self) -> (r: Json)
        ensures
            r@ == self@,
            r.int_of() == self.int_of(),
            r.text_of() == self.text_of(),
            self.alike(r),
        decreases self,
    {
        match self {
            Json::Null => Json::Null,
            Json::Bool(b) => Json::Bool(*b),
            Json::Int(n) => Json::Int(*n),
            Json::UInt(n) => Json::UInt(*n),
            Json::Fraction(v) => Json::Fraction(value_copy(v)),
            Json::Text(t) => Json::Text(t.clone()),
            Json::Array(items) => {
                let mut out: Vec<Json> = Vec::new();
                let mut i: usize = 0;
                while i < items.len()
                    invariant
                        i <= items.len(),
                        decreases_to!(self => items),
                        Self::item_models(out@) == Self::item_models(items@.take(i as int)),
                        Self::items_alike(items@.take(i as int), out@),
                    decreases items.len() - i,
                {
                    assert(decreases_to!(items@ => items@[i as int]));
                    let ghost before = out@;
                    out.push(items[i].copied());
                    i += 1;
                    assert(out@.drop_last() =~= before);
                    assert(items@.take(i as int).drop_last() =~= items@.take(i - 1));
                }
                assert(items@.take(i as int) =~= items@);
                Json::Array(out)
            },
            Json::Object(members) => {
                let mut out: Vec<(String, Json)> = Vec::new();
                let mut i: usize = 0;
                while i < members.len()
                    invariant
                        i <= members.len(),
                        decreases_to!(self => members),
                        Self::member_models(out@) == Self::member_models(members@.take(i as int)),
                        Self::members_alike(members@.take(i as int), out@),
                    decreases members.len() - i,
                {
                    assert(decreases_to!(members@ => members@[i as int]));
                    let ghost before = out@;
                    out.push((members[i].0.clone(), members[i].1.copied()));
                    i += 1;
                    assert(out@.drop_last() =~= before);
                    assert(members@.take(i as int).drop_last() =~= members@.take(i - 1));
                }
                assert(members@.take(i as int) =~= members@);
                Json::Object(out)
            },
        }
    }

    /// The compact text of the value.
    pub fn to_text(&self) -> (t: String)
        ensures
            t@ == json_text(self@),
    {
        value_text(&self.to_value())
    }
}

impl Json {
    /// The object without members.
    pub fn object() -> (r: Json)
        ensures
            r is Object,
            r@ == JsonModel::Object(Map::empty()),
    {
        let members: Vec<(String, Json)> = Vec::new();
        assert(Self::member_models(members@) =~= Map::empty());
        Json::Object(members)
    }

    /// The object with one member more. A member that had the name before no longer counts.
    pub fn with(self, name: &str, value: Json) -> (r: Json)
        requires
            self is Object,
        ensures
            r is Object,
            r@ == JsonModel::Object(self@->Object_0.insert(name@, value@)),
    {
        match self {
            Json::Object(mut members) => {
                let ghost before = members@;
                members.push((name.to_owned(), value));
                assert(members@.drop_last() =~= before);
                Json::Object(members)
            },
            other => other,
        }
    }

    /// The number zero as one with a fraction.
    pub fn zero() -> (r: Json)
        ensures
            r@ == JsonModel::Fraction("0.0"@),
    {
        Json::Fraction(value_read("0.0"))
    }

    /// A text as a JSON value.
    pub fn text(t: &str) -> (r: Json)
        ensures
            r@ == JsonModel::Text(t@),
    {
        Json::Text(t.to_owned())
    }

    /// An array of texts.
    pub fn texts(items: &Vec<String>) -> (r: Json)
        ensures
            r@ == JsonModel::Array(text_models(items@)),
    {
        let mut out: Vec<Json> = Vec::new();
        let mut i: usize = 0;
        assert(Self::item_models(out@) =~= text_models(items@.take(0)));
        while i < items.len()
            invariant
                i <= items.len(),
                Self::item_models(out@) == text_models(items@.take(i as int)),
            decreases items.len() - i,
        {
            let ghost before = out@;
            let item = Json::Text(items[i].clone());
            assert(item@ == JsonModel::Text(items@[i as int]@));
            out.push(item);
            assert(out@.drop_last() =~= before);
            i += 1;
            assert(Self::item_models(out@) =~= text_models(items@.take(i as int)));
        }
        assert(items@.take(i as int) =~= items@);
        Json::Array(out)
    }

    /// An array of bytes.
    pub fn bytes(items: &[u8]) -> (r: Json)
        ensures
            r@ == JsonModel::Array(byte_models(items@)),
    {
        let mut out: Vec<Json> = Vec::new();
        let mut i: usize = 0;
        assert(Self::item_models(out@) =~= byte_models(items@.take(0)));
        while i < items.len()
            invariant
                i <= items.len(),
                Self::item_models(out@) == byte_models(items@.take(i as int)),
            decreases items.len() - i,
        {
            let ghost before = out@;
            let item = Json::Int(items[i] as i64);
            assert(item@ == JsonModel::Int(items@[i as int] as int));
            out.push(item);
            assert(out@.drop_last() =~= before);
            i += 1;
            assert(Self::item_models(out@) =~= byte_models(items@.take(i as int)));
        }
        assert(items@.take(i as int) =~= items@);
        Json::Array(out)
    }

    /// The array with one item more.
    pub fn and(self, item: Json) -> (r: Json)
        requires
            self is Array,
        ensures
            r is Array,
            r@ == JsonModel::Array(self@->Array_0.push(item@)),
    {
        match self {
            Json::Array(mut items) => {
                let ghost before = items@;
                items.push(item);
                assert(items@.drop_last() =~= before);
                Json::Array(items)
            },
            other => other,
        }
    }

    /// The array without items.
    pub fn array() -> (r: Json)
        ensures
            r is Array,
            r@ == JsonModel::Array(Seq::empty()),
    {
        Json::Array(Vec::new())
    }
}

/// The models of an array of texts.
pub open spec fn text_models(items: Seq<String>) -> Seq<JsonModel> {
    items.map_values(|t: String| JsonModel::Text(t@))
}

/// The models of an array of bytes.
pub open spec fn byte_models(items: Seq<u8>) -> Seq<JsonModel> {
    items.map_values(|b: u8| JsonModel::Int(b as int))
}

/// The last of `members` that has the name `name`.
pub open spec fn last_named(members: Seq<(String, Json)>, name: Seq<char>) -> Option<Json>
    decreases members.len(),
{
    if members.len() == 0 {
        None
    } else if members.last().0@ == name {
        Some(members.last().1)
    } else {
        last_named(members.drop_last(), name)
    }
}

impl Json {
    /// The member of an object that has the name `name`.
    pub open spec fn member(self, name: Seq<char>) -> Option<Json> {
        match self {
            Json::Object(members) => last_named(members@, name),
            _ => None,
        }
    }

    /// The text that the value is.
    pub open spec fn text_of(self) -> Option<Seq<char>> {
        match self {
            Json::Text(t) => Some(t@),
            _ => None,
        }
    }

    /// The integer that the value is, where an `i64` can hold it.
    pub open spec fn int_of(self) -> Option<i64> {
        match self {
            Json::Int(n) => Some(n),
            Json::UInt(n) => if n <= i64::MAX {
                Some(n as i64)
            } else {
                None
            },
            _ => None,
        }
    }

    /// The member that has the name `name`; none where the value is no object.
    pub fn get(&self, name: &str) -> (r: Option<&Json>)
        ensures
            match r {
                Some(v) => self.member(name@) == Some(*v),
                None => self.member(name@) is None,
            },
    {
        match self {
            Json::Object(members) => {
                let mut i: usize = members.len();
                assert(members@.take(i as int) =~= members@);
                while i > 0
                    invariant
                        i <= members.len(),
                        self.member(name@) == last_named(members@.take(i as int), name@),
                    decreases i,
                {
                    assert(members@.take(i as int).drop_last() =~= members@.take(i - 1));
                    if same(members[i - 1].0.as_str(), name) {
                        return Some(&members[i - 1].1);
                    }
                    i -= 1;
                }
                None
            },
            _ => None,
        }
    }

    /// The text that the value is.
    pub fn as_text(&self) -> (r: Option<&str>)
        ensures
            match r {
                Some(t) => self.text_of() == Some(t@),
                None => self.text_of() is None,
            },
    {
        match self {
            Json::Text(t) => Some(t.as_str()),
            _ => None,
        }
    }

    /// The integer that the value is, where an `i64` can hold it.
    pub fn as_int(&self) -> (r: Option<i64>)
        ensures
            r == self.int_of(),
    {
        match self {
            Json::Int(n) => Some(*n),
            Json::UInt(n) => if *n <= i64::MAX as u64 {
                Some(*n as i64)
            } else {
                None
            },
            _ => None,
        }
    }
}

/// The last member with a name is the one that counts, and there is one exactly where one counts.
proof fn lemma_last_named(members: Seq<(String, Json)>, name: Seq<char>)
    ensures
        match last_named(members, name) {
            Some(v) => Json::member_models(members).dom().contains(name) && Json::member_models(
                members,
            )[name] == v@,
            None => !Json::member_models(members).dom().contains(name),
        },
    decreases members.len(),
{
    if members.len() > 0 {
        lemma_last_named(members.drop_last(), name);
    }
}

/// The member that is found in an object is the one that the object holds under that name, and
/// one is found exactly where the object holds one.
pub proof fn law_member_held(object: Json, name: Seq<char>)
    requires
        object is Object,
    ensures
        match object.member(name) {
            Some(v) => object@->Object_0.dom().contains(name) && object@->Object_0[name] == v@,
            None => !object@->Object_0.dom().contains(name),
        },
{
    lemma_last_named(object->Object_0@, name);
}

/// Reading the member that was written gives back what was written, and under another name there
/// is what there was before. `after` is `before` with the member more.
pub proof fn law_written_is_read(
    before: Json,
    name: Seq<char>,
    value: JsonModel,
    after: Json,
    other: Seq<char>,
)
    requires
        before is Object,
        after is Object,
        after@ == JsonModel::Object(before@->Object_0.insert(name, value)),
        other != name,
    ensures
        after.member(name) matches Some(v) && v@ == value,
        match before.member(other) {
            Some(v) => after.member(other) matches Some(w) && w@ == v@,
            None => after.member(other) is None,
        },
{
    law_member_held(after, name);
    law_member_held(after, other);
    law_member_held(before, other);
}

} // verus!
