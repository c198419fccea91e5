//! JSON values as plain data, read and written with `serde_json`.
use serde_json::Value;
use vstd::prelude::*;
use vstd::utf8::{decode_utf8, valid_utf8};

use crate::text::same_text;

verus! {

/// A JSON value. A number is kept as its text, an object as its members in order.
#[derive(Debug)]
pub enum Json {
    Null,
    Bool(bool),
    Number(String),
    Text(String),
    Array(Vec<Json>),
    Object(Vec<(String, Json)>),
}

/// What a JSON value is, over characters and sequences.
pub enum JsonView {
    Null,
    Bool(bool),
    Number(Seq<char>),
    Text(Seq<char>),
    Array(Seq<JsonView>),
    Object(Seq<(Seq<char>, JsonView)>),
}

/// The view of a JSON value, members and items included.
pub open spec fn json_view(json: Json) -> JsonView
    decreases json,
{
    match json {
        Json::Null => JsonView::Null,
        Json::Bool(flag) => JsonView::Bool(flag),
        Json::Number(digits) => JsonView::Number(digits@),
        Json::Text(text) => JsonView::Text(text@),
        Json::Array(items) => JsonView::Array(
            Seq::new(
                items@.len(),
                |i: int|
                    if 0 <= i < items@.len() {
                        json_view(items@[i])
                    } else {
                        JsonView::Null
                    },
            ),
        ),
        Json::Object(members) => JsonView::Object(
            Seq::new(
                members@.len(),
                |i: int|
                    if 0 <= i < members@.len() {
                        (members@[i].0@, json_view(members@[i].1))
                    } else {
                        (Seq::empty(), JsonView::Null)
                    },
            ),
        ),
    }
}

impl View for Json {
    type V = JsonView;

    open spec fn view(&self) -> JsonView {
        json_view(*self)
    }
}

/// The views of a list of items.
pub open spec fn items_view(items: Seq<Json>) -> Seq<JsonView> {
    items.map_values(|item: Json| item@)
}

/// The views of a list of members.
pub open spec fn members_view(members: Seq<(String, Json)>) -> Seq<(Seq<char>, JsonView)> {
    members.map_values(|member: (String, Json)| (member.0@, member.1@))
}

/// The view of an array or an object, by the views of what it holds.
pub broadcast proof fn lemma_json_view(json: Json)
    ensures
        json matches Json::Array(items) ==> #[trigger] json_view(json) == JsonView::Array(
            items_view(items@),
        ),
        json matches Json::Object(members) ==> json_view(json) == JsonView::Object(
            members_view(members@),
        ),
{
    match json {
        Json::Array(items) => {
            assert(json_view(json)->Array_0 =~= items_view(items@));
        },
        Json::Object(members) => {
            assert(json_view(json)->Object_0 =~= members_view(members@));
        },
        _ => {},
    }
}

/// An array is larger than each of its items, an object than the value of each of its members.
proof fn lemma_smaller(json: JsonView, i: int)
    ensures
        json is Array && 0 <= i < json->Array_0.len() ==> decreases_to!(json => json->Array_0[i]),
        json is Object && 0 <= i < json->Object_0.len() ==> decreases_to!(
            json => json->Object_0[i].1
        ),
{
    match json {
        JsonView::Array(items) => {
            if 0 <= i < items.len() {
                assert(decreases_to!(json => json->Array_0));
                assert(decreases_to!(items => items[i]));
            }
        },
        JsonView::Object(members) => {
            if 0 <= i < members.len() {
                assert(decreases_to!(json => json->Object_0));
                assert(decreases_to!(members => members[i]));
                assert(decreases_to!(members[i] => members[i].1));
            }
        },
        _ => {},
    }
}

/// The value of the first member called `key`.
pub open spec fn find_member(members: Seq<(Seq<char>, JsonView)>, key: Seq<char>) -> Option<JsonView>
    decreases members.len(),
{
    if members.len() == 0 {
        None
    } else if members[0].0 == key {
        Some(members[0].1)
    } else {
        find_member(members.drop_first(), key)
    }
}

/// The member called `key`; only an object has members.
pub open spec fn member(json: JsonView, key: Seq<char>) -> Option<JsonView> {
    match json {
        JsonView::Object(members) => find_member(members, key),
        _ => None,
    }
}

/// The text of the member called `key`, if there is one and it is a text.
pub open spec fn member_text(json: JsonView, key: Seq<char>) -> Option<Seq<char>> {
    match member(json, key) {
        Some(JsonView::Text(text)) => Some(text),
        _ => None,
    }
}

/// The items of the member called `key`, if there is one and it is an array.
pub open spec fn member_items(json: JsonView, key: Seq<char>) -> Option<Seq<JsonView>> {
    match member(json, key) {
        Some(JsonView::Array(items)) => Some(items),
        _ => None,
    }
}

impl Json {
    /// The member called `key`.
    pub fn get(&self, key: &str) -> (found: Option<&Json>)
        ensures
            match found {
                Some(value) => member(self@, key@) == Some(value@),
                None => member(self@, key@) is None,
            },
    {
        broadcast use lemma_json_view;

        match self {
            Json::Object(members) => {
                let ghost all = members_view(members@);
                let mut i: usize = 0;
                assert(all.skip(0) =~= all);
                while i < members.len()
                    invariant
                        i <= members@.len(),
                        all == members_view(members@),
                        self@ == JsonView::Object(all),
                        find_member(all.skip(i as int), key@) == find_member(all, key@),
                    decreases members@.len() - i,
                {
                    let entry = &members[i];
                    assert(all.skip(i as int)[0] == (entry.0@, entry.1@));
                    assert(all.skip(i as int).drop_first() =~= all.skip(i + 1));
                    if same_text(entry.0.as_str(), key) {
                        return Some(&entry.1);
                    }
                    i = i + 1;
                }
                None
            },
            _ => None,
        }
    }

    /// The text of the member called `key`.
    pub fn get_text(&self, key: &str) -> (found: Option<&String>)
        ensures
            match found {
                Some(text) => member_text(self@, key@) == Some(text@),
                None => member_text(self@, key@) is None,
            },
    {
        match self.get(key) {
            Some(Json::Text(text)) => Some(text),
            _ => None,
        }
    }

    /// The items of the member called `key`.
    pub fn get_items(&self, key: &str) -> (found: Option<&Vec<Json>>)
        ensures
            match found {
                Some(items) => member_items(self@, key@) == Some(items_view(items@)),
                None => member_items(self@, key@) is None,
            },
    {
        broadcast use lemma_json_view;

        match self.get(key) {
            Some(Json::Array(items)) => Some(items),
            _ => None,
        }
    }
}

/// Whether `c` is a decimal digit.
pub open spec fn decimal_digit(c: char) -> bool {
    '0' <= c <= '9'
}

/// A number text that `serde_json` reads and displays unchanged: a whole number of at most
/// nineteen digits without leading zeros, or one digit, a point and one digit other than zero.
pub open spec fn plain_number(digits: Seq<char>) -> bool {
    ||| {
        &&& 1 <= digits.len() <= 19
        &&& forall|i: int| 0 <= i < digits.len() ==> decimal_digit(#[trigger] digits[i])
        &&& digits.len() > 1 ==> digits[0] != '0'
    }
    ||| {
        &&& digits.len() == 3
        &&& decimal_digit(digits[0])
        &&& digits[1] == '.'
        &&& decimal_digit(digits[2])
        &&& digits[2] != '0'
    }
}

/// Members of which no two have the same key.
pub open spec fn distinct_keys(members: Seq<(Seq<char>, JsonView)>) -> bool {
    forall|i: int, j: int|
        0 <= i < j < members.len() ==> (#[trigger] members[i]).0 != (#[trigger] members[j]).0
}

/// Members that an object can be written with.
pub open spec fn writable_members(members: Seq<(Seq<char>, JsonView)>) -> bool {
    &&& distinct_keys(members)
    &&& forall|i: int| 0 <= i < members.len() ==> writable((#[trigger] members[i]).1)
}

/// Members of which none is called `key`.
pub open spec fn no_member_called(members: Seq<(Seq<char>, JsonView)>, key: Seq<char>) -> bool {
    forall|i: int| 0 <= i < members.len() ==> (#[trigger] members[i]).0 != key
}

/// A JSON value that can be written: its numbers are plain and its objects repeat no key.
pub open spec fn writable(json: JsonView) -> bool
    decreases json,
{
    match json {
        JsonView::Number(digits) => plain_number(digits),
        JsonView::Array(items) => forall|i: int|
            0 <= i < items.len() ==> writable(#[trigger] items[i]),
        JsonView::Object(members) => distinct_keys(members) && forall|i: int|
            0 <= i < members.len() ==> writable((#[trigger] members[i]).1),
        _ => true,
    }
}

/// A JSON value that is nested at most `levels` deep, with no key that starts with a dollar sign.
/// `serde_json` limits how deep it reads, and keeps such keys for its own use.
pub open spec fn reads_back(json: JsonView, levels: nat) -> bool
    decreases levels,
{
    match json {
        JsonView::Array(items) => levels > 0 && forall|i: int|
            0 <= i < items.len() ==> reads_back(#[trigger] items[i], (levels - 1) as nat),
        JsonView::Object(members) => levels > 0 && forall|i: int|
            0 <= i < members.len() ==> plain_key((#[trigger] members[i]).0) && reads_back(
                members[i].1,
                (levels - 1) as nat,
            ),
        _ => true,
    }
}

/// A key that does not start with a dollar sign.
pub open spec fn plain_key(key: Seq<char>) -> bool {
    key.len() > 0 ==> key[0] != '$'
}

/// The levels of nesting that a text can be read back with.
pub const MAX_LEVELS: u8 = 100;

/// Adds a member at the end of an object under construction.
pub fn put(members: &mut Vec<(String, Json)>, key: &str, value: Json)
    ensures
        members_view(final(members)@) == members_view(old(members)@).push((key@, value@)),
        writable_members(members_view(old(members)@)) && writable(value@) && no_member_called(
            members_view(old(members)@),
            key@,
        ) ==> writable_members(members_view(final(members)@)),
{
    members.push((key.to_owned(), value));
    assert(members_view(members@) =~= members_view(old(members)@).push((key@, value@)));
}

/// Adds a text member at the end of an object under construction.
pub fn put_text(members: &mut Vec<(String, Json)>, key: &str, text: &str)
    ensures
        members_view(final(members)@) == members_view(old(members)@).push(
            (key@, JsonView::Text(text@)),
        ),
        writable_members(members_view(old(members)@)) && no_member_called(
            members_view(old(members)@),
            key@,
        ) ==> writable_members(members_view(final(members)@)),
{
    put(members, key, Json::Text(text.to_owned()));
}

/// An object without members, to be built up.
pub fn no_members() -> (members: Vec<(String, Json)>)
    ensures
        members_view(members@) == Seq::<(Seq<char>, JsonView)>::empty(),
{
    let members: Vec<(String, Json)> = Vec::new();
    assert(members_view(members@) =~= Seq::<(Seq<char>, JsonView)>::empty());
    members
}

/// The object with the given members.
pub fn object(members: Vec<(String, Json)>) -> (json: Json)
    ensures
        json@ == JsonView::Object(members_view(members@)),
        writable(json@) == writable_members(members_view(members@)),
{
    broadcast use lemma_json_view;

    Json::Object(members)
}

/// The array with a single item.
pub fn singleton(item: Json) -> (json: Json)
    ensures
        json@ == JsonView::Array(seq![item@]),
        writable(item@) ==> writable(json@),
{
    broadcast use lemma_json_view;

    let mut items: Vec<Json> = Vec::new();
    items.push(item);
    let ghost contents = items_view(items@);
    assert(contents =~= seq![item@]);
    assert(contents[0] == item@);
    assert(writable(item@) ==> writable(JsonView::Array(contents)));
    Json::Array(items)
}

/// `serde_json::Value`, the tree that `serde_json` reads and writes.
#[verifier::external_type_specification]
#[verifier::external_body]
pub struct ExValue(serde_json::Value);

/// What a `serde_json::Value` holds: its variant, a number by the text that it displays as, the
/// members of an object in the order in which its map walks them.
pub uninterp spec fn value_contents(value: serde_json::Value) -> JsonView;

/// What `serde_json::from_str::<Value>` makes of a text; `None` where it reports an error.
pub uninterp spec fn parsed_json(text: Seq<char>) -> Option<JsonView>;

/// What bytes hold: the JSON text that they encode in UTF-8, if they do.
pub open spec fn parsed_bytes(bytes: Seq<u8>) -> Option<JsonView> {
    if valid_utf8(bytes) {
        parsed_json(decode_utf8(bytes))
    } else {
        None
    }
}

/// The compact text that a `serde_json::Value` with these contents displays as.
pub uninterp spec fn json_text(json: JsonView) -> Seq<char>;

/// The outermost level of a `serde_json::Value`.
enum Layer<'a> {
    Null,
    Bool(bool),
    Number(String),
    Text(String),
    Array(&'a Vec<Value>),
    Object(Vec<(String, &'a Value)>),
}

/// What a value whose outermost level is `layer` holds.
spec fn layer_contents(layer: Layer) -> JsonView {
    match layer {
        Layer::Null => JsonView::Null,
        Layer::Bool(flag) => JsonView::Bool(flag),
        Layer::Number(digits) => JsonView::Number(digits@),
        Layer::Text(text) => JsonView::Text(text@),
        Layer::Array(items) => JsonView::Array(items@.map_values(|item: Value| value_contents(item))),
        Layer::Object(members) => JsonView::Object(
            members@.map_values(|m: (String, &Value)| (m.0@, value_contents(*m.1))),
        ),
    }
}

/// Opens a `serde_json::Value` by one level: tells its six variants apart and hands out the
/// fields, an object's members by `serde_json::Map::iter`, a number by its display.
#[verifier::external_body]
fn open_value<'a>(value: &'a Value) -> (layer: Layer<'a>)
    ensures
        layer_contents(layer) == value_contents(*value),
{
    match value {
        Value::Null => Layer::Null,
        Value::Bool(flag) => Layer::Bool(*flag),
        Value::Number(number) => Layer::Number(number.to_string()),
        Value::String(text) => Layer::Text(text.clone()),
        Value::Array(items) => Layer::Array(items),
        Value::Object(map) => Layer::Object(map.iter().map(|(k, v)| (k.clone(), v)).collect()),
    }
}

/// Calls `serde_json::from_str::<Value>`. The name `parsed_json` says which texts it accepts and
/// what the value then holds.
#[verifier::external_body]
fn parse_value(text: &str) -> (value: Option<Value>)
    ensures
        match value {
            Some(v) => parsed_json(text@) == Some(value_contents(v)),
            None => parsed_json(text@) is None,
        },
{
    serde_json::from_str::<Value>(text).ok()
}

/// Calls `serde_json::from_slice::<Value>`, which reads bytes as `from_str` reads the text that
/// they encode, and refuses bytes that are not UTF-8.
#[verifier::external_body]
fn parse_slice(bytes: &[u8]) -> (value: Option<Value>)
    ensures
        match value {
            Some(v) => parsed_bytes(bytes@) == Some(value_contents(v)),
            None => parsed_bytes(bytes@) is None,
        },
{
    serde_json::from_slice::<Value>(bytes).ok()
}

/// Copies a `serde_json::Value` into plain data.
fn from_value(value: &Value) -> (json: Json)
    ensures
        json@ == value_contents(*value),
    decreases value_contents(*value),
{
    broadcast use lemma_json_view;

    match open_value(value) {
        Layer::Null => Json::Null,
        Layer::Bool(flag) => Json::Bool(flag),
        Layer::Number(digits) => Json::Number(digits),
        Layer::Text(text) => Json::Text(text),
        Layer::Array(values) => {
            let ghost contents = values@.map_values(|item: Value| value_contents(item));
            let mut items: Vec<Json> = Vec::new();
            let mut i: usize = 0;
            while i < values.len()
                invariant
                    i <= values@.len(),
                    contents == values@.map_values(|item: Value| value_contents(item)),
                    value_contents(*value) == JsonView::Array(contents),
                    items_view(items@) == contents.take(i as int),
                decreases values@.len() - i,
            {
                assert(contents[i as int] == value_contents(values@[i as int]));
                proof {
                    lemma_smaller(value_contents(*value), i as int);
                }
                let ghost before = items@;
                items.push(from_value(&values[i]));
                assert(items_view(items@) =~= items_view(before).push(contents[i as int]));
                assert(contents.take(i + 1) =~= contents.take(i as int).push(contents[i as int]));
                i = i + 1;
            }
            assert(contents.take(i as int) =~= contents);
            Json::Array(items)
        },
        Layer::Object(values) => {
            let ghost contents = values@.map_values(
                |m: (String, &Value)| (m.0@, value_contents(*m.1)),
            );
            let mut members: Vec<(String, Json)> = Vec::new();
            let mut i: usize = 0;
            while i < values.len()
                invariant
                    i <= values@.len(),
                    contents == values@.map_values(
                        |m: (String, &Value)| (m.0@, value_contents(*m.1)),
                    ),
                    value_contents(*value) == JsonView::Object(contents),
                    members_view(members@) == contents.take(i as int),
                decreases values@.len() - i,
            {
                let entry = &values[i];
                assert(contents[i as int] == (entry.0@, value_contents(*entry.1)));
                proof {
                    lemma_smaller(value_contents(*value), i as int);
                }
                put(&mut members, entry.0.as_str(), from_value(entry.1));
                assert(contents.take(i + 1) =~= contents.take(i as int).push(contents[i as int]));
                i = i + 1;
            }
            assert(contents.take(i as int) =~= contents);
            Json::Object(members)
        },
    }
}

/// Reads a JSON text.
pub fn parse_json(text: &str) -> (json: Option<Json>)
    ensures
        match json {
            Some(j) => parsed_json(text@) == Some(j@),
            None => parsed_json(text@) is None,
        },
{
    match parse_value(text) {
        Some(value) => Some(from_value(&value)),
        None => None,
    }
}

/// Reads the JSON text that bytes encode.
pub fn parse_json_bytes(bytes: &[u8]) -> (json: Option<Json>)
    ensures
        match json {
            Some(j) => parsed_bytes(bytes@) == Some(j@),
            None => parsed_bytes(bytes@) is None,
        },
{
    match parse_slice(bytes) {
        Some(value) => Some(from_value(&value)),
        None => None,
    }
}

/// The pieces from which a `serde_json::Value` other than a number is put together.
enum Parts {
    Null,
    Bool(bool),
    Text(String),
    Array(Vec<Value>),
    Object(Vec<(String, Value)>),
}

/// What a value that is put together from `parts` holds.
spec fn parts_contents(parts: Parts) -> JsonView {
    match parts {
        Parts::Null => JsonView::Null,
        Parts::Bool(flag) => JsonView::Bool(flag),
        Parts::Text(text) => JsonView::Text(text@),
        Parts::Array(items) => JsonView::Array(items@.map_values(|item: Value| value_contents(item))),
        Parts::Object(members) => JsonView::Object(
            members@.map_values(|m: (String, Value)| (m.0@, value_contents(m.1))),
        ),
    }
}

/// Puts a `serde_json::Value` together: one variant for each kind of parts, an object's map
/// collected from its members. The map keeps the order in which members come in (the feature
/// `preserve_order`), and drops none of them as long as no key comes twice.
#[verifier::external_body]
fn make_value(parts: Parts) -> (value: Value)
    requires
        parts_contents(parts) matches JsonView::Object(members) ==> distinct_keys(members),
    ensures
        value_contents(value) == parts_contents(parts),
{
    match parts {
        Parts::Null => Value::Null,
        Parts::Bool(flag) => Value::Bool(flag),
        Parts::Text(text) => Value::String(text),
        Parts::Array(items) => Value::Array(items),
        Parts::Object(members) => Value::Object(members.into_iter().collect()),
    }
}

/// Reads a plain number with the `FromStr` of `serde_json::Number`, which accepts it and
/// displays it as the same text.
#[verifier::external_body]
fn number_value(digits: &str) -> (value: Value)
    requires
        plain_number(digits@),
    ensures
        value_contents(value) == JsonView::Number(digits@),
{
    Value::Number(digits.parse().unwrap())
}

/// Calls `to_string` of `serde_json::Value`, that is its compact display. The name `json_text`
/// says what comes out. `serde_json::from_str` reads the text back as the same value, unless it is
/// nested too deep, has a number that is not plain or a key that is reserved.
#[verifier::external_body]
fn value_text(value: &Value) -> (text: String)
    ensures
        text@ == json_text(value_contents(*value)),
        writable(value_contents(*value)) && reads_back(value_contents(*value), MAX_LEVELS as nat)
            ==> parsed_json(text@) == Some(value_contents(*value)),
{
    value.to_string()
}

/// Copies plain data into a `serde_json::Value`.
fn to_value(json: &Json) -> (value: Value)
    requires
        writable(json@),
    ensures
        value_contents(value) == json@,
    decreases *json,
{
    broadcast use lemma_json_view;

    match json {
        Json::Null => make_value(Parts::Null),
        Json::Bool(flag) => make_value(Parts::Bool(*flag)),
        Json::Number(digits) => number_value(digits.as_str()),
        Json::Text(text) => make_value(Parts::Text(text.clone())),
        Json::Array(items) => {
            let ghost contents = items_view(items@);
            assert(json@ == JsonView::Array(contents));
            assert forall|k: int| 0 <= k < contents.len() implies writable(#[trigger] contents[k]) by {
                assert(json@->Array_0[k] == contents[k]);
            }
            let mut values: Vec<Value> = Vec::new();
            let mut i: usize = 0;
            while i < items.len()
                invariant
                    i <= items@.len(),
                    *json == Json::Array(*items),
                    contents == items_view(items@),
                    forall|k: int| 0 <= k < contents.len() ==> writable(#[trigger] contents[k]),
                    values@.map_values(|item: Value| value_contents(item)) == contents.take(
                        i as int,
                    ),
                decreases items@.len() - i,
            {
                assert(contents[i as int] == items@[i as int]@);
                assert(decreases_to!(*json => (*json)->Array_0));
                assert(decreases_to!(items@ => items@[i as int]));
                let ghost before = values@.map_values(|item: Value| value_contents(item));
                values.push(to_value(&items[i]));
                assert(values@.map_values(|item: Value| value_contents(item)) =~= before.push(
                    contents[i as int],
                ));
                assert(contents.take(i + 1) =~= contents.take(i as int).push(contents[i as int]));
                i = i + 1;
            }
            assert(contents.take(i as int) =~= contents);
            make_value(Parts::Array(values))
        },
        Json::Object(members) => {
            let ghost contents = members_view(members@);
            assert(json@ == JsonView::Object(contents));
            let mut values: Vec<(String, Value)> = Vec::new();
            let mut i: usize = 0;
            while i < members.len()
                invariant
                    i <= members@.len(),
                    *json == Json::Object(*members),
                    contents == members_view(members@),
                    forall|k: int| 0 <= k < contents.len() ==> writable((#[trigger] contents[k]).1),
                    values@.map_values(|m: (String, Value)| (m.0@, value_contents(m.1)))
                        == contents.take(i as int),
                decreases members@.len() - i,
            {
                let entry = &members[i];
                assert(contents[i as int] == (entry.0@, entry.1@));
                assert(decreases_to!(*json => (*json)->Object_0));
                assert(decreases_to!(members@ => members@[i as int]));
                assert(decreases_to!(members@[i as int] => members@[i as int].1));
                let ghost before = values@.map_values(
                    |m: (String, Value)| (m.0@, value_contents(m.1)),
                );
                values.push((entry.0.clone(), to_value(&entry.1)));
                assert(values@.map_values(|m: (String, Value)| (m.0@, value_contents(m.1)))
                    =~= before.push(contents[i as int]));
                assert(contents.take(i + 1) =~= contents.take(i as int).push(contents[i as int]));
                i = i + 1;
            }
            assert(contents.take(i as int) =~= contents);
            make_value(Parts::Object(values))
        },
    }
}

/// Writes a JSON value as compact text.
pub fn render_json(json: &Json) -> (text: String)
    requires
        writable(json@),
    ensures
        text@ == json_text(json@),
        reads_back(json@, MAX_LEVELS as nat) ==> parsed_json(text@) == Some(json@),
{
    let value = to_value(json);
    value_text(&value)
}

/// The view of a JSON value keeps all that the value holds, in its order.
pub proof fn law_view_keeps_everything(json: Json)
    ensures
        match json {
            Json::Null => json@ == JsonView::Null,
            Json::Bool(flag) => json@ == JsonView::Bool(flag),
            Json::Number(digits) => json@ == JsonView::Number(digits@),
            Json::Text(text) => json@ == JsonView::Text(text@),
            Json::Array(items) => {
                &&& json@ is Array
                &&& json@->Array_0.len() == items@.len()
                &&& forall|i: int|
                    0 <= i < items@.len() ==> #[trigger] json@->Array_0[i] == items@[i]@
            },
            Json::Object(members) => {
                &&& json@ is Object
                &&& json@->Object_0.len() == members@.len()
                &&& forall|i: int|
                    0 <= i < members@.len() ==> (#[trigger] json@->Object_0[i]).0 == members@[i].0@
                        && json@->Object_0[i].1 == members@[i].1@
            },
        },
{
}

/// The views of lists keep what the lists hold, in its order.
pub proof fn law_list_views_keep_everything(items: Seq<Json>, members: Seq<(String, Json)>)
    ensures
        items_view(items).len() == items.len(),
        members_view(members).len() == members.len(),
        forall|i: int| 0 <= i < items.len() ==> #[trigger] items_view(items)[i] == items[i]@,
        forall|i: int|
            0 <= i < members.len() ==> (#[trigger] members_view(members)[i]).0 == members[i].0@
                && members_view(members)[i].1 == members[i].1@,
{
}

/// The first member with a key is the one that is found, wherever it stands.
pub proof fn law_first_member_is_found(members: Seq<(Seq<char>, JsonView)>, i: int)
    requires
        0 <= i < members.len(),
        forall|j: int| 0 <= j < i ==> (#[trigger] members[j]).0 != members[i].0,
    ensures
        member(JsonView::Object(members), members[i].0) == Some(members[i].1),
    decreases i,
{
    if i > 0 {
        assert(members[0].0 != members[i].0);
        let rest = members.drop_first();
        assert forall|j: int| 0 <= j < i - 1 implies (#[trigger] rest[j]).0 != rest[i - 1].0 by {
            assert(rest[j] == members[j + 1]);
        }
        law_first_member_is_found(rest, i - 1);
    }
}

/// No member is found where none has the key, nor in anything but an object.
pub proof fn law_missing_member_is_not_found(json: JsonView, key: Seq<char>)
    requires
        json matches JsonView::Object(members) ==> forall|i: int|
            0 <= i < members.len() ==> (#[trigger] members[i]).0 != key,
    ensures
        member(json, key) is None,
    decreases json->Object_0.len(),
{
    if json is Object && json->Object_0.len() > 0 {
        let members = json->Object_0;
        let rest = members.drop_first();
        assert(members[0].0 != key);
        assert forall|i: int| 0 <= i < rest.len() implies (#[trigger] rest[i]).0 != key by {
            assert(rest[i] == members[i + 1]);
        }
        law_missing_member_is_not_found(JsonView::Object(rest), key);
    }
}

/// A member is a text, or an array, where its value is one and not otherwise.
pub proof fn law_members_are_told_apart(
    json: JsonView,
    key: Seq<char>,
    text: Seq<char>,
    items: Seq<JsonView>,
)
    ensures
        member_text(json, key) == Some(text) <==> member(json, key) == Some(JsonView::Text(text)),
        member_items(json, key) == Some(items) <==> member(json, key) == Some(
            JsonView::Array(items),
        ),
        !(json is Object) ==> member(json, key) is None,
{
}

/// The member called `key` of a value that may be missing.
pub open spec fn within(outer: Option<JsonView>, key: Seq<char>) -> Option<JsonView> {
    match outer {
        Some(json) => member(json, key),
        None => None,
    }
}

/// How many members an object has that may be missing; nothing else has any.
pub open spec fn size(outer: Option<JsonView>) -> nat {
    match outer {
        Some(JsonView::Object(members)) => members.len(),
        _ => 0,
    }
}

} // verus!
