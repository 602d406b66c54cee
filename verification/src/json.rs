//! JSON values as the tool client reads and writes them.
//!
//! Reading and writing are both left to `serde_json`. A text is parsed there
//! and the value that comes back is copied, level by level, into [`Json`],
//! which is what the readers of answers work on. What is to be written is put
//! together as a `serde_json::Value`, level by level, and written by it.

use crate::decimal::decimal;
use crate::text::{chars_of, str_eq};
use vstd::prelude::*;

verus! {

/// A JSON value. An object keeps its members in order; a number is kept as
/// the text that writes it.
#[derive(Debug)]
pub enum Json {
    Null,
    Bool(bool),
    Number(String),
    Text(String),
    Array(Vec<Json>),
    Object(Vec<(String, Json)>),
}

/// A JSON value as plain values.
pub enum JsonValue {
    Null,
    Bool(bool),
    Number(Seq<char>),
    Text(Seq<char>),
    Array(Seq<JsonValue>),
    Object(Seq<(Seq<char>, JsonValue)>),
}

/// The plain value that a node stands for.
pub open spec fn tree(j: Json) -> JsonValue
    decreases j,
{
    match j {
        Json::Null => JsonValue::Null,
        Json::Bool(b) => JsonValue::Bool(b),
        Json::Number(n) => JsonValue::Number(n@),
        Json::Text(s) => JsonValue::Text(s@),
        Json::Array(items) => JsonValue::Array(
            Seq::new(
                items@.len(),
                |i: int|
                    if 0 <= i < items@.len() {
                        tree(items@[i])
                    } else {
                        JsonValue::Null
                    },
            ),
        ),
        Json::Object(members) => JsonValue::Object(
            Seq::new(
                members@.len(),
                |i: int|
                    if 0 <= i < members@.len() {
                        (members@[i].0@, tree(members@[i].1))
                    } else {
                        (Seq::empty(), JsonValue::Null)
                    },
            ),
        ),
    }
}

impl View for Json {
    type V = JsonValue;

    open spec fn view(&self) -> JsonValue {
        tree(*self)
    }
}

/// The values that a sequence of nodes stands for.
pub open spec fn values(items: Seq<Json>) -> Seq<JsonValue> {
    Seq::new(items.len(), |i: int| items[i]@)
}

/// The members that a sequence of keyed nodes stands for.
pub open spec fn members_view(members: Seq<(String, Json)>) -> Seq<(Seq<char>, JsonValue)> {
    Seq::new(members.len(), |i: int| (members[i].0@, members[i].1@))
}

/// An array node stands for the array of what its items stand for.
pub proof fn lemma_array_view(items: Vec<Json>)
    ensures
        Json::Array(items)@ == JsonValue::Array(values(items@)),
{
    assert(Json::Array(items)@->Array_0 =~= values(items@));
}

/// An object node stands for the object of what its members stand for.
pub proof fn lemma_object_view(members: Vec<(String, Json)>)
    ensures
        Json::Object(members)@ == JsonValue::Object(members_view(members@)),
{
    assert(Json::Object(members)@->Object_0 =~= members_view(members@));
}

/// What a node stands for, where there is one.
pub open spec fn json_option(j: Option<&Json>) -> Option<JsonValue> {
    match j {
        Some(x) => Some(x@),
        None => None,
    }
}

/// `serde_json::Value`, carried between `serde_json`'s parser and writer and
/// the code here, which takes it apart and puts it together one level at a
/// time.
#[verifier::external_type_specification]
#[verifier::external_body]
pub struct ExValue(serde_json::Value);

/// The tree of plain values that a `serde_json::Value` holds: its members in
/// the order in which its map hands them out, each number as the text that
/// `serde_json` writes for it.
pub uninterp spec fn value_tree(v: serde_json::Value) -> JsonValue;

/// What `serde_json::from_str` makes of a text: the value it parses to, or
/// the message of the error it reports.
pub uninterp spec fn parsed_json(text: Seq<char>) -> Result<JsonValue, Seq<char>>;

/// `serde_json::from_str` for a `Value`: the parsed value, or the error's
/// message as its `Display` gives it. The outcome depends on the text alone.
#[verifier::external_body]
pub(crate) fn parse_value(text: &str) -> (r: Result<serde_json::Value, String>)
    ensures
        match r {
            Ok(v) => parsed_json(text@) == Ok::<JsonValue, Seq<char>>(value_tree(v)),
            Err(e) => parsed_json(text@) == Err::<JsonValue, Seq<char>>(e@),
        },
{
    serde_json::from_str::<serde_json::Value>(text).map_err(|e| e.to_string())
}

/// How deeply a `serde_json::Value` is nested: every item of an array and
/// every member of an object lies less deep than the array or object itself.
pub uninterp spec fn value_depth(v: serde_json::Value) -> nat;

/// One level of a `serde_json::Value`: its kind, a number as the text that
/// writes it, items and members as the values they are, in order.
enum Unpacked<'a> {
    Null,
    Bool(bool),
    Number(String),
    Text(&'a str),
    Array(Vec<&'a serde_json::Value>),
    Object(Vec<(&'a str, &'a serde_json::Value)>),
}

/// The tree that an unpacked value stands for, given the trees of its items
/// and members.
spec fn unpacked_tree(u: Unpacked) -> JsonValue {
    match u {
        Unpacked::Null => JsonValue::Null,
        Unpacked::Bool(b) => JsonValue::Bool(b),
        Unpacked::Number(n) => JsonValue::Number(n@),
        Unpacked::Text(s) => JsonValue::Text(s@),
        Unpacked::Array(items) => JsonValue::Array(
            Seq::new(items@.len(), |i: int| value_tree(*items@[i])),
        ),
        Unpacked::Object(members) => JsonValue::Object(
            Seq::new(members@.len(), |i: int| (members@[i].0@, value_tree(*members@[i].1))),
        ),
    }
}

/// Every item and member of an unpacked value lies less deep than `depth`.
spec fn parts_less_deep(u: Unpacked, depth: nat) -> bool {
    match u {
        Unpacked::Array(items) => forall|i: int|
            0 <= i < items@.len() ==> value_depth(*#[trigger] items@[i]) < depth,
        Unpacked::Object(members) => forall|i: int|
            0 <= i < members@.len() ==> value_depth(*(#[trigger] members@[i]).1) < depth,
        _ => true,
    }
}

/// Takes a `serde_json::Value` apart by one level, variant for variant: a
/// number through its `Display`, the items of an array and the members of an
/// object's map in the order in which they are handed out.
#[verifier::external_body]
fn unpack<'a>(v: &'a serde_json::Value) -> (u: Unpacked<'a>)
    ensures
        unpacked_tree(u) == value_tree(*v),
        parts_less_deep(u, value_depth(*v)),
{
    match v {
        serde_json::Value::Null => Unpacked::Null,
        serde_json::Value::Bool(b) => Unpacked::Bool(*b),
        serde_json::Value::Number(n) => Unpacked::Number(n.to_string()),
        serde_json::Value::String(s) => Unpacked::Text(s.as_str()),
        serde_json::Value::Array(a) => Unpacked::Array(a.iter().collect()),
        serde_json::Value::Object(m) => Unpacked::Object(
            m.iter().map(|(k, x)| (k.as_str(), x)).collect(),
        ),
    }
}

/// Copies a `serde_json::Value` into a [`Json`], level by level.
fn json_of_value(v: &serde_json::Value) -> (j: Json)
    ensures
        j@ == value_tree(*v),
    decreases value_depth(*v),
{
    match unpack(v) {
        Unpacked::Null => Json::Null,
        Unpacked::Bool(b) => Json::Bool(b),
        Unpacked::Number(n) => Json::Number(n),
        Unpacked::Text(s) => Json::Text(s.to_owned()),
        Unpacked::Array(items) => {
            let mut out: Vec<Json> = Vec::new();
            let mut i: usize = 0;
            while i < items.len()
                invariant
                    i <= items.len(),
                    out.len() == i,
                    forall|k: int|
                        0 <= k < items@.len() ==> value_depth(*#[trigger] items@[k])
                            < value_depth(*v),
                    forall|k: int| 0 <= k < i ==> (#[trigger] out@[k])@ == value_tree(*items@[k]),
                decreases items.len() - i,
            {
                out.push(json_of_value(items[i]));
                i += 1;
            }
            proof {
                lemma_array_view(out);
                assert(values(out@) =~= Seq::new(
                    items@.len(),
                    |i: int| value_tree(*items@[i]),
                ));
            }
            Json::Array(out)
        },
        Unpacked::Object(members) => {
            let mut out: Vec<(String, Json)> = Vec::new();
            let mut i: usize = 0;
            while i < members.len()
                invariant
                    i <= members.len(),
                    out.len() == i,
                    forall|k: int|
                        0 <= k < members@.len() ==> value_depth(*(#[trigger] members@[k]).1)
                            < value_depth(*v),
                    forall|k: int|
                        0 <= k < i ==> (#[trigger] out@[k]).0@ == members@[k].0@ && out@[k].1@
                            == value_tree(*members@[k].1),
                decreases members.len() - i,
            {
                let key = members[i].0.to_owned();
                let value = json_of_value(members[i].1);
                out.push((key, value));
                i += 1;
            }
            proof {
                lemma_object_view(out);
                assert(members_view(out@) =~= Seq::new(
                    members@.len(),
                    |i: int| (members@[i].0@, value_tree(*members@[i].1)),
                ));
            }
            Json::Object(out)
        },
    }
}

/// The compact JSON text that `serde_json` writes for a value with the
/// given tree.
pub uninterp spec fn rendered(tree: JsonValue) -> Seq<char>;

/// `Display` for `serde_json::Value`: the compact text of the value, which
/// depends on nothing but the value's tree.
#[verifier::external_body]
pub(crate) fn value_text(v: &serde_json::Value) -> (r: String)
    ensures
        r@ == rendered(value_tree(*v)),
{
    v.to_string()
}

/// From index `i` on, `a` stands before `b` in the order of `String`: where
/// they first differ `a` holds the lower character, or `a` ends first.
pub open spec fn text_less_from(a: Seq<char>, b: Seq<char>, i: int) -> bool
    decreases a.len() - i,
{
    if i < 0 || i >= b.len() {
        false
    } else if i >= a.len() {
        true
    } else if a[i] != b[i] {
        (a[i] as u32) < (b[i] as u32)
    } else {
        text_less_from(a, b, i + 1)
    }
}

/// `a` stands before `b` in the order of `String`.
pub open spec fn text_less(a: Seq<char>, b: Seq<char>) -> bool {
    text_less_from(a, b, 0)
}

/// Texts that agree before index `at` and hold there a lower and a higher
/// character stand in that order.
pub proof fn lemma_less_at(a: Seq<char>, b: Seq<char>, at: int)
    requires
        0 <= at < a.len(),
        at < b.len(),
        forall|k: int| 0 <= k < at ==> a[k] == b[k],
        (a[at] as u32) < (b[at] as u32),
    ensures
        text_less(a, b),
{
    lemma_less_from(a, b, 0, at);
}

proof fn lemma_less_from(a: Seq<char>, b: Seq<char>, i: int, at: int)
    requires
        0 <= i <= at < a.len(),
        at < b.len(),
        forall|k: int| i <= k < at ==> a[k] == b[k],
        (a[at] as u32) < (b[at] as u32),
    ensures
        text_less_from(a, b, i),
    decreases at - i,
{
    if i < at {
        lemma_less_from(a, b, i + 1, at);
    }
}

/// Each key stands before every later one in the order of `String`.
pub open spec fn keys_ascend(keys: Seq<Seq<char>>) -> bool {
    forall|i: int, j: int| 0 <= i < j < keys.len() ==> text_less(keys[i], keys[j])
}

/// The keys of members, in order.
pub open spec fn member_keys(members: Seq<(String, serde_json::Value)>) -> Seq<Seq<char>> {
    Seq::new(members.len(), |i: int| members[i].0@)
}

/// The members as keys and trees, in order.
pub open spec fn value_members(members: Seq<(String, serde_json::Value)>) -> Seq<
    (Seq<char>, JsonValue),
> {
    Seq::new(members.len(), |i: int| (members[i].0@, value_tree(members[i].1)))
}

/// `serde_json::Value::Null`.
#[verifier::external_body]
pub(crate) fn value_null() -> (v: serde_json::Value)
    ensures
        value_tree(v) == JsonValue::Null,
{
    serde_json::Value::Null
}

/// `serde_json::Value::String` of a text.
#[verifier::external_body]
pub(crate) fn value_of_text(s: &str) -> (v: serde_json::Value)
    ensures
        value_tree(v) == JsonValue::Text(s@),
{
    serde_json::Value::String(s.to_owned())
}

/// `serde_json::Value::Number` of a `u64`, through `From<u64>` for
/// `serde_json::Number`: a number that is written in decimal.
#[verifier::external_body]
pub(crate) fn value_of_number(n: u64) -> (v: serde_json::Value)
    ensures
        value_tree(v) == JsonValue::Number(decimal(n as nat)),
{
    serde_json::Value::Number(serde_json::Number::from(n))
}

/// `serde_json::Value::Array` of the items, in order.
#[verifier::external_body]
pub(crate) fn value_of_items(items: Vec<serde_json::Value>) -> (v: serde_json::Value)
    ensures
        value_tree(v) == JsonValue::Array(Seq::new(items@.len(), |i: int| value_tree(items@[i]))),
{
    serde_json::Value::Array(items)
}

/// `serde_json::Value::Object` of a `serde_json::Map` collected from the
/// members. The map hands its members out by rising key, in the order of
/// `String`: where the keys are given so, the object holds the members as
/// given.
#[verifier::external_body]
pub(crate) fn value_object(members: Vec<(String, serde_json::Value)>) -> (v: serde_json::Value)
    ensures
        keys_ascend(member_keys(members@)) ==> value_tree(v) == JsonValue::Object(
            value_members(members@),
        ),
{
    serde_json::Value::Object(members.into_iter().collect())
}

/// An array of string values, one for each text.
pub fn value_of_texts(items: &Vec<String>) -> (v: serde_json::Value)
    ensures
        value_tree(v) == JsonValue::Array(
            Seq::new(items@.len(), |i: int| JsonValue::Text(items@[i]@)),
        ),
{
    let mut out: Vec<serde_json::Value> = Vec::new();
    let mut i: usize = 0;
    while i < items.len()
        invariant
            i <= items.len(),
            out.len() == i,
            forall|k: int| 0 <= k < i ==> value_tree(#[trigger] out@[k]) == JsonValue::Text(
                items@[k]@,
            ),
        decreases items.len() - i,
    {
        out.push(value_of_text(items[i].as_str()));
        i += 1;
    }
    assert(Seq::new(out@.len(), |i: int| value_tree(out@[i])) =~= Seq::new(
        items@.len(),
        |i: int| JsonValue::Text(items@[i]@),
    ));
    value_of_items(out)
}

/// The member of an object value with the given key.
pub fn value_member<'a>(v: &'a serde_json::Value, key: &str) -> (r: Option<&'a serde_json::Value>)
    ensures
        match r {
            Some(x) => member(value_tree(*v), key@) == Some(value_tree(*x)),
            None => member(value_tree(*v), key@) is None,
        },
{
    match unpack(v) {
        Unpacked::Object(members) => {
            let ghost held = Seq::new(
                members@.len(),
                |i: int| (members@[i].0@, value_tree(*members@[i].1)),
            );
            let mut i: usize = 0;
            while i < members.len()
                invariant
                    i <= members.len(),
                    held == Seq::new(
                        members@.len(),
                        |i: int| (members@[i].0@, value_tree(*members@[i].1)),
                    ),
                    member(value_tree(*v), key@) == member_from(held, key@, i as int),
                decreases members.len() - i,
            {
                if str_eq(members[i].0, key) {
                    return Some(members[i].1);
                }
                i += 1;
            }
            None
        },
        _ => None,
    }
}

/// Parses a JSON text. Succeeds exactly when `serde_json` accepts the text;
/// the error is its message.
pub fn parse_json(text: &str) -> (r: Result<Json, String>)
    ensures
        match r {
            Ok(j) => parsed_json(text@) == Ok::<JsonValue, Seq<char>>(j@),
            Err(e) => parsed_json(text@) == Err::<JsonValue, Seq<char>>(e@),
        },
{
    match parse_value(text) {
        Ok(v) => Ok(json_of_value(&v)),
        Err(e) => Err(e),
    }
}

/// The value of the first member at or after index `i` that has the key.
pub open spec fn member_from(
    members: Seq<(Seq<char>, JsonValue)>,
    key: Seq<char>,
    i: int,
) -> Option<JsonValue>
    decreases members.len() - i,
{
    if i < 0 || i >= members.len() {
        None
    } else if members[i].0 == key {
        Some(members[i].1)
    } else {
        member_from(members, key, i + 1)
    }
}

/// The member of an object with the given key; nothing for other values.
pub open spec fn member(v: JsonValue, key: Seq<char>) -> Option<JsonValue> {
    match v {
        JsonValue::Object(members) => member_from(members, key, 0),
        _ => None,
    }
}

/// The text of a string value.
pub open spec fn as_text(v: JsonValue) -> Option<Seq<char>> {
    match v {
        JsonValue::Text(s) => Some(s),
        _ => None,
    }
}

/// The truth value of a boolean value.
pub open spec fn as_flag(v: JsonValue) -> Option<bool> {
    match v {
        JsonValue::Bool(b) => Some(b),
        _ => None,
    }
}

/// The items of an array value.
pub open spec fn as_items(v: JsonValue) -> Option<Seq<JsonValue>> {
    match v {
        JsonValue::Array(items) => Some(items),
        _ => None,
    }
}

/// The text of a member that is a string.
pub open spec fn member_text(v: JsonValue, key: Seq<char>) -> Option<Seq<char>> {
    match member(v, key) {
        Some(m) => as_text(m),
        None => None,
    }
}

/// The items of a member that is an array; none where there is no such
/// member.
pub open spec fn member_items(v: JsonValue, key: Seq<char>) -> Seq<JsonValue> {
    match member(v, key) {
        Some(m) => match as_items(m) {
            Some(items) => items,
            None => Seq::empty(),
        },
        None => Seq::empty(),
    }
}

/// The texts of those among the first `n` items that are strings, in order.
pub open spec fn item_texts(items: Seq<JsonValue>, n: int) -> Seq<Seq<char>>
    decreases n,
{
    if n <= 0 || n > items.len() {
        Seq::empty()
    } else {
        match as_text(items[n - 1]) {
            Some(s) => item_texts(items, n - 1).push(s),
            None => item_texts(items, n - 1),
        }
    }
}

/// The texts of the strings in the array member with the given key.
pub open spec fn member_texts(v: JsonValue, key: Seq<char>) -> Seq<Seq<char>> {
    item_texts(member_items(v, key), member_items(v, key).len() as int)
}

impl Json {
    /// The member of an object with the given key.
    pub fn get(&self, key: &str) -> (r: Option<&Json>)
        ensures
            json_option(r) == member(self@, key@),
    {
        match self {
            Json::Object(members) => {
                proof {
                    lemma_object_view(*members);
                }
                let mut i: usize = 0;
                while i < members.len()
                    invariant
                        i <= members.len(),
                        member(self@, key@) == member_from(
                            members_view(members@),
                            key@,
                            i as int,
                        ),
                    decreases members.len() - i,
                {
                    if str_eq(members[i].0.as_str(), key) {
                        return Some(&members[i].1);
                    }
                    i += 1;
                }
                None
            },
            _ => None,
        }
    }

    /// The text of a string node.
    pub fn as_str(&self) -> (r: Option<&str>)
        ensures
            match r {
                Some(s) => as_text(self@) == Some(s@),
                None => as_text(self@) is None,
            },
    {
        match self {
            Json::Text(s) => Some(s.as_str()),
            _ => None,
        }
    }

    /// The truth value of a boolean node.
    pub fn as_bool(&self) -> (r: Option<bool>)
        ensures
            r == as_flag(self@),
    {
        match self {
            Json::Bool(b) => Some(*b),
            _ => None,
        }
    }

    /// The items of an array node.
    pub fn as_array(&self) -> (r: Option<&Vec<Json>>)
        ensures
            match r {
                Some(items) => as_items(self@) == Some(values(items@)),
                None => as_items(self@) is None,
            },
    {
        match self {
            Json::Array(items) => {
                proof {
                    lemma_array_view(*items);
                }
                Some(items)
            },
            _ => None,
        }
    }

    /// The text of a member that is a string.
    pub fn get_str(&self, key: &str) -> (r: Option<&str>)
        ensures
            match r {
                Some(s) => member_text(self@, key@) == Some(s@),
                None => member_text(self@, key@) is None,
            },
    {
        match self.get(key) {
            Some(m) => m.as_str(),
            None => None,
        }
    }

    /// The texts of the strings in the array member with the given key.
    pub fn get_texts(&self, key: &str) -> (r: Vec<Vec<char>>)
        ensures
            crate::text::texts(r@) == member_texts(self@, key@),
    {
        let mut out: Vec<Vec<char>> = Vec::new();
        let items = match self.get(key) {
            Some(m) => match m.as_array() {
                Some(items) => items,
                None => {
                    assert(crate::text::texts(out@) =~= Seq::<Seq<char>>::empty());
                    return out;
                },
            },
            None => {
                assert(crate::text::texts(out@) =~= Seq::<Seq<char>>::empty());
                return out;
            },
        };
        let mut i: usize = 0;
        while i < items.len()
            invariant
                i <= items.len(),
                member_items(self@, key@) == values(items@),
                crate::text::texts(out@) == item_texts(values(items@), i as int),
            decreases items.len() - i,
        {
            match items[i].as_str() {
                Some(s) => {
                    let t = chars_of(s);
                    assert(crate::text::texts(out@.push(t)) =~= crate::text::texts(out@).push(
                        t@,
                    ));
                    out.push(t);
                },
                None => {},
            }
            i += 1;
        }
        out
    }
}

} // verus!
