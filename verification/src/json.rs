//! JSON documents: reading them, building them, and writing them out.
use serde_json::{Number, Value};
use vstd::prelude::*;

use crate::text::same_text;

verus! {

/// `serde_json::Number`, a JSON number, carried as it came.
#[verifier::external_type_specification]
#[verifier::external_body]
pub struct ExNumber(serde_json::Number);

/// `serde_json::Value`, a JSON document as serde_json holds it.
#[verifier::external_type_specification]
#[verifier::external_body]
pub struct ExValue(serde_json::Value);

/// `serde_json::Map`, the members of an object as serde_json holds them.
#[verifier::external_type_specification]
#[verifier::external_body]
#[verifier::reject_recursive_types(K)]
#[verifier::reject_recursive_types(V)]
pub struct ExMap<K, V>(serde_json::Map<K, V>);

/// `serde_json::Error`, the reason why a text is not a JSON document.
#[verifier::external_type_specification]
#[verifier::external_body]
pub struct ExError(serde_json::Error);

/// A JSON document.
#[derive(Debug)]
pub enum Json {
    Null,
    Bool(bool),
    Number(Number),
    Text(String),
    Array(Vec<Json>),
    Object(Vec<Member>),
}

/// One member of a JSON object.
#[derive(Debug)]
pub struct Member {
    pub key: String,
    pub value: Json,
}

/// What a JSON document says: its numbers by their text, its objects as maps from keys to members.
pub enum JsonTree {
    Null,
    Bool(bool),
    Number(Seq<char>),
    Text(Seq<char>),
    Items(Seq<JsonTree>),
    Fields(Map<Seq<char>, JsonTree>),
}

/// The text that `serde_json::Number` has when it is written.
pub uninterp spec fn number_text(number: Number) -> Seq<char>;

/// What the items of an array say.
pub open spec fn trees(items: Seq<Json>) -> Seq<JsonTree>
    decreases items,
{
    if items.len() == 0 {
        Seq::empty()
    } else {
        trees(items.drop_last()).push(items.last()@)
    }
}

/// What the members of an object say; of two members with one key the later counts.
pub open spec fn fields(members: Seq<Member>) -> Map<Seq<char>, JsonTree>
    decreases members,
{
    if members.len() == 0 {
        Map::empty()
    } else {
        fields(members.drop_last()).insert(members.last().key@, members.last().value@)
    }
}

/// The items of an array say what each of them says.
pub proof fn lemma_trees(items: Seq<Json>)
    ensures
        trees(items).len() == items.len(),
        forall|i: int| 0 <= i < items.len() ==> #[trigger] trees(items)[i] == items[i]@,
    decreases items.len(),
{
    if items.len() > 0 {
        lemma_trees(items.drop_last());
        assert(trees(items) == trees(items.drop_last()).push(items.last()@));
    }
}

impl View for Json {
    type V = JsonTree;

    open spec fn view(&self) -> JsonTree
        decreases self,
    {
        match self {
            Json::Null => JsonTree::Null,
            Json::Bool(b) => JsonTree::Bool(*b),
            Json::Number(n) => JsonTree::Number(number_text(*n)),
            Json::Text(s) => JsonTree::Text(s@),
            Json::Array(items) => JsonTree::Items(trees(items@)),
            Json::Object(members) => JsonTree::Fields(fields(members@)),
        }
    }
}

/// `serde_json::Number::clone`: the copy is written as the number is.
pub assume_specification[ <serde_json::Number as Clone>::clone ](
    number: &serde_json::Number,
) -> (copy: serde_json::Number)
    ensures
        number_text(copy) == number_text(*number),
;

impl Clone for Json {
    fn clone(&self) -> (copy: Self)
        ensures
            copy@ == self@,
        decreases self,
    {
        match self {
            Json::Null => Json::Null,
            Json::Bool(b) => Json::Bool(*b),
            Json::Number(n) => Json::Number(n.clone()),
            Json::Text(s) => Json::Text(s.clone()),
            Json::Array(items) => {
                let mut copies: Vec<Json> = Vec::new();
                let mut i: usize = 0;
                while i < items.len()
                    invariant
                        *self == Json::Array(*items),
                        i <= items.len(),
                        trees(copies@) == trees(items@.take(i as int)),
                    decreases items.len() - i,
                {
                    let ghost before = copies@;
                    assert(decreases_to!(self => self->Array_0));
                    assert(decreases_to!(items => items@));
                    assert(decreases_to!(items@ => items@[i as int]));
                    let copy = items[i].clone();
                    copies.push(copy);
                    assert(copies@.drop_last() =~= before);
                    assert(items@.take(i + 1).drop_last() =~= items@.take(i as int));
                    i = i + 1;
                }
                assert(items@.take(i as int) =~= items@);
                Json::Array(copies)
            },
            Json::Object(members) => {
                let mut copies: Vec<Member> = Vec::new();
                let mut i: usize = 0;
                while i < members.len()
                    invariant
                        *self == Json::Object(*members),
                        i <= members.len(),
                        fields(copies@) == fields(members@.take(i as int)),
                    decreases members.len() - i,
                {
                    let ghost before = copies@;
                    assert(decreases_to!(self => self->Object_0));
                    assert(decreases_to!(members => members@));
                    assert(decreases_to!(members@ => members@[i as int]));
                    assert(decreases_to!(members@[i as int] => members@[i as int].value));
                    let copy = Member {
                        key: members[i].key.clone(),
                        value: members[i].value.clone(),
                    };
                    copies.push(copy);
                    assert(copies@.drop_last() =~= before);
                    assert(members@.take(i + 1).drop_last() =~= members@.take(i as int));
                    i = i + 1;
                }
                assert(members@.take(i as int) =~= members@);
                Json::Object(copies)
            },
        }
    }
}

/// What a `serde_json::Value` holds.
pub uninterp spec fn value_tree(value: Value) -> JsonTree;

/// What the members of a `serde_json::Map` hold, by their keys.
pub uninterp spec fn map_fields(map: serde_json::Map<String, Value>) -> Map<Seq<char>, JsonTree>;

/// What `serde_json::from_slice` reads from `bytes`: `None` where they are no JSON document.
pub uninterp spec fn json_document(bytes: Seq<u8>) -> Option<JsonTree>;

/// The text that `serde_json::Value` writes for a document that says `tree`.
pub uninterp spec fn json_text(tree: JsonTree) -> Seq<char>;

/// `n` in decimal digits, without leading zeros.
pub open spec fn decimal_text(n: nat) -> Seq<char>
    decreases n,
{
    if n < 10 {
        seq!["0123456789"@[n as int]]
    } else {
        decimal_text(n / 10).push("0123456789"@[n as int % 10])
    }
}

/// `serde_json::from_slice` into a `Value`: the document that the whole of `bytes` is, or an error
/// where they are none. Which error it is, is not stated.
#[verifier::external_body]
fn value_from_slice(bytes: &[u8]) -> (value: Result<Value, serde_json::Error>)
    ensures
        match value {
            Ok(v) => json_document(bytes@) == Some(value_tree(v)),
            Err(_) => json_document(bytes@) is None,
        },
{
    serde_json::from_slice(bytes)
}

/// One layer of a `serde_json::Value`: what stands in it is still held by serde_json.
enum Layer {
    Null,
    Bool(bool),
    Number(Number),
    Text(String),
    Items(Vec<Value>),
    Fields(serde_json::Map<String, Value>),
}

/// What a list of values holds.
spec fn value_trees(items: Seq<Value>) -> Seq<JsonTree> {
    Seq::new(items.len(), |i: int| value_tree(items[i]))
}

/// What values under keys hold, where the keys differ.
spec fn value_fields(members: Seq<(String, Value)>) -> Map<Seq<char>, JsonTree>
    decreases members.len(),
{
    if members.len() == 0 {
        Map::empty()
    } else {
        value_fields(members.drop_last()).insert(members.last().0@, value_tree(members.last().1))
    }
}

/// What the value with this outermost layer holds.
spec fn layer_tree(layer: Layer) -> JsonTree {
    match layer {
        Layer::Null => JsonTree::Null,
        Layer::Bool(b) => JsonTree::Bool(b),
        Layer::Number(n) => JsonTree::Number(number_text(n)),
        Layer::Text(s) => JsonTree::Text(s@),
        Layer::Items(items) => JsonTree::Items(value_trees(items@)),
        Layer::Fields(map) => JsonTree::Fields(map_fields(map)),
    }
}

/// Whether no key occurs twice.
spec fn keys_differ(members: Seq<(String, Value)>) -> bool {
    forall|i: int, j: int|
        0 <= i < j < members.len() ==> (#[trigger] members[i]).0@ != (#[trigger] members[j]).0@
}

/// Takes the outermost layer off a `serde_json::Value`: the variant it is, with what that holds.
#[verifier::external_body]
fn take_apart(value: Value) -> (layer: Layer)
    ensures
        layer_tree(layer) == value_tree(value),
{
    match value {
        Value::Null => Layer::Null,
        Value::Bool(b) => Layer::Bool(b),
        Value::Number(n) => Layer::Number(n),
        Value::String(s) => Layer::Text(s),
        Value::Array(items) => Layer::Items(items),
        Value::Object(map) => Layer::Fields(map),
    }
}

/// The `serde_json::Value` with this outermost layer.
#[verifier::external_body]
fn put_together(layer: Layer) -> (value: Value)
    ensures
        value_tree(value) == layer_tree(layer),
{
    match layer {
        Layer::Null => Value::Null,
        Layer::Bool(b) => Value::Bool(b),
        Layer::Number(n) => Value::Number(n),
        Layer::Text(s) => Value::String(s),
        Layer::Items(items) => Value::Array(items),
        Layer::Fields(map) => Value::Object(map),
    }
}

/// `serde_json::Map::into_iter`: the members of the map, each once, under keys that all differ.
#[verifier::external_body]
fn members_of(map: serde_json::Map<String, Value>) -> (members: Vec<(String, Value)>)
    ensures
        keys_differ(members@),
        value_fields(members@) == map_fields(map),
{
    map.into_iter().collect()
}

/// `serde_json::Map::new`: a map without members.
#[verifier::external_body]
fn empty_map() -> (empty: serde_json::Map<String, Value>)
    ensures
        (map_fields(empty) == Map::<Seq<char>, JsonTree>::empty()),
{
    serde_json::Map::new()
}

/// `serde_json::Map::insert`: the map with a member under `key`, in place of the one that it had there,
/// which is dropped.
#[verifier::external_body]
fn insert_member(map: &mut serde_json::Map<String, Value>, key: String, value: Value)
    ensures
        map_fields(*final(map)) == map_fields(*old(map)).insert(key@, value_tree(value)),
{
    map.insert(key, value);
}

proof fn lemma_value_fields(members: Seq<(String, Value)>)
    requires
        keys_differ(members),
    ensures
        value_fields(members).dom().finite(),
        forall|i: int|
            0 <= i < members.len() ==> value_fields(members).contains_key(
                (#[trigger] members[i]).0@,
            ) && value_fields(members)[members[i].0@] == value_tree(members[i].1),
    decreases members.len(),
{
    if members.len() > 0 {
        let before = members.drop_last();
        lemma_value_fields(before);
        assert forall|i: int| 0 <= i < members.len() implies value_fields(members).contains_key(
            (#[trigger] members[i]).0@,
        ) && value_fields(members)[members[i].0@] == value_tree(members[i].1) by {
            if i < before.len() {
                assert(before[i] == members[i]);
                assert(members[i].0@ != members[members.len() - 1].0@);
            }
        }
    }
}

/// The document that a `serde_json::Value` is.
pub fn json_from_value(value: Value) -> (json: Json)
    ensures
        json@ == value_tree(value),
    decreases value_tree(value),
{
    let ghost tree = value_tree(value);
    match take_apart(value) {
        Layer::Null => Json::Null,
        Layer::Bool(b) => Json::Bool(b),
        Layer::Number(n) => Json::Number(n),
        Layer::Text(s) => Json::Text(s),
        Layer::Items(items) => {
            let ghost all = items@;
            let mut done: Vec<Json> = Vec::new();
            for item in it: items
                invariant
                    it.seq() == all,
                    tree == value_tree(value),
                    tree == JsonTree::Items(value_trees(all)),
                    trees(done@) == value_trees(all.take(it.index())),
            {
                let ghost before = done@;
                let ghost i = it.index();
                assert(item == all[i]);
                assert(decreases_to!(tree => tree->Items_0));
                assert(decreases_to!(tree->Items_0 => tree->Items_0[i]));
                done.push(json_from_value(item));
                assert(done@.drop_last() =~= before);
                assert(value_trees(all.take(i + 1)) =~= value_trees(all.take(i)).push(
                    value_tree(item),
                ));
            }
            assert(all.take(all.len() as int) =~= all);
            Json::Array(done)
        },
        Layer::Fields(map) => {
            let members = members_of(map);
            let ghost all = members@;
            let mut done: Vec<Member> = Vec::new();
            for member in it: members
                invariant
                    it.seq() == all,
                    keys_differ(all),
                    tree == value_tree(value),
                    tree == JsonTree::Fields(value_fields(all)),
                    fields(done@) == value_fields(all.take(it.index())),
            {
                let ghost before = done@;
                let ghost i = it.index();
                assert(member == all[i]);
                proof {
                    lemma_value_fields(all);
                }
                let (key, inner) = member;
                assert(decreases_to!(tree => tree->Fields_0));
                assert(decreases_to!(tree->Fields_0 => tree->Fields_0[all[i].0@]));
                done.push(Member { key, value: json_from_value(inner) });
                assert(done@.drop_last() =~= before);
                assert(all.take(i + 1).drop_last() =~= all.take(i));
            }
            assert(all.take(all.len() as int) =~= all);
            Json::Object(done)
        },
    }
}

/// The value that a document is.
fn value_from_json(json: Json) -> (value: Value)
    ensures
        value_tree(value) == json@,
    decreases json,
{
    let layer = match json {
        Json::Null => Layer::Null,
        Json::Bool(b) => Layer::Bool(b),
        Json::Number(n) => Layer::Number(n),
        Json::Text(s) => Layer::Text(s),
        Json::Array(items) => {
            let ghost all = items@;
            let mut done: Vec<Value> = Vec::new();
            for item in it: items
                invariant
                    it.seq() == all,
                    all == json->Array_0@,
                    json is Array,
                    value_trees(done@) == trees(all.take(it.index())),
            {
                let ghost before = done@;
                let ghost i = it.index();
                assert(item == all[i]);
                assert(decreases_to!(json => json->Array_0));
                assert(decreases_to!(json->Array_0 => json->Array_0@));
                assert(decreases_to!(all => all[i]));
                done.push(value_from_json(item));
                assert(value_trees(done@) =~= value_trees(before).push(item@));
                assert(all.take(i + 1).drop_last() =~= all.take(i));
            }
            assert(all.take(all.len() as int) =~= all);
            Layer::Items(done)
        },
        Json::Object(members) => {
            let ghost all = members@;
            let mut done: serde_json::Map<String, Value> = empty_map();
            for member in it: members
                invariant
                    it.seq() == all,
                    all == json->Object_0@,
                    json is Object,
                    map_fields(done) == fields(all.take(it.index())),
            {
                let ghost i = it.index();
                assert(member == all[i]);
                assert(decreases_to!(json => json->Object_0));
                assert(decreases_to!(json->Object_0 => json->Object_0@));
                assert(decreases_to!(all => all[i]));
                assert(decreases_to!(all[i] => all[i].value));
                let value = value_from_json(member.value);
                insert_member(&mut done, member.key, value);
                assert(all.take(i + 1).drop_last() =~= all.take(i));
            }
            assert(all.take(all.len() as int) =~= all);
            Layer::Fields(done)
        },
    };
    put_together(layer)
}

/// `serde_json::Value::to_string`: the compact text of the document, which depends on nothing but
/// what the value holds. The members of an object come in the order of their keys, since serde_json's
/// feature `preserve_order` is left off.
#[verifier::external_body]
fn value_to_string(value: &Value) -> (text: String)
    ensures
        text@ == json_text(value_tree(*value)),
{
    value.to_string()
}

/// `serde_json::Number::from` for a `u64`: it is written in decimal.
#[verifier::external_body]
fn number_from(n: u64) -> (number: Number)
    ensures
        number_text(number) == decimal_text(n as nat),
{
    Number::from(n)
}

/// Reads the whole of `bytes` as one JSON document.
pub fn parse(bytes: &[u8]) -> (json: Option<Json>)
    ensures
        match json {
            Some(j) => json_document(bytes@) == Some(j@),
            None => json_document(bytes@) is None,
        },
{
    match value_from_slice(bytes) {
        Ok(value) => Some(json_from_value(value)),
        Err(_) => None,
    }
}

/// Writes a JSON document as compact text.
pub fn print(json: Json) -> (text: String)
    ensures
        text@ == json_text(json@),
{
    value_to_string(&value_from_json(json))
}

/// The member of `tree` under `key`, if it is an object that has one.
pub open spec fn member(tree: JsonTree, key: Seq<char>) -> Option<JsonTree> {
    match tree {
        JsonTree::Fields(fields) => if fields.contains_key(key) {
            Some(fields[key])
        } else {
            None
        },
        _ => None,
    }
}

/// The characters of `tree`, if it is a string.
pub open spec fn text_of(tree: JsonTree) -> Option<Seq<char>> {
    match tree {
        JsonTree::Text(text) => Some(text),
        _ => None,
    }
}

/// The characters of the member of `tree` under `key`, if there is one and it is a string.
pub open spec fn text_member(tree: JsonTree, key: Seq<char>) -> Option<Seq<char>> {
    match member(tree, key) {
        Some(value) => text_of(value),
        None => None,
    }
}

impl Json {
    /// The string that holds the characters of `text`.
    pub fn text(text: &str) -> (json: Json)
        ensures
            json@ == JsonTree::Text(text@),
    {
        Json::Text(text.to_owned())
    }

    /// The number `n`.
    pub fn number(n: u64) -> (json: Json)
        ensures
            json@ == JsonTree::Number(decimal_text(n as nat)),
    {
        Json::Number(number_from(n))
    }

    /// The array without items.
    pub fn array() -> (json: Json)
        ensures
            json@ == JsonTree::Items(Seq::empty()),
    {
        Json::Array(Vec::new())
    }

    /// The array with one more item at its end; what is no array is left as it is.
    pub fn and(self, item: Json) -> (json: Json)
        ensures
            json@ == match self@ {
                JsonTree::Items(items) => JsonTree::Items(items.push(item@)),
                other => other,
            },
    {
        match self {
            Json::Array(items) => {
                let mut items = items;
                let ghost before = items@;
                items.push(item);
                assert(items@.drop_last() =~= before);
                Json::Array(items)
            },
            other => other,
        }
    }

    /// The object without members.
    pub fn object() -> (json: Json)
        ensures
            json@ == JsonTree::Fields(Map::empty()),
    {
        Json::Object(Vec::new())
    }

    /// The object with one more member, in place of the one that had its key; what is no object is
    /// left as it is.
    pub fn with(self, key: &str, value: Json) -> (json: Json)
        ensures
            json@ == match self@ {
                JsonTree::Fields(fields) => JsonTree::Fields(fields.insert(key@, value@)),
                other => other,
            },
    {
        match self {
            Json::Object(members) => {
                let mut members = members;
                let ghost before = members@;
                members.push(Member { key: key.to_owned(), value });
                assert(members@.drop_last() =~= before);
                Json::Object(members)
            },
            other => other,
        }
    }

    /// The member under `key`, if this is an object that has one.
    pub fn get(&self, key: &str) -> (value: Option<&Json>)
        ensures
            match value {
                Some(v) => member(self@, key@) == Some(v@),
                None => member(self@, key@) is None,
            },
    {
        match self {
            Json::Object(members) => {
                let mut n: usize = members.len();
                assert(members@.take(n as int) =~= members@);
                while n > 0
                    invariant
                        n <= members.len(),
                        fields(members@).contains_key(key@) == fields(
                            members@.take(n as int),
                        ).contains_key(key@),
                        fields(members@.take(n as int)).contains_key(key@) ==> fields(
                            members@,
                        )[key@] == fields(members@.take(n as int))[key@],
                        *self == Json::Object(*members),
                    decreases n,
                {
                    assert(members@.take(n as int).drop_last() =~= members@.take(n - 1));
                    assert(fields(members@.take(n as int)) == fields(members@.take(n - 1)).insert(
                        members@[n - 1].key@,
                        members@[n - 1].value@,
                    ));
                    if same_text(members[n - 1].key.as_str(), key) {
                        return Some(&members[n - 1].value);
                    }
                    n = n - 1;
                }
                None
            },
            _ => None,
        }
    }

    /// The characters of this string, if it is one.
    pub fn as_text(&self) -> (text: Option<&str>)
        ensures
            match text {
                Some(t) => text_of(self@) == Some(t@),
                None => text_of(self@) is None,
            },
    {
        match self {
            Json::Text(text) => Some(text.as_str()),
            _ => None,
        }
    }

    /// The characters of the member under `key`, if there is one and it is a string.
    pub fn get_text(&self, key: &str) -> (text: Option<&str>)
        ensures
            match text {
                Some(t) => text_member(self@, key@) == Some(t@),
                None => text_member(self@, key@) is None,
            },
    {
        match self.get(key) {
            Some(value) => value.as_text(),
            None => None,
        }
    }
}

/// A document says what it holds: null, a truth value, the text of a number, characters, the items of an
/// array in their order, and the members of an object under their keys.
pub proof fn law_documents_say_what_they_hold(json: Json)
    ensures
        match json {
            Json::Null => json@ == JsonTree::Null,
            Json::Bool(b) => json@ == JsonTree::Bool(b),
            Json::Number(n) => json@ == JsonTree::Number(number_text(n)),
            Json::Text(s) => json@ == JsonTree::Text(s@),
            Json::Array(items) => {
                &&& json@ matches JsonTree::Items(seen)
                &&& seen.len() == items@.len()
                &&& forall|i: int| 0 <= i < items@.len() ==> #[trigger] seen[i] == items@[i]@
            },
            Json::Object(members) => json@ == JsonTree::Fields(fields(members@)),
        },
{
    match json {
        Json::Array(items) => lemma_trees(items@),
        _ => {},
    }
}

/// An object without members says nothing, and one more member at the end is what is said under its key,
/// in place of what was, while all other keys keep what they had.
pub proof fn law_later_members_count(members: Seq<Member>, last: Member)
    ensures
        fields(Seq::empty()) == Map::<Seq<char>, JsonTree>::empty(),
        fields(members.push(last)) == fields(members).insert(last.key@, last.value@),
{
    assert(members.push(last).drop_last() =~= members);
}

/// A member is found under its key in an object, whatever it is and whatever else the object has; there
/// is none under another key, and none in what is no object.
pub proof fn law_members_are_found_under_their_keys(
    others: Map<Seq<char>, JsonTree>,
    key: Seq<char>,
    value: JsonTree,
    other: JsonTree,
)
    requires
        !(other is Fields),
    ensures
        member(JsonTree::Fields(others.insert(key, value)), key) == Some(value),
        member(JsonTree::Fields(others.remove(key)), key) is None,
        member(other, key) is None,
        text_member(JsonTree::Fields(others.insert(key, value)), key) == match value {
            JsonTree::Text(text) => Some(text),
            _ => None,
        },
        text_member(JsonTree::Fields(others.remove(key)), key) is None,
        text_member(other, key) is None,
        text_of(value) == match value {
            JsonTree::Text(text) => Some(text),
            _ => None,
        },
{
}

/// A number is written in decimal digits by their codes: one digit below ten, and otherwise the digits of
/// its tenth with that of the rest behind them.
pub proof fn law_numbers_are_written_in_decimal(n: nat)
    ensures
        n < 10 ==> decimal_text(n).len() == 1,
        n >= 10 ==> decimal_text(n).drop_last() == decimal_text(n / 10),
        decimal_text(n).len() > 0,
        decimal_text(n).last() as int == 48 + n % 10,
{
    reveal_strlit("0123456789");
    if n >= 10 {
        assert(decimal_text(n).drop_last() =~= decimal_text(n / 10));
    }
}

} // verus!
