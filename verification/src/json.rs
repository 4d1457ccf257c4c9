//! JSON values as the library reads and writes them, with serde_json doing
//! the actual parsing and printing.

use vstd::prelude::*;

verus! {

/// serde_json's number, carried through unread.
#[verifier::external_type_specification]
#[verifier::external_body]
pub struct ExJsonNumber(serde_json::Number);

/// serde_json's value tree; only the conversions below touch it.
#[verifier::external_type_specification]
#[verifier::external_body]
pub struct ExJsonTree(serde_json::Value);

/// The mathematical model of a JSON value.
pub enum Json {
    Null,
    Bool(bool),
    Number(serde_json::Number),
    Str(Seq<char>),
    Array(Seq<Json>),
    Object(Seq<(Seq<char>, Json)>),
}

/// A JSON value. Object members keep the order in which serde_json hands
/// them out (its map has one entry per key).
pub enum JsonValue {
    Null,
    Bool(bool),
    Number(serde_json::Number),
    Str(String),
    Array(Vec<JsonValue>),
    Object(Vec<JsonMember>),
}

/// One member of a JSON object.
pub struct JsonMember {
    pub name: String,
    pub value: JsonValue,
}

impl View for JsonValue {
    type V = Json;

    open spec fn view(&self) -> Json
        decreases self,
    {
        match self {
            JsonValue::Null => Json::Null,
            JsonValue::Bool(b) => Json::Bool(*b),
            JsonValue::Number(n) => Json::Number(*n),
            JsonValue::Str(s) => Json::Str(s@),
            JsonValue::Array(items) => Json::Array(
                Seq::new(
                    items.len() as nat,
                    |i: int|
                        if 0 <= i < items.len() {
                            items@[i].view()
                        } else {
                            Json::Null
                        },
                ),
            ),
            JsonValue::Object(members) => Json::Object(
                Seq::new(
                    members.len() as nat,
                    |i: int|
                        (members@[i].name@, if 0 <= i < members.len() {
                            members@[i].value.view()
                        } else {
                            Json::Null
                        }),
                ),
            ),
        }
    }
}

/// What `serde_json::from_str::<serde_json::Value>` makes of `text`:
/// `None` where it reports an error.
pub uninterp spec fn json_parse(text: Seq<char>) -> Option<Json>;

/// The text that `serde_json::to_string` writes for `v` (empty if it fails).
pub uninterp spec fn json_write(v: Json) -> Seq<char>;

/// The string a JSON value holds, if it is a string.
pub open spec fn json_as_str(v: Json) -> Option<Seq<char>> {
    match v {
        Json::Str(s) => Some(s),
        _ => None,
    }
}

/// The value of the first member named `key`.
pub open spec fn member_lookup(members: Seq<(Seq<char>, Json)>, key: Seq<char>) -> Option<Json>
    decreases members.len(),
{
    if members.len() == 0 {
        None
    } else if members[0].0 == key {
        Some(members[0].1)
    } else {
        member_lookup(members.drop_first(), key)
    }
}

/// `v[key]` where `v` is an object; `None` for any other value.
pub open spec fn json_get(v: Json, key: Seq<char>) -> Option<Json> {
    match v {
        Json::Object(members) => member_lookup(members, key),
        _ => None,
    }
}

/// The string member `key` of `v`, if `v` is an object that has one.
pub open spec fn json_get_str(v: Json, key: Seq<char>) -> Option<Seq<char>> {
    match json_get(v, key) {
        Some(m) => json_as_str(m),
        None => None,
    }
}

/// Turns serde_json's tree into a `JsonValue`, variant by variant.
#[verifier::external_body]
fn tree_to_value(v: serde_json::Value) -> JsonValue {
    match v {
        serde_json::Value::Null => JsonValue::Null,
        serde_json::Value::Bool(b) => JsonValue::Bool(b),
        serde_json::Value::Number(n) => JsonValue::Number(n),
        serde_json::Value::String(s) => JsonValue::Str(s),
        serde_json::Value::Array(a) => JsonValue::Array(a.into_iter().map(tree_to_value).collect()),
        serde_json::Value::Object(o) => JsonValue::Object(
            o.into_iter().map(|(k, x)| JsonMember { name: k, value: tree_to_value(x) }).collect(),
        ),
    }
}

/// Turns a `JsonValue` into serde_json's tree, variant by variant.
#[verifier::external_body]
fn value_to_tree(v: JsonValue) -> serde_json::Value {
    match v {
        JsonValue::Null => serde_json::Value::Null,
        JsonValue::Bool(b) => serde_json::Value::Bool(b),
        JsonValue::Number(n) => serde_json::Value::Number(n),
        JsonValue::Str(s) => serde_json::Value::String(s),
        JsonValue::Array(a) => serde_json::Value::Array(a.into_iter().map(value_to_tree).collect()),
        JsonValue::Object(o) => serde_json::Value::Object(
            o.into_iter().map(|m| (m.name, value_to_tree(m.value))).collect(),
        ),
    }
}

/// Parses `text` with `serde_json::from_str::<serde_json::Value>`. The
/// contract names the result (`json_parse`): it is a function of the text
/// alone, and serde_json's grammar is not restated here.
#[verifier::external_body]
pub fn parse_json(text: &str) -> (r: Option<JsonValue>)
    ensures
        match r {
            Some(v) => json_parse(text@) == Some(v@),
            None => json_parse(text@) is None,
        },
{
    serde_json::from_str::<serde_json::Value>(text).ok().map(tree_to_value)
}

/// Prints `v` with `serde_json::to_string` (empty text on failure). The
/// contract names the result (`json_write`), a function of the value alone.
#[verifier::external_body]
pub fn write_json(v: JsonValue) -> (r: String)
    ensures
        r@ == json_write(v@),
{
    serde_json::to_string(&value_to_tree(v)).unwrap_or_default()
}

/// The string `v` holds, if it is a string.
pub fn value_as_str(v: &JsonValue) -> (r: Option<&String>)
    ensures
        match r {
            Some(s) => json_as_str(v@) == Some(s@),
            None => json_as_str(v@) is None,
        },
{
    match v {
        JsonValue::Str(s) => Some(s),
        _ => None,
    }
}

/// `v[key]` where `v` is an object: the value of the first member named `key`.
pub fn value_get<'a>(v: &'a JsonValue, key: &str) -> (r: Option<&'a JsonValue>)
    ensures
        match r {
            Some(m) => json_get(v@, key@) == Some(m@),
            None => json_get(v@, key@) is None,
        },
{
    match v {
        JsonValue::Object(members) => {
            let ghost ms = v@->Object_0;
            assert(v@ == Json::Object(ms));
            let n = members.len();
            let mut i: usize = 0;
            assert(ms.subrange(0, n as int) =~= ms);
            while i < n
                invariant
                    n == members.len(),
                    v@ == Json::Object(ms),
                    ms.len() == n,
                    0 <= i <= n,
                    forall|j: int|
                        0 <= j < n ==> #[trigger] ms[j] == (members@[j].name@, members@[j].value@),
                    member_lookup(ms, key@) == member_lookup(ms.subrange(i as int, n as int), key@),
                decreases n - i,
            {
                let ghost rest = ms.subrange(i as int, n as int);
                assert(rest[0] == ms[i as int]);
                if crate::text::string_equals(&members[i].name, key) {
                    assert(ms[i as int] == (members@[i as int].name@, members@[i as int].value@));
                    assert(member_lookup(rest, key@) == Some(members@[i as int].value@));
                    return Some(&members[i].value);
                }
                assert(rest.drop_first() =~= ms.subrange(i + 1, n as int));
                i = i + 1;
            }
            None
        },
        _ => None,
    }
}

/// The string member `key` of `v`, copied, if `v` is an object that has one.
pub fn value_get_str(v: &JsonValue, key: &str) -> (r: Option<String>)
    ensures
        match r {
            Some(s) => json_get_str(v@, key@) == Some(s@),
            None => json_get_str(v@, key@) is None,
        },
{
    match value_get(v, key) {
        Some(m) => match value_as_str(m) {
            Some(s) => Some(s.clone()),
            None => None,
        },
        None => None,
    }
}

/// The JSON string `s`.
pub fn json_string(s: String) -> (r: JsonValue)
    ensures
        r@ == Json::Str(s@),
{
    JsonValue::Str(s)
}

/// The array `[a, b]`.
pub fn json_pair(a: JsonValue, b: JsonValue) -> (r: JsonValue)
    ensures
        r@ == Json::Array(seq![a@, b@]),
{
    let ghost (av, bv) = (a@, b@);
    let mut items: Vec<JsonValue> = Vec::new();
    items.push(a);
    items.push(b);
    let r = JsonValue::Array(items);
    assert(r@->Array_0 =~= seq![av, bv]);
    r
}

/// The object whose members are `names[i]: JSON string values[i]`, in order.
pub fn json_string_object(names: Vec<String>, values: Vec<String>) -> (r: JsonValue)
    requires
        names.len() == values.len(),
    ensures
        r@ == Json::Object(
            Seq::new(names.len() as nat, |i: int| (names@[i]@, Json::Str(values@[i]@))),
        ),
{
    let ghost (nv, vv) = (names@, values@);
    let mut members: Vec<JsonMember> = Vec::new();
    let mut names = names;
    let mut values = values;
    let n = names.len();
    let mut i: usize = 0;
    while i < n
        invariant
            0 <= i <= n,
            names@.len() == values@.len(),
            names@ == nv.subrange(i as int, n as int),
            values@ == vv.subrange(i as int, n as int),
            nv.len() == n,
            vv.len() == n,
            members@.len() == i,
            forall|j: int|
                0 <= j < i ==> #[trigger] members@[j].name@ == nv[j]@ && members@[j].value@
                    == Json::Str(vv[j]@),
        decreases n - i,
    {
        let name = names.remove(0);
        let value = values.remove(0);
        assert(names@ =~= nv.subrange(i + 1, n as int));
        assert(values@ =~= vv.subrange(i + 1, n as int));
        members.push(JsonMember { name, value: JsonValue::Str(value) });
        i = i + 1;
    }
    let r = JsonValue::Object(members);
    assert(r@->Object_0 =~= Seq::new(n as nat, |i: int| (nv[i]@, Json::Str(vv[i]@))));
    r
}

/// The items of an array value, as models.
pub proof fn lemma_array_items(v: JsonValue)
    ensures
        v@ is Array <==> v is Array,
        v is Array ==> v@->Array_0.len() == v->Array_0@.len(),
        v is Array ==> forall|i: int|
            0 <= i < v->Array_0@.len() ==> #[trigger] v@->Array_0[i] == v->Array_0@[i]@,
{
}

} // verus!
