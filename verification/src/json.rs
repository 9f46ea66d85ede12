//! JSON documents, held as `serde_json::Value`.
//!
//! The contents of a document are described by [`Json`], a plain tree. The
//! functions below are the only ones that look inside a `serde_json::Value`;
//! the rest of the crate reads and builds documents through them.
use vstd::prelude::*;
use crate::named;
use crate::text;

verus! {

#[verifier::external_type_specification]
#[verifier::external_body]
pub struct ExValue(serde_json::Value);

/// What a JSON document holds.
pub enum Json {
    /// `null`.
    Null,
    /// `true` or `false`.
    Bool(bool),
    /// An integer from 0 to `u64::MAX`.
    UInt(u64),
    /// A negative integer from `i64::MIN`.
    Int(i64),
    /// Any other number, by the text it is printed as.
    Float(Seq<char>),
    /// A string.
    Str(Seq<char>),
    /// An array.
    Arr(Seq<Json>),
    /// An object. Its keys have no order.
    Obj(Map<Seq<char>, Json>),
}

impl Json {
    /// The member named `key`; `null` for a missing key and for anything that
    /// is not an object.
    pub open spec fn member(self, key: Seq<char>) -> Json {
        match self {
            Json::Obj(m) => if m.contains_key(key) {
                m[key]
            } else {
                Json::Null
            },
            _ => Json::Null,
        }
    }

    /// The element at `i`; `null` outside the array and for anything that is
    /// not an array.
    pub open spec fn element(self, i: int) -> Json {
        match self {
            Json::Arr(a) => if 0 <= i < a.len() {
                a[i]
            } else {
                Json::Null
            },
            _ => Json::Null,
        }
    }

    /// The string, if it is one.
    pub open spec fn string(self) -> Option<Seq<char>> {
        match self {
            Json::Str(s) => Some(s),
            _ => None,
        }
    }

    /// The non-negative integer, if it is one.
    pub open spec fn uint(self) -> Option<u64> {
        match self {
            Json::UInt(n) => Some(n),
            _ => None,
        }
    }

    /// The elements of the array, if it is one.
    pub open spec fn elements(self) -> Option<Seq<Json>> {
        match self {
            Json::Arr(a) => Some(a),
            _ => None,
        }
    }
}

/// The object with the given members; of two with one key the later counts.
pub open spec fn members(entries: Seq<(Seq<char>, Json)>) -> Map<Seq<char>, Json>
    decreases entries.len(),
{
    if entries.len() == 0 {
        Map::empty()
    } else {
        members(entries.drop_last()).insert(entries.last().0, entries.last().1)
    }
}

/// The object with the given members; of two with one key the later counts.
pub open spec fn object(entries: Seq<(Seq<char>, Json)>) -> Json {
    Json::Obj(members(entries))
}

/// A member of an object is the last one with its key.
pub proof fn lemma_member(entries: Seq<(Seq<char>, Json)>, i: int)
    requires
        0 <= i < entries.len(),
        forall|k: int| i < k < entries.len() ==> (#[trigger] entries[k]).0 != entries[i].0,
    ensures
        object(entries).member(entries[i].0) == entries[i].1,
    decreases entries.len(),
{
    if i < entries.len() - 1 {
        let rest = entries.drop_last();
        assert forall|k: int| i < k < rest.len() implies (#[trigger] rest[k]).0 != rest[i].0 by {
            assert(rest[k] == entries[k]);
        }
        lemma_member(rest, i);
        assert(entries[entries.len() - 1].0 != entries[i].0);
    }
}

/// What the values of a list hold, in order.
pub open spec fn jsons_of(values: Seq<serde_json::Value>) -> Seq<Json> {
    values.map_values(|v: serde_json::Value| json_of(v))
}

/// What a list of keys and values holds, in order.
pub open spec fn entries_of(entries: Seq<(String, serde_json::Value)>) -> Seq<(Seq<char>, Json)> {
    entries.map_values(|e: (String, serde_json::Value)| (e.0@, json_of(e.1)))
}

/// What a `serde_json::Value` holds.
pub uninterp spec fn json_of(v: serde_json::Value) -> Json;

/// What `serde_json` reads from a text: the document, or its error message.
pub uninterp spec fn parsed_json(text: Seq<char>) -> Result<Json, Seq<char>>;

/// The compact text that `serde_json` prints for a document.
pub uninterp spec fn json_text(j: Json) -> Seq<char>;

/// `serde_json::from_str`: the document a text holds, or the message of the
/// error. The result depends on the text alone.
#[verifier::external_body]
pub(crate) fn parse_json(text: &str) -> (r: Result<serde_json::Value, String>)
    ensures
        match r {
            Ok(v) => parsed_json(text@) == Ok::<Json, Seq<char>>(json_of(v)),
            Err(e) => parsed_json(text@) == Err::<Json, Seq<char>>(e@),
        },
{
    serde_json::from_str::<serde_json::Value>(text).map_err(|e| e.to_string())
}

/// What `serde_json` reads from bytes: the document, or its error message.
pub uninterp spec fn parsed_json_bytes(bytes: Seq<u8>) -> Result<Json, Seq<char>>;

/// `serde_json::from_slice`: the document that bytes hold, or the message of
/// the error. The result depends on the bytes alone.
#[verifier::external_body]
pub(crate) fn parse_json_bytes(bytes: &Vec<u8>) -> (r: Result<serde_json::Value, String>)
    ensures
        match r {
            Ok(v) => parsed_json_bytes(bytes@) == Ok::<Json, Seq<char>>(json_of(v)),
            Err(e) => parsed_json_bytes(bytes@) == Err::<Json, Seq<char>>(e@),
        },
{
    serde_json::from_slice::<serde_json::Value>(bytes).map_err(|e| e.to_string())
}

/// `Value::to_string`: the compact text of a document, which depends on what
/// the document holds alone. It is one line: nothing is put between the parts
/// of a document, and line breaks within strings are escaped.
#[verifier::external_body]
pub(crate) fn value_text(v: &serde_json::Value) -> (r: String)
    ensures
        r@ == json_text(json_of(*v)),
        !r@.contains('\n'),
{
    v.to_string()
}

/// `Value::clone`: a document that holds the same.
pub assume_specification[ <serde_json::Value as Clone>::clone ](v: &serde_json::Value) -> (r:
    serde_json::Value)
    ensures
        json_of(r) == json_of(*v),
;

/// `Value[key]`: the member of an object, `null` where there is none.
#[verifier::external_body]
pub(crate) fn member_of<'a>(v: &'a serde_json::Value, key: &str) -> (r: &'a serde_json::Value)
    ensures
        json_of(*r) == json_of(*v).member(key@),
{
    &v[key]
}

/// `Value[i]`: the element of an array, `null` where there is none.
#[verifier::external_body]
pub(crate) fn element_of(v: &serde_json::Value, i: usize) -> (r: &serde_json::Value)
    ensures
        json_of(*r) == json_of(*v).element(i as int),
{
    &v[i]
}

/// `Value::as_str`: the string, if the document is one.
#[verifier::external_body]
pub(crate) fn string_of(v: &serde_json::Value) -> (r: Option<&str>)
    ensures
        match r {
            Some(s) => json_of(*v).string() == Some(s@),
            None => json_of(*v).string() is None,
        },
{
    v.as_str()
}

/// `Value::as_u64`: the integer, if the document is one and is not negative.
#[verifier::external_body]
pub(crate) fn uint_of(v: &serde_json::Value) -> (r: Option<u64>)
    ensures
        r == json_of(*v).uint(),
{
    v.as_u64()
}

/// `Value::is_null`: whether the document is `null`.
#[verifier::external_body]
pub(crate) fn is_null(v: &serde_json::Value) -> (r: bool)
    ensures
        r == (json_of(*v) is Null),
{
    v.is_null()
}

/// `Value::as_array`: the elements in order, if the document is an array.
#[verifier::external_body]
pub(crate) fn elements_of(v: &serde_json::Value) -> (r: Option<&Vec<serde_json::Value>>)
    ensures
        match r {
            Some(a) => json_of(*v).elements() == Some(jsons_of(a@)),
            None => json_of(*v).elements() is None,
        },
{
    v.as_array()
}

/// The list has the members of the object, each once.
pub open spec fn lists_object(
    list: Seq<(String, serde_json::Value)>,
    m: Map<Seq<char>, Json>,
) -> bool {
    &&& forall|i: int|
        0 <= i < list.len() ==> m.contains_key((#[trigger] list[i]).0@) && m[list[i].0@] == json_of(
            list[i].1,
        )
    &&& forall|k: Seq<char>| m.contains_key(k) ==> #[trigger] named::has_name(list, k)
}

/// `Value::as_object`: a copy of the members, each once, if the document is
/// an object. In which order they come is left open.
#[verifier::external_body]
pub(crate) fn object_entries(v: &serde_json::Value) -> (r: Option<Vec<(String, serde_json::Value)>>)
    ensures
        match r {
            Some(list) => {
                &&& json_of(*v) matches Json::Obj(m) && lists_object(list@, m)
                &&& named::distinct(list@)
            },
            None => !(json_of(*v) is Obj),
        },
{
    let m = v.as_object()?;
    Some(m.iter().map(|(k, v)| (k.clone(), v.clone())).collect())
}

/// `Value::String`: the document that holds a string.
#[verifier::external_body]
pub(crate) fn json_string(s: &str) -> (r: serde_json::Value)
    ensures
        json_of(r) == Json::Str(s@),
{
    serde_json::Value::String(s.to_owned())
}

/// `Value::Null`: the document that holds nothing.
#[verifier::external_body]
pub(crate) fn json_null() -> (r: serde_json::Value)
    ensures
        json_of(r) == Json::Null,
{
    serde_json::Value::Null
}

/// `Value::Bool`: the document that holds a truth value.
#[verifier::external_body]
pub(crate) fn json_bool(b: bool) -> (r: serde_json::Value)
    ensures
        json_of(r) == Json::Bool(b),
{
    serde_json::Value::Bool(b)
}

/// `Value::Number`: the document that holds a non-negative integer.
#[verifier::external_body]
pub(crate) fn json_uint(n: u64) -> (r: serde_json::Value)
    ensures
        json_of(r) == Json::UInt(n),
{
    serde_json::Value::Number(serde_json::Number::from(n))
}

/// What a whole number is as a document.
pub open spec fn whole_number(n: i64) -> Json {
    if n >= 0 {
        Json::UInt(n as u64)
    } else {
        Json::Int(n)
    }
}

/// `Value::Number`: the document that holds a whole number.
#[verifier::external_body]
pub(crate) fn json_int(n: i64) -> (r: serde_json::Value)
    ensures
        json_of(r) == whole_number(n),
{
    serde_json::Value::Number(serde_json::Number::from(n))
}

/// `Value::Array`: the document that holds an array.
#[verifier::external_body]
pub(crate) fn json_array(items: Vec<serde_json::Value>) -> (r: serde_json::Value)
    ensures
        json_of(r) == Json::Arr(jsons_of(items@)),
{
    serde_json::Value::Array(items)
}

/// `Value::Object` of `serde_json::Map::new`: the object without members.
#[verifier::external_body]
fn empty_object() -> (r: serde_json::Value)
    ensures
        json_of(r) == Json::Obj(Map::empty()),
{
    serde_json::Value::Object(serde_json::Map::new())
}

/// `Value[key] = value`: writes a member of an object. A key that is not
/// there yet is added, and the value of one that is there is replaced; no
/// other member changes. On a document that is no object the write would
/// panic, or make an object of `null`.
#[verifier::external_body]
fn set_member(object: &mut serde_json::Value, key: &str, value: serde_json::Value)
    requires
        json_of(*old(object)) is Obj,
    ensures
        json_of(*final(object)) == Json::Obj(
            json_of(*old(object))->Obj_0.insert(key@, json_of(value)),
        ),
{
    object[key] = value;
}

/// The document that holds an object with these members; of two with one key
/// the later counts.
pub(crate) fn json_object(entries: Vec<(String, serde_json::Value)>) -> (r: serde_json::Value)
    ensures
        json_of(r) == object(entries_of(entries@)),
{
    let ghost all = entries@;
    let mut rest = entries;
    let mut r = empty_object();
    let ghost mut done: Seq<(String, serde_json::Value)> = Seq::empty();
    assert(done + rest@ =~= all);
    while rest.len() > 0
        invariant
            done + rest@ == all,
            json_of(r) == object(entries_of(done)),
        decreases rest.len(),
    {
        let ghost before = rest@;
        let (key, value) = rest.remove(0);
        set_member(&mut r, key.as_str(), value);
        proof {
            let now = done.push((key, value));
            assert(entries_of(now).drop_last() =~= entries_of(done));
            assert(now + rest@ =~= done + before);
            done = now;
        }
    }
    assert(done =~= all);
    r
}

/// The strings of an array of strings.
pub open spec fn strings_in(j: Json) -> Option<Seq<Seq<char>>> {
    match j {
        Json::Arr(a) => if forall|i: int| 0 <= i < a.len() ==> (#[trigger] a[i]) is Str {
            Some(a.map_values(|e: Json| e->Str_0))
        } else {
            None
        },
        _ => None,
    }
}

/// The strings of a text that holds a JSON array of strings; none for any
/// other text.
pub open spec fn string_list_of(text: Seq<char>) -> Seq<Seq<char>> {
    match parsed_json(text) {
        Ok(j) => match strings_in(j) {
            Some(list) => list,
            None => Seq::empty(),
        },
        Err(_) => Seq::empty(),
    }
}

/// The strings of a text that holds a JSON array of strings; none for any
/// other text.
pub fn string_list(text: &str) -> (r: Vec<String>)
    ensures
        text::views(r@) == string_list_of(text@),
{
    let mut out: Vec<String> = Vec::new();
    assert(text::views(out@) =~= Seq::<Seq<char>>::empty());
    let value = match parse_json(text) {
        Ok(v) => v,
        Err(_) => {
            return out;
        },
    };
    let items = match elements_of(&value) {
        Some(items) => items,
        None => {
            return out;
        },
    };
    let ghost a = jsons_of(items@);
    let mut i: usize = 0;
    while i < items.len()
        invariant
            i <= items@.len(),
            a == jsons_of(items@),
            parsed_json(text@) == Ok::<Json, Seq<char>>(json_of(value)),
            json_of(value) == Json::Arr(a),
            forall|k: int| 0 <= k < i ==> (#[trigger] a[k]) is Str,
            text::views(out@) == a.take(i as int).map_values(|e: Json| e->Str_0),
        decreases items@.len() - i,
    {
        assert(a[i as int] == json_of(items@[i as int]));
        match string_of(&items[i]) {
            Some(s) => {
                let ghost before = text::views(out@);
                out.push(s.to_owned());
                assert(text::views(out@) =~= before.push(s@));
                assert(text::views(out@) =~= a.take(i + 1).map_values(|e: Json| e->Str_0));
            },
            None => {
                let none: Vec<String> = Vec::new();
                assert(text::views(none@) =~= Seq::<Seq<char>>::empty());
                return none;
            },
        }
        i += 1;
    }
    assert(a.take(i as int) =~= a);
    out
}

/// A member of an object.
pub(crate) fn entry(key: &str, value: serde_json::Value) -> (r: (String, serde_json::Value))
    ensures
        r.0@ == key@,
        r.1 == value,
{
    (key.to_owned(), value)
}

/// The object with one member.
pub(crate) fn object1(key: &str, value: serde_json::Value) -> (r: serde_json::Value)
    ensures
        json_of(r) == object(seq![(key@, json_of(value))]),
{
    let entries = vec![entry(key, value)];
    assert(entries_of(entries@) =~= seq![(key@, json_of(value))]);
    json_object(entries)
}

/// The object with two members.
pub(crate) fn object2(
    key1: &str,
    value1: serde_json::Value,
    key2: &str,
    value2: serde_json::Value,
) -> (r: serde_json::Value)
    ensures
        json_of(r) == object(seq![(key1@, json_of(value1)), (key2@, json_of(value2))]),
{
    let entries = vec![entry(key1, value1), entry(key2, value2)];
    assert(entries_of(entries@) =~= seq![(key1@, json_of(value1)), (key2@, json_of(value2))]);
    json_object(entries)
}

/// The object with three members.
pub(crate) fn object3(
    key1: &str,
    value1: serde_json::Value,
    key2: &str,
    value2: serde_json::Value,
    key3: &str,
    value3: serde_json::Value,
) -> (r: serde_json::Value)
    ensures
        json_of(r) == object(
            seq![(key1@, json_of(value1)), (key2@, json_of(value2)), (key3@, json_of(value3))],
        ),
{
    let entries = vec![entry(key1, value1), entry(key2, value2), entry(key3, value3)];
    assert(entries_of(entries@) =~= seq![
        (key1@, json_of(value1)),
        (key2@, json_of(value2)),
        (key3@, json_of(value3)),
    ]);
    json_object(entries)
}

/// The object with four members.
pub(crate) fn object4(
    key1: &str,
    value1: serde_json::Value,
    key2: &str,
    value2: serde_json::Value,
    key3: &str,
    value3: serde_json::Value,
    key4: &str,
    value4: serde_json::Value,
) -> (r: serde_json::Value)
    ensures
        json_of(r) == object(
            seq![
                (key1@, json_of(value1)),
                (key2@, json_of(value2)),
                (key3@, json_of(value3)),
                (key4@, json_of(value4)),
            ],
        ),
{
    let entries = vec![
        entry(key1, value1),
        entry(key2, value2),
        entry(key3, value3),
        entry(key4, value4),
    ];
    assert(entries_of(entries@) =~= seq![
        (key1@, json_of(value1)),
        (key2@, json_of(value2)),
        (key3@, json_of(value3)),
        (key4@, json_of(value4)),
    ]);
    json_object(entries)
}

/// The array with one element.
pub(crate) fn array1(first: serde_json::Value) -> (r: serde_json::Value)
    ensures
        json_of(r) == Json::Arr(seq![json_of(first)]),
{
    let items = vec![first];
    assert(jsons_of(items@) =~= seq![json_of(first)]);
    json_array(items)
}

/// The array with two elements.
pub(crate) fn array2(first: serde_json::Value, second: serde_json::Value) -> (r: serde_json::Value)
    ensures
        json_of(r) == Json::Arr(seq![json_of(first), json_of(second)]),
{
    let items = vec![first, second];
    assert(jsons_of(items@) =~= seq![json_of(first), json_of(second)]);
    json_array(items)
}

/// Copies of documents.
pub(crate) fn copy_values(values: &Vec<serde_json::Value>) -> (r: Vec<serde_json::Value>)
    ensures
        jsons_of(r@) == jsons_of(values@),
{
    let mut r: Vec<serde_json::Value> = Vec::new();
    let mut i: usize = 0;
    assert(jsons_of(r@) =~= jsons_of(values@).take(0));
    while i < values.len()
        invariant
            i <= values@.len(),
            jsons_of(r@) == jsons_of(values@).take(i as int),
        decreases values@.len() - i,
    {
        let ghost before = r@;
        let value = values[i].clone();
        r.push(value);
        assert(jsons_of(r@) =~= jsons_of(before).push(json_of(value)));
        assert(jsons_of(values@).take(i + 1) =~= jsons_of(values@).take(i as int).push(
            json_of(values@[i as int]),
        ));
        i += 1;
    }
    assert(jsons_of(values@).take(i as int) =~= jsons_of(values@));
    r
}

/// The first text among the elements of an array.
pub open spec fn first_text(parts: Seq<Json>) -> Option<Seq<char>>
    decreases parts.len(),
{
    if parts.len() == 0 {
        None
    } else if parts[0].member("text"@).string() is Some {
        parts[0].member("text"@).string()
    } else {
        first_text(parts.skip(1))
    }
}

/// The first text among the parts of a message.
pub(crate) fn text_of_parts(parts: &Vec<serde_json::Value>) -> (r: Option<String>)
    ensures
        match r {
            Some(t) => first_text(jsons_of(parts@)) == Some(t@),
            None => first_text(jsons_of(parts@)) is None,
        },
{
    let ghost all = jsons_of(parts@);
    let mut i: usize = 0;
    assert(all.skip(0) =~= all);
    while i < parts.len()
        invariant
            all == jsons_of(parts@),
            i <= parts@.len(),
            first_text(all) == first_text(all.skip(i as int)),
        decreases parts@.len() - i,
    {
        assert(all.skip(i as int)[0] == json_of(parts@[i as int]));
        if let Some(t) = string_of(member_of(&parts[i], "text")) {
            return Some(t.to_owned());
        }
        assert(all.skip(i as int).skip(1) =~= all.skip(i + 1));
        i += 1;
    }
    None
}

/// The document that holds a string, or `null`.
pub(crate) fn json_option(value: &Option<String>) -> (r: serde_json::Value)
    ensures
        json_of(r) == option_json(*value),
{
    match value {
        Some(v) => json_string(v.as_str()),
        None => json_null(),
    }
}

/// A string, or `null`.
pub open spec fn option_json(value: Option<String>) -> Json {
    match value {
        Some(v) => Json::Str(v@),
        None => Json::Null,
    }
}

/// An object has the members that it is made of, and no others; of entries
/// with one name the last counts.
pub proof fn law_members_are_the_entries(entries: Seq<(Seq<char>, Json)>, key: Seq<char>)
    ensures
        members(entries).contains_key(key) <==> exists|i: int|
            0 <= i < entries.len() && (#[trigger] entries[i]).0 == key,
        !members(entries).contains_key(key) ==> object(entries).member(key) is Null,
    decreases entries.len(),
{
    if entries.len() > 0 {
        let rest = entries.drop_last();
        law_members_are_the_entries(rest, key);
        let last = entries.len() - 1;
        if entries[last].0 == key {
        } else if members(rest).contains_key(key) {
            let i = choose|i: int| 0 <= i < rest.len() && (#[trigger] rest[i]).0 == key;
            assert(entries[i].0 == key);
        } else {
            assert forall|i: int| 0 <= i < entries.len() implies (#[trigger] entries[i]).0 != key by {
                if i < last {
                    assert(rest[i] == entries[i]);
                }
            }
        }
    }
}

/// A list of strings is read if and only if everything in it is a string.
pub proof fn law_string_lists_hold_strings(a: Seq<Json>, i: int)
    requires
        0 <= i < a.len(),
    ensures
        strings_in(Json::Arr(a)) matches Some(list) ==> list.len() == a.len() && a[i] == Json::Str(
            list[i],
        ),
        !(a[i] is Str) ==> strings_in(Json::Arr(a)) is None,
{
}

/// The first text among parts is that of the first part that has one.
pub proof fn law_first_text_comes_first(parts: Seq<Json>, i: int)
    requires
        0 <= i < parts.len(),
        forall|k: int| 0 <= k < i ==> (#[trigger] parts[k]).member("text"@).string() is None,
        parts[i].member("text"@).string() is Some,
    ensures
        first_text(parts) == parts[i].member("text"@).string(),
    decreases i,
{
    if i > 0 {
        let rest = parts.skip(1);
        assert forall|k: int| 0 <= k < i - 1 implies (#[trigger] rest[k]).member(
            "text"@,
        ).string() is None by {
            assert(rest[k] == parts[k + 1]);
        }
        assert(parts[0].member("text"@).string() is None);
        assert(rest[i - 1] == parts[i]);
        law_first_text_comes_first(rest, i - 1);
    }
}

} // verus!
