//! A JSON tree of plain values, its mathematical model, and the trusted
//! boundary to the outside parser.
//!
//! The external tool's report arrives as JSON text. Parsing the text into a
//! tree is delegated to `serde_json`; everything after that — looking fields
//! up, checking the schema, normalizing tolerant shapes — is verified logic
//! over the [`Json`] tree.

use vstd::prelude::*;

use crate::strutil::str_eq;

verus! {

broadcast use vstd::std_specs::vec::group_vec_axioms;

/// A JSON value held as plain data. Numbers are carried as their decimal
/// text; this crate's schema never reads them.
pub enum Json {
    Null,
    Bool(bool),
    Number(String),
    Str(String),
    Arr(Vec<Json>),
    Obj(Vec<(String, Json)>),
}

/// The mathematical model of a [`Json`] tree.
pub ghost enum JsonData {
    Null,
    Bool(bool),
    Number(Seq<char>),
    Str(Seq<char>),
    Arr(Seq<JsonData>),
    Obj(Seq<(Seq<char>, JsonData)>),
}

/// The model of a [`Json`] value.
pub open spec fn json_view(j: Json) -> JsonData
    decreases j,
{
    match j {
        Json::Null => JsonData::Null,
        Json::Bool(b) => JsonData::Bool(b),
        Json::Number(s) => JsonData::Number(s@),
        Json::Str(s) => JsonData::Str(s@),
        Json::Arr(items) => JsonData::Arr(
            Seq::new(
                items@.len(),
                |i: int|
                    if 0 <= i < items@.len() {
                        proof {
                            assert(decreases_to!(j => items));
                            lemma_vec_element_decreases(items, i);
                        }
                        json_view(items@[i])
                    } else {
                        JsonData::Null
                    },
            ),
        ),
        Json::Obj(entries) => JsonData::Obj(
            Seq::new(
                entries@.len(),
                |i: int|
                    if 0 <= i < entries@.len() {
                        proof {
                            assert(decreases_to!(j => entries));
                            lemma_vec_element_decreases(entries, i);
                            assert(decreases_to!(entries@[i] => entries@[i].1));
                        }
                        (entries@[i].0@, json_view(entries@[i].1))
                    } else {
                        (Seq::empty(), JsonData::Null)
                    },
            ),
        ),
    }
}

/// A vector's element sits below the vector in the termination order.
pub proof fn lemma_vec_element_decreases<T>(v: Vec<T>, i: int)
    ensures
        0 <= i < v@.len() ==> decreases_to!(v => v@[i]),
{
    if 0 <= i < v@.len() {
        assert(decreases_to!(v => v@));
        assert(decreases_to!(v@ => v@[i]));
    }
}

impl View for Json {
    type V = JsonData;

    open spec fn view(&self) -> JsonData {
        json_view(*self)
    }
}

/// What parsing a piece of text yields: the external parser is a function of
/// the text alone, and this names its result.
pub uninterp spec fn json_parse(text: Seq<char>) -> Option<JsonData>;

/// The type of the outside parser's tree.
#[verifier::external_type_specification]
#[verifier::external_body]
pub struct ExValue(serde_json::Value);

/// Rebuilds `serde_json`'s tree as the crate's own [`Json`] tree: one arm
/// per variant, moving the data across. Called only from
/// [`parse_json_text`]'s body; numbers keep their decimal text.
#[verifier::external_body]
fn json_of_value(v: serde_json::Value) -> Json {
    match v {
        serde_json::Value::Null => Json::Null,
        serde_json::Value::Bool(b) => Json::Bool(b),
        serde_json::Value::Number(n) => Json::Number(n.to_string()),
        serde_json::Value::String(s) => Json::Str(s),
        serde_json::Value::Array(a) => Json::Arr(a.into_iter().map(json_of_value).collect()),
        serde_json::Value::Object(m) => Json::Obj(
            m.into_iter().map(|(k, x)| (k, json_of_value(x))).collect(),
        ),
    }
}

/// Relies on `serde_json::from_str::<serde_json::Value>`: whether the text
/// parses, and the tree it parses to, depend on the text alone. The tree is
/// handed back as the crate's own [`Json`] type.
#[verifier::external_body]
pub(crate) fn parse_json_text(text: &str) -> (r: Option<Json>)
    ensures
        r is Some <==> json_parse(text@) is Some,
        r matches Some(j) ==> json_parse(text@) == Some(j@),
{
    serde_json::from_str::<serde_json::Value>(text).ok().map(json_of_value)
}

/// First value stored under `key`, scanning the entries in order.
pub open spec fn obj_get(entries: Seq<(Seq<char>, JsonData)>, key: Seq<char>) -> Option<JsonData>
    decreases entries.len(),
{
    if entries.len() == 0 {
        None
    } else if entries[0].0 == key {
        Some(entries[0].1)
    } else {
        obj_get(entries.drop_first(), key)
    }
}

/// The value stored under `key` when `j` is an object holding that key.
pub open spec fn field_of(j: JsonData, key: Seq<char>) -> Option<JsonData> {
    match j {
        JsonData::Obj(entries) => obj_get(entries, key),
        _ => None,
    }
}

impl Json {
    /// Looks a field up in an object, returning the first entry stored under
    /// `key`. On any non-object value there is no field.
    pub fn field<'a>(&'a self, key: &str) -> (r: Option<&'a Json>)
        ensures
            match r {
                Some(v) => field_of(self@, key@) == Some(v@),
                None => field_of(self@, key@) is None,
            },
    {
        match self {
            Json::Obj(entries) => {
                let ghost m = obj_get(self@->Obj_0, key@);
                let mut i: usize = 0;
                while i < entries.len()
                    invariant
                        i <= entries@.len(),
                        self matches Json::Obj(es) && es == entries,
                        forall|k: int| 0 <= k < i ==> #[trigger] entries@[k].0@ != key@,
                        m == obj_get(self@->Obj_0, key@),
                    decreases entries@.len() - i,
                {
                    let pair = &entries[i];
                    if str_eq(pair.0.as_str(), key) {
                        proof {
                            lemma_obj_get_skip(self@->Obj_0, key@, i as int);
                        }
                        return Some(&pair.1);
                    }
                    i += 1;
                }
                proof {
                    lemma_obj_get_skip(self@->Obj_0, key@, entries@.len() as int);
                }
                None
            },
            _ => None,
        }
    }
}

/// The character content of a string node; other nodes have none.
pub open spec fn str_of(j: JsonData) -> Seq<char> {
    match j {
        JsonData::Str(s) => s,
        _ => Seq::empty(),
    }
}

/// Every element of the array is a string node.
pub open spec fn all_strings(a: Seq<JsonData>) -> bool {
    forall|i: int| 0 <= i < a.len() ==> a[i] is Str
}

/// The character content of each element of an array of string nodes.
pub open spec fn strings_of(a: Seq<JsonData>) -> Seq<Seq<char>> {
    a.map_values(|x: JsonData| str_of(x))
}

/// The concatenation of a list of strings, in order, with no separator.
pub open spec fn concat_strings(ss: Seq<Seq<char>>) -> Seq<char>
    decreases ss.len(),
{
    if ss.len() == 0 {
        Seq::empty()
    } else {
        ss[0] + concat_strings(ss.drop_first())
    }
}

/// Appending one more string concatenates it at the end.
proof fn lemma_concat_strings_snoc(ss: Seq<Seq<char>>, x: Seq<char>)
    ensures
        concat_strings(ss.push(x)) == concat_strings(ss) + x,
    decreases ss.len(),
{
    if ss.len() == 0 {
        assert(ss.push(x)[0] == x);
        assert(ss.push(x).drop_first() =~= Seq::<Seq<char>>::empty());
        assert(concat_strings(Seq::<Seq<char>>::empty()) == Seq::<char>::empty());
        assert(x + Seq::<char>::empty() =~= x);
        assert(concat_strings(ss) + x =~= x);
    } else {
        assert(ss.push(x)[0] == ss[0]);
        assert(ss.push(x).drop_first() =~= ss.drop_first().push(x));
        lemma_concat_strings_snoc(ss.drop_first(), x);
        assert(ss[0] + (concat_strings(ss.drop_first()) + x) =~= (ss[0] + concat_strings(
            ss.drop_first(),
        )) + x);
    }
}

/// The model of the items of a [`Json::Arr`] node.
pub open spec fn arr_items_view(items: Vec<Json>) -> Seq<JsonData> {
    json_view(Json::Arr(items))->Arr_0
}

// What each schema field kind accepts, and the value it carries.
//
// A required string field must be present as a string. An optional string
// field may be absent or null. A required string-array field must be present
// as an array of strings; an optional one may also be absent or null. The
// description field is the tolerant one: absent or null give no description,
// a string gives that string, and an array of strings gives the
// concatenation of its elements in order with no separator.

/// `key` is present in `j` as a string node.
pub open spec fn wf_req_string(j: JsonData, key: Seq<char>) -> bool {
    field_of(j, key) matches Some(v) && v is Str
}

/// The string stored under `key`.
pub open spec fn req_string(j: JsonData, key: Seq<char>) -> Seq<char> {
    match field_of(j, key) {
        Some(v) => str_of(v),
        None => Seq::empty(),
    }
}

/// `key` is absent from `j`, or present as null or a string.
pub open spec fn wf_opt_string(j: JsonData, key: Seq<char>) -> bool {
    match field_of(j, key) {
        None => true,
        Some(v) => v is Null || v is Str,
    }
}

/// The string stored under `key`, when one is.
pub open spec fn opt_string(j: JsonData, key: Seq<char>) -> Option<Seq<char>> {
    match field_of(j, key) {
        Some(JsonData::Str(s)) => Some(s),
        _ => None,
    }
}

/// `key` is present in `j` as an array of string nodes.
pub open spec fn wf_req_string_arr(j: JsonData, key: Seq<char>) -> bool {
    match field_of(j, key) {
        Some(JsonData::Arr(a)) => all_strings(a),
        _ => false,
    }
}

/// The strings stored under `key`.
pub open spec fn req_string_arr(j: JsonData, key: Seq<char>) -> Seq<Seq<char>> {
    match field_of(j, key) {
        Some(JsonData::Arr(a)) => strings_of(a),
        _ => Seq::empty(),
    }
}

/// `key` is absent from `j`, or present as null or an array of string nodes.
pub open spec fn wf_opt_string_arr(j: JsonData, key: Seq<char>) -> bool {
    match field_of(j, key) {
        None => true,
        Some(JsonData::Null) => true,
        Some(JsonData::Arr(a)) => all_strings(a),
        Some(_) => false,
    }
}

/// The strings stored under `key`, when an array is.
pub open spec fn opt_string_arr(j: JsonData, key: Seq<char>) -> Option<Seq<Seq<char>>> {
    match field_of(j, key) {
        Some(JsonData::Arr(a)) => Some(strings_of(a)),
        _ => None,
    }
}

/// The shapes the description field accepts: absent, null, one string, or an
/// array of strings.
pub open spec fn wf_description_value(v: Option<JsonData>) -> bool {
    match v {
        None => true,
        Some(JsonData::Null) => true,
        Some(JsonData::Str(_)) => true,
        Some(JsonData::Arr(a)) => all_strings(a),
        Some(_) => false,
    }
}

/// The one description the accepted shapes normalize to.
pub open spec fn description_value(v: Option<JsonData>) -> Option<Seq<char>> {
    match v {
        Some(JsonData::Str(s)) => Some(s),
        Some(JsonData::Arr(a)) => Some(concat_strings(strings_of(a))),
        _ => None,
    }
}

/// Law: the description field parses identically whether the source encodes
/// it as one string or as an array of strings with the same concatenation.
pub proof fn lemma_description_shapes_agree(items: Seq<JsonData>, s: Seq<char>)
    requires
        all_strings(items),
        concat_strings(strings_of(items)) == s,
    ensures
        description_value(Some(JsonData::Str(s))) == description_value(
            Some(JsonData::Arr(items)),
        ),
{
}

/// The string field stored under `key`; fails on any other shape.
pub fn get_req_string(j: &Json, key: &str) -> (r: Result<String, ()>)
    ensures
        r is Ok <==> wf_req_string(j@, key@),
        r matches Ok(s) ==> s@ == req_string(j@, key@),
{
    match j.field(key) {
        Some(Json::Str(s)) => Ok(s.clone()),
        _ => Err(()),
    }
}

/// The optional string field stored under `key`; absent and null read as no
/// value, and any other shape fails.
pub fn get_opt_string(j: &Json, key: &str) -> (r: Result<Option<String>, ()>)
    ensures
        r is Ok <==> wf_opt_string(j@, key@),
        r matches Ok(v) ==> v.deep_view() == opt_string(j@, key@),
{
    match j.field(key) {
        Option::None => Ok(Option::None),
        Some(Json::Null) => Ok(Option::None),
        Some(Json::Str(s)) => Ok(Some(s.clone())),
        Some(_) => Err(()),
    }
}

/// The character content of an array of string nodes; fails when any element
/// is not a string.
fn strings_of_array(items: &Vec<Json>) -> (r: Result<Vec<String>, ()>)
    ensures
        r is Ok <==> all_strings(arr_items_view(*items)),
        r matches Ok(v) ==> v.deep_view() == strings_of(arr_items_view(*items)),
{
    let ghost av = arr_items_view(*items);
    let mut out: Vec<String> = Vec::new();
    let mut i: usize = 0;
    while i < items.len()
        invariant
            i <= items@.len(),
            av == arr_items_view(*items),
            av.len() == items@.len(),
            forall|k: int| 0 <= k < i ==> av[k] is Str,
            out.deep_view().len() == i,
            forall|k: int| 0 <= k < i ==> out.deep_view()[k] == str_of(av[k]),
        decreases items@.len() - i,
    {
        proof {
            assert(av[i as int] == json_view(items@[i as int]));
        }
        match &items[i] {
            Json::Str(s) => {
                proof {
                    assert(av[i as int] == JsonData::Str(s@));
                }
                let ghost pre = out.deep_view();
                out.push(s.clone());
                proof {
                    assert(out.deep_view() =~= pre.push(s@));
                }
            },
            _ => {
                return Err(());
            },
        }
        i += 1;
    }
    proof {
        assert(out.deep_view() =~= strings_of(av));
    }
    Ok(out)
}

/// The string-array field stored under `key`; fails on any other shape.
pub fn get_req_string_arr(j: &Json, key: &str) -> (r: Result<Vec<String>, ()>)
    ensures
        r is Ok <==> wf_req_string_arr(j@, key@),
        r matches Ok(v) ==> v.deep_view() == req_string_arr(j@, key@),
{
    match j.field(key) {
        Some(Json::Arr(items)) => strings_of_array(items),
        _ => Err(()),
    }
}

/// The optional string-array field stored under `key`; absent and null read
/// as no value, and any other shape fails.
pub fn get_opt_string_arr(j: &Json, key: &str) -> (r: Result<Option<Vec<String>>, ()>)
    ensures
        r is Ok <==> wf_opt_string_arr(j@, key@),
        r matches Ok(v) ==> v.deep_view() == opt_string_arr(j@, key@),
{
    match j.field(key) {
        Option::None => Ok(Option::None),
        Some(Json::Null) => Ok(Option::None),
        Some(Json::Arr(items)) => match strings_of_array(items) {
            Ok(v) => Ok(Some(v)),
            Err(e) => Err(e),
        },
        Some(_) => Err(()),
    }
}

/// The concatenation of an array of string nodes; fails when any element is
/// not a string.
fn concat_string_items(items: &Vec<Json>) -> (r: Result<String, ()>)
    ensures
        r is Ok <==> all_strings(arr_items_view(*items)),
        r matches Ok(s) ==> s@ == concat_strings(strings_of(arr_items_view(*items))),
{
    let ghost av = arr_items_view(*items);
    let mut acc = String::new();
    let mut i: usize = 0;
    while i < items.len()
        invariant
            i <= items@.len(),
            av == arr_items_view(*items),
            av.len() == items@.len(),
            forall|k: int| 0 <= k < i ==> av[k] is Str,
            acc@ == concat_strings(strings_of(av).take(i as int)),
        decreases items@.len() - i,
    {
        proof {
            assert(av[i as int] == json_view(items@[i as int]));
        }
        match &items[i] {
            Json::Str(s) => {
                proof {
                    assert(av[i as int] == JsonData::Str(s@));
                    lemma_concat_strings_snoc(strings_of(av).take(i as int), s@);
                    assert(strings_of(av).take(i as int).push(s@) =~= strings_of(av).take(
                        i as int + 1,
                    ));
                }
                acc.append(s.as_str());
            },
            _ => {
                return Err(());
            },
        }
        i += 1;
    }
    proof {
        assert(strings_of(av).take(av.len() as int) =~= strings_of(av));
    }
    Ok(acc)
}

/// The description field stored under `key`, normalized from the accepted
/// shapes; any other shape fails.
pub fn get_description(j: &Json, key: &str) -> (r: Result<Option<String>, ()>)
    ensures
        r is Ok <==> wf_description_value(field_of(j@, key@)),
        r matches Ok(v) ==> v.deep_view() == description_value(field_of(j@, key@)),
{
    match j.field(key) {
        Option::None => Ok(Option::None),
        Some(Json::Null) => Ok(Option::None),
        Some(Json::Str(s)) => Ok(Some(s.clone())),
        Some(Json::Arr(items)) => match concat_string_items(items) {
            Ok(s) => Ok(Some(s)),
            Err(e) => Err(e),
        },
        Some(_) => Err(()),
    }
}

/// Looking a key up past entries that do not hold it is looking it up in the
/// remainder.
proof fn lemma_obj_get_skip(entries: Seq<(Seq<char>, JsonData)>, key: Seq<char>, i: int)
    requires
        0 <= i <= entries.len(),
        forall|k: int| 0 <= k < i ==> #[trigger] entries[k].0 != key,
    ensures
        obj_get(entries, key) == obj_get(entries.skip(i), key),
    decreases i,
{
    if i > 0 {
        assert(entries.skip(0) =~= entries);
        assert(entries.drop_first() =~= entries.skip(1));
        lemma_obj_get_skip(entries.skip(1), key, i - 1);
        assert(entries.skip(1).skip(i - 1) =~= entries.skip(i));
    } else {
        assert(entries.skip(0) =~= entries);
    }
}

} // verus!
