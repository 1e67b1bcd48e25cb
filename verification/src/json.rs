//! A JSON-like value model.
//!
//! Values carry numbers as their literal text, so a value round-trips through
//! serialization unchanged; objects are ordered key/value sequences.

use vstd::prelude::*;

verus! {

broadcast use vstd::std_specs::vec::group_vec_axioms;

/// A JSON-like value. `Num` carries the numeric literal's text.
#[derive(Debug, PartialEq, Eq)]
pub enum JsonVal {
    Null,
    Bool(bool),
    Num(String),
    Str(String),
    Arr(Vec<JsonVal>),
    Obj(Vec<(String, JsonVal)>),
}

/// The mathematical shape of a `JsonVal`: strings become character sequences.
#[verifier::ext_equal]
pub enum JsonView {
    Null,
    Bool(bool),
    Num(Seq<char>),
    Str(Seq<char>),
    Arr(Seq<JsonView>),
    Obj(Seq<(Seq<char>, JsonView)>),
}

pub open spec fn items_view(s: Seq<JsonVal>) -> Seq<JsonView>
    decreases s,
{
    if s.len() == 0 {
        Seq::empty()
    } else {
        seq![s[0].view()] + items_view(s.drop_first())
    }
}

pub open spec fn entries_view(s: Seq<(String, JsonVal)>) -> Seq<(Seq<char>, JsonView)>
    decreases s,
{
    if s.len() == 0 {
        Seq::empty()
    } else {
        seq![(s[0].0@, s[0].1.view())] + entries_view(s.drop_first())
    }
}

impl View for JsonVal {
    type V = JsonView;

    open spec fn view(&self) -> JsonView
        decreases self,
    {
        match self {
            JsonVal::Null => JsonView::Null,
            JsonVal::Bool(b) => JsonView::Bool(*b),
            JsonVal::Num(s) => JsonView::Num(s@),
            JsonVal::Str(s) => JsonView::Str(s@),
            JsonVal::Arr(items) => JsonView::Arr(items_view(items@)),
            JsonVal::Obj(entries) => JsonView::Obj(entries_view(entries@)),
        }
    }
}

pub broadcast proof fn lemma_items_view_index(s: Seq<JsonVal>)
    ensures
        #[trigger] items_view(s).len() == s.len(),
        forall|i: int| 0 <= i < s.len() ==> (#[trigger] items_view(s)[i]) == s[i]@,
    decreases s,
{
    if s.len() > 0 {
        lemma_items_view_index(s.drop_first());
        assert(items_view(s) == seq![s[0]@] + items_view(s.drop_first()));
        assert forall|i: int| 0 <= i < s.len() implies (#[trigger] items_view(s)[i]) == s[i]@ by {
            if i == 0 {
                assert(items_view(s)[0] == s[0]@);
            } else {
                assert(s.drop_first()[i - 1] == s[i]);
                assert(items_view(s)[i] == items_view(s.drop_first())[i - 1]);
            }
        }
    }
}

pub broadcast proof fn lemma_entries_view_index(s: Seq<(String, JsonVal)>)
    ensures
        #[trigger] entries_view(s).len() == s.len(),
        forall|i: int| 0 <= i < s.len() ==> (#[trigger] entries_view(s)[i]) == (s[i].0@, s[i].1@),
    decreases s,
{
    if s.len() > 0 {
        lemma_entries_view_index(s.drop_first());
        assert(entries_view(s) == seq![(s[0].0@, s[0].1@)] + entries_view(s.drop_first()));
        assert forall|i: int| 0 <= i < s.len() implies (#[trigger] entries_view(s)[i]) == (
        s[i].0@,
        s[i].1@,
        ) by {
            if i == 0 {
                assert(entries_view(s)[0] == (s[0].0@, s[0].1@));
            } else {
                assert(s.drop_first()[i - 1] == s[i]);
                assert(entries_view(s)[i] == entries_view(s.drop_first())[i - 1]);
            }
        }
    }
}

pub open spec fn obj_has_key(es: Seq<(Seq<char>, JsonView)>, k: Seq<char>) -> bool {
    exists|i: int| 0 <= i < es.len() && es[i].0 == k
}

/// The value under the first entry whose key is `k`, if any.
pub open spec fn spec_obj_get(es: Seq<(Seq<char>, JsonView)>, k: Seq<char>) -> Option<JsonView>
    decreases es.len(),
{
    if es.len() == 0 {
        None
    } else if es[0].0 == k {
        Some(es[0].1)
    } else {
        spec_obj_get(es.drop_first(), k)
    }
}

pub proof fn lemma_obj_get_has_key(es: Seq<(Seq<char>, JsonView)>, k: Seq<char>)
    ensures
        spec_obj_get(es, k) is Some <==> obj_has_key(es, k),
    decreases es.len(),
{
    if es.len() > 0 && es[0].0 != k {
        lemma_obj_get_has_key(es.drop_first(), k);
        assert forall|i: int| 0 <= i < es.len() && es[i].0 == k implies obj_has_key(
            es.drop_first(),
            k,
        ) by {
            assert(es.drop_first()[i - 1] == es[i]);
        }
        assert forall|i: int|
            0 <= i < es.drop_first().len() && es.drop_first()[i].0 == k implies obj_has_key(
            es,
            k,
        ) by {
            assert(es[i + 1] == es.drop_first()[i]);
        }
    }
}

proof fn lemma_obj_get_skip(es: Seq<(Seq<char>, JsonView)>, k: Seq<char>, i: int)
    requires
        0 <= i <= es.len(),
        forall|j: int| 0 <= j < i ==> es[j].0 != k,
    ensures
        spec_obj_get(es, k) == spec_obj_get(es.skip(i), k),
    decreases i,
{
    if i > 0 {
        assert(es[0].0 != k);
        lemma_obj_get_skip(es.drop_first(), k, i - 1);
        assert(es.drop_first().skip(i - 1) =~= es.skip(i));
    } else {
        assert(es.skip(0) =~= es);
    }
}

/// The value of the first entry named `key`, searched front to back.
pub fn obj_get<'a>(entries: &'a Vec<(String, JsonVal)>, key: &String) -> (r: Option<&'a JsonVal>)
    ensures
        match r {
            Some(v) => spec_obj_get(entries_view(entries@), key@) == Some(v@),
            None => spec_obj_get(entries_view(entries@), key@) is None,
        },
{
    proof {
        lemma_entries_view_index(entries@);
    }
    let ghost es = entries_view(entries@);
    let mut i: usize = 0;
    while i < entries.len()
        invariant
            i <= entries@.len(),
            es == entries_view(entries@),
            es.len() == entries@.len(),
            forall|j: int| 0 <= j < entries@.len() ==> es[j] == (entries@[j].0@, entries@[j].1@),
            forall|j: int| 0 <= j < i ==> es[j].0 != key@,
        decreases entries@.len() - i,
    {
        if entries[i].0 == *key {
            proof {
                lemma_obj_get_skip(es, key@, i as int);
                assert(es.skip(i as int)[0] == es[i as int]);
            }
            return Some(&entries[i].1);
        }
        i = i + 1;
    }
    proof {
        lemma_obj_get_skip(es, key@, es.len() as int);
        assert(es.skip(es.len() as int) =~= Seq::<(Seq<char>, JsonView)>::empty());
    }
    None
}

/// A value "looks like a record" when it is a non-empty object that has an
/// `id` key.
pub open spec fn spec_is_record(v: JsonView) -> bool {
    match v {
        JsonView::Obj(es) => es.len() > 0 && obj_has_key(es, "id"@),
        _ => false,
    }
}

/// A value "looks like a record collection" when it is a non-empty array
/// whose first element looks like a record; the first element's shape is
/// taken as authoritative for the whole array.
pub open spec fn spec_is_collection(v: JsonView) -> bool {
    match v {
        JsonView::Arr(items) => items.len() > 0 && spec_is_record(items[0]),
        _ => false,
    }
}

/// The entries of an object value; empty for any other shape.
pub open spec fn obj_entries(v: JsonView) -> Seq<(Seq<char>, JsonView)> {
    match v {
        JsonView::Obj(es) => es,
        _ => Seq::empty(),
    }
}

/// The elements of an array value; empty for any other shape.
pub open spec fn arr_items(v: JsonView) -> Seq<JsonView> {
    match v {
        JsonView::Arr(items) => items,
        _ => Seq::empty(),
    }
}

pub fn id_key() -> (r: String)
    ensures
        r@ == "id"@,
{
    String::from_str("id")
}

pub fn is_record(v: &JsonVal) -> (b: bool)
    ensures
        b == spec_is_record(v@),
{
    match v {
        JsonVal::Obj(entries) => {
            proof {
                lemma_entries_view_index(entries@);
            }
            if entries.len() == 0 {
                return false;
            }
            let id = id_key();
            let r = obj_get(entries, &id);
            proof {
                lemma_obj_get_has_key(entries_view(entries@), "id"@);
            }
            r.is_some()
        },
        _ => false,
    }
}

/// The array behind a value that looks like a record collection.
pub fn as_collection<'a>(v: &'a JsonVal) -> (r: Option<&'a Vec<JsonVal>>)
    ensures
        match r {
            Some(items) => spec_is_collection(v@) && v@ == JsonView::Arr(items_view(items@)),
            None => !spec_is_collection(v@),
        },
{
    match v {
        JsonVal::Arr(items) => {
            proof {
                lemma_items_view_index(items@);
            }
            if items.len() > 0 && is_record(&items[0]) {
                Some(items)
            } else {
                None
            }
        },
        _ => None,
    }
}

pub fn is_collection(v: &JsonVal) -> (b: bool)
    ensures
        b == spec_is_collection(v@),
{
    as_collection(v).is_some()
}

/// A structural copy of a value.
pub fn clone_val(v: &JsonVal) -> (r: JsonVal)
    ensures
        r@ == v@,
    decreases v,
{
    match v {
        JsonVal::Null => JsonVal::Null,
        JsonVal::Bool(b) => JsonVal::Bool(*b),
        JsonVal::Num(s) => JsonVal::Num(s.clone()),
        JsonVal::Str(s) => JsonVal::Str(s.clone()),
        JsonVal::Arr(items) => {
            let mut out: Vec<JsonVal> = Vec::new();
            let mut i: usize = 0;
            while i < items.len()
                invariant
                    *v == JsonVal::Arr(*items),
                    i <= items@.len(),
                    out@.len() == i,
                    forall|j: int| 0 <= j < i ==> out@[j]@ == items@[j]@,
                decreases items@.len() - i,
            {
                proof {
                    assert(*v is Arr);
                    assert(decreases_to!(*v => (*v)->Arr_0));
                    assert((*v)->Arr_0 == *items);
                    assert(decreases_to!(*items => items@[i as int]));
                }
                let c = clone_val(&items[i]);
                out.push(c);
                i = i + 1;
            }
            proof {
                lemma_items_view_index(items@);
                lemma_items_view_index(out@);
                assert(items_view(out@) =~= items_view(items@));
            }
            JsonVal::Arr(out)
        },
        JsonVal::Obj(entries) => {
            let mut out: Vec<(String, JsonVal)> = Vec::new();
            let mut i: usize = 0;
            while i < entries.len()
                invariant
                    *v == JsonVal::Obj(*entries),
                    i <= entries@.len(),
                    out@.len() == i,
                    forall|j: int|
                        0 <= j < i ==> out@[j].0@ == entries@[j].0@ && out@[j].1@
                            == entries@[j].1@,
                decreases entries@.len() - i,
            {
                proof {
                    assert(*v is Obj);
                    assert(decreases_to!(*v => (*v)->Obj_0));
                    assert((*v)->Obj_0 == *entries);
                    assert(decreases_to!(*entries => entries@[i as int]));
                    assert(decreases_to!(entries@[i as int] => entries@[i as int].1));
                }
                let k = entries[i].0.clone();
                let c = clone_val(&entries[i].1);
                out.push((k, c));
                i = i + 1;
            }
            proof {
                lemma_entries_view_index(entries@);
                lemma_entries_view_index(out@);
                assert(entries_view(out@) =~= entries_view(entries@));
            }
            JsonVal::Obj(out)
        },
    }
}

#[verifier::external_type_specification]
#[verifier::external_body]
pub struct ExValue(serde_json::Value);

/// What a text parses to as a JSON document: `None` when the text is not
/// valid JSON, otherwise the parsed value. A parse depends on the text alone.
pub uninterp spec fn parsed_json(s: Seq<char>) -> Option<JsonView>;

/// Relies on the shape of `serde_json::Value`: each variant is carried over
/// one to one, a number as its literal text, an object as its ordered
/// key/value pairs.
#[verifier::external_body]
fn from_serde(v: serde_json::Value) -> JsonVal {
    match v {
        serde_json::Value::Null => JsonVal::Null,
        serde_json::Value::Bool(b) => JsonVal::Bool(b),
        serde_json::Value::Number(n) => JsonVal::Num(n.to_string()),
        serde_json::Value::String(s) => JsonVal::Str(s),
        serde_json::Value::Array(a) => JsonVal::Arr(a.into_iter().map(from_serde).collect()),
        serde_json::Value::Object(m) => JsonVal::Obj(
            m.into_iter().map(|(k, val)| (k, from_serde(val))).collect(),
        ),
    }
}

/// Relies on `serde_json::from_str::<serde_json::Value>`: whether a text is a
/// valid JSON document, and the value it denotes, are functions of the text
/// alone.
#[verifier::external_body]
pub(crate) fn parse_json(s: &str) -> (r: Option<JsonVal>)
    ensures
        r matches Some(v) ==> parsed_json(s@) == Some(v@),
        r is None ==> parsed_json(s@) is None,
{
    match serde_json::from_str::<serde_json::Value>(s) {
        Ok(v) => Some(from_serde(v)),
        Err(_) => None,
    }
}

/// The value a property text stands for: the JSON document it parses to, or
/// the text itself as a plain string when it is not valid JSON.
pub open spec fn spec_parse_or_string(s: Seq<char>) -> JsonView {
    match parsed_json(s) {
        Some(v) => v,
        None => JsonView::Str(s),
    }
}

/// Parses a text as JSON where possible and falls back to treating it as a
/// plain string.
pub fn parse_json_or_string(value: &str) -> (r: JsonVal)
    ensures
        r@ == spec_parse_or_string(value@),
{
    match parse_json(value) {
        Some(v) => v,
        None => JsonVal::Str(value.to_owned()),
    }
}

pub fn parse_property_value(value: &Option<String>) -> (r: Option<JsonVal>)
    ensures
        match r {
            Some(v) => value is Some && v@ == spec_parse_or_string(value->Some_0@),
            None => value is None,
        },
{
    match value {
        Some(s) => Some(parse_json_or_string(s.as_str())),
        None => None,
    }
}

} // verus!
