//! The secret-store lookup decision: how a secret payload is read. The store
//! itself — remote vault, cache — lives outside the library.

use crate::json::{entries_view, lemma_entries_view_index, obj_get, parsed_json, spec_obj_get,
    JsonVal, JsonView};
use vstd::prelude::*;

verus! {

broadcast use vstd::std_specs::vec::group_vec_axioms;

/// The message returned for a secret payload of the wrong shape.
pub open spec fn bad_secret_payload_message() -> Seq<char> {
    "secret payload must be a JSON object of strings"@
}

/// Every value of the object is a string.
pub open spec fn all_string_values(es: Seq<(Seq<char>, JsonView)>) -> bool {
    forall|i: int| 0 <= i < es.len() ==> (#[trigger] es[i].1) is Str
}

/// What looking a key up in a secret payload yields: the payload must be a
/// JSON object whose values are all strings; the key's value when the key is
/// present, nothing when it is absent.
pub open spec fn spec_secret_lookup(json: Seq<char>, key: Seq<char>) -> Result<
    Option<Seq<char>>,
    Seq<char>,
> {
    match parsed_json(json) {
        Option::Some(JsonView::Obj(es)) => if all_string_values(es) {
            match spec_obj_get(es, key) {
                Option::Some(JsonView::Str(s)) => Result::Ok(Option::Some(s)),
                Option::Some(_) => Result::Err(bad_secret_payload_message()),
                Option::None => Result::Ok(Option::None),
            }
        } else {
            Result::Err(bad_secret_payload_message())
        },
        _ => Result::Err(bad_secret_payload_message()),
    }
}

/// Looks a key up in a secret payload.
pub fn secret_from_json(json: &str, key: &str) -> (r: Result<Option<String>, String>)
    ensures
        match r {
            Result::Ok(Option::Some(s)) => spec_secret_lookup(json@, key@) == Result::Ok::<
                _,
                Seq<char>,
            >(Option::Some(s@)),
            Result::Ok(Option::None) => spec_secret_lookup(json@, key@) == Result::Ok::<
                _,
                Seq<char>,
            >(Option::None::<Seq<char>>),
            Result::Err(e) => (spec_secret_lookup(json@, key@) matches Result::Err(m) && m == e@),
        },
{
    let parsed = match crate::json::parse_json(json) {
        Option::Some(v) => v,
        Option::None => {
            return Err(String::from_str("secret payload must be a JSON object of strings"));
        },
    };
    match &parsed {
        JsonVal::Obj(entries) => {
            proof {
                lemma_entries_view_index(entries@);
            }
            let mut i: usize = 0;
            while i < entries.len()
                invariant
                    parsed_json(json@) == Option::Some(JsonView::Obj(entries_view(entries@))),
                    i <= entries@.len(),
                    entries_view(entries@).len() == entries@.len(),
                    forall|j: int|
                        0 <= j < entries@.len() ==> entries_view(entries@)[j] == (
                            entries@[j].0@,
                            entries@[j].1@,
                        ),
                    forall|j: int|
                        0 <= j < i ==> (#[trigger] entries_view(entries@)[j].1) is Str,
                decreases entries@.len() - i,
            {
                match &entries[i].1 {
                    JsonVal::Str(_) => {},
                    _ => {
                        proof {
                            assert(!((#[trigger] entries_view(entries@)[i as int]).1 is Str));
                            assert(!all_string_values(entries_view(entries@)));
                        }
                        return Err(
                            String::from_str("secret payload must be a JSON object of strings"),
                        );
                    },
                }
                i = i + 1;
            }
            match obj_get(entries, &key.to_owned()) {
                Option::Some(JsonVal::Str(s)) => Ok(Some(s.clone())),
                Option::Some(_) => Err(
                    String::from_str("secret payload must be a JSON object of strings"),
                ),
                Option::None => Ok(None),
            }
        },
        _ => Err(String::from_str("secret payload must be a JSON object of strings")),
    }
}

} // verus!
