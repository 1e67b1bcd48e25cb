//! The assignment compiler: builds the mutation's `input` variable from the
//! property mapping.
//!
//! Relation values are coerced to identifier form: a to-one relation whose
//! value looks like a record is replaced by that record's `id`; a to-many
//! relation whose value looks like a record collection is replaced by
//! `{ "id": [<id of each record-shaped element, else the element itself>] }`.
//! Everything else passes through unchanged; an absent value becomes an
//! explicit null.

use crate::json::{
    arr_items, clone_val, entries_view, id_key, is_collection, is_record, items_view,
    lemma_entries_view_index, lemma_items_view_index, lemma_obj_get_has_key, obj_entries, obj_get,
    parse_property_value, spec_is_collection, spec_is_record, spec_obj_get, spec_parse_or_string,
    JsonVal, JsonView,
};
use crate::mapping::{
    classify, kind_view, spec_kind, spec_single_keyed, KindView, PropertyKind, PropertyMap,
};
use vstd::prelude::*;

verus! {

broadcast use vstd::std_specs::vec::group_vec_axioms;

/// The identifier a record-shaped value carries under its `id` key.
pub open spec fn spec_record_id(v: JsonView) -> JsonView {
    match spec_obj_get(obj_entries(v), "id"@) {
        Some(x) => x,
        None => JsonView::Null,
    }
}

/// One element of a to-many value: a record-shaped element is replaced by its
/// identifier, any other element is kept.
pub open spec fn spec_coerced_item(v: JsonView) -> JsonView {
    if spec_is_record(v) {
        spec_record_id(v)
    } else {
        v
    }
}

/// The identifiers a record collection coerces to, element by element.
pub open spec fn spec_coerced_items(items: Seq<JsonView>) -> Seq<JsonView> {
    Seq::new(items.len(), |i: int| spec_coerced_item(items[i]))
}

/// The value a property contributes to the mutation input, by its kind.
pub open spec fn spec_assigned_value(kind: KindView, v: JsonView) -> JsonView {
    match kind {
        KindView::BelongsTo => if spec_is_record(v) {
            spec_record_id(v)
        } else {
            v
        },
        KindView::HasMany | KindView::HasAndBelongsToMany => if spec_is_collection(v) {
            JsonView::Obj(seq![("id"@, JsonView::Arr(spec_coerced_items(arr_items(v))))])
        } else {
            v
        },
        _ => v,
    }
}

/// The identifier of a record-shaped value.
fn record_id(v: &JsonVal) -> (r: JsonVal)
    requires
        spec_is_record(v@),
    ensures
        r@ == spec_record_id(v@),
{
    match v {
        JsonVal::Obj(entries) => {
            let id = id_key();
            let found = obj_get(entries, &id);
            proof {
                lemma_obj_get_has_key(entries_view(entries@), "id"@);
            }
            clone_val(found.unwrap())
        },
        _ => {
            proof {
                assert(false);
            }
            JsonVal::Null
        },
    }
}

/// Coerces one parsed property value to the form the mutation input carries.
pub fn get_assigned_value(kind: &PropertyKind, value: JsonVal) -> (r: JsonVal)
    ensures
        r@ == spec_assigned_value(kind_view(*kind), value@),
{
    match kind {
        PropertyKind::BelongsTo => {
            if is_record(&value) {
                record_id(&value)
            } else {
                value
            }
        },
        PropertyKind::HasMany | PropertyKind::HasAndBelongsToMany => {
            if !is_collection(&value) {
                return value;
            }
            match &value {
                JsonVal::Arr(items) => {
                    proof {
                        lemma_items_view_index(items@);
                    }
                    let ghost iv = items_view(items@);
                    let mut ids: Vec<JsonVal> = Vec::new();
                    let mut i: usize = 0;
                    while i < items.len()
                        invariant
                            iv == items_view(items@),
                            iv.len() == items@.len(),
                            forall|j: int| 0 <= j < items@.len() ==> iv[j] == items@[j]@,
                            i <= items@.len(),
                            ids@.len() == i,
                            forall|j: int|
                                0 <= j < i ==> (#[trigger] ids@[j])@ == spec_coerced_item(iv[j]),
                        decreases items@.len() - i,
                    {
                        if is_record(&items[i]) {
                            let idv = record_id(&items[i]);
                            ids.push(idv);
                        } else {
                            let c = clone_val(&items[i]);
                            ids.push(c);
                        }
                        i = i + 1;
                    }
                    proof {
                        lemma_items_view_index(ids@);
                        assert(items_view(ids@) =~= spec_coerced_items(iv));
                    }
                    let mut entries: Vec<(String, JsonVal)> = Vec::new();
                    entries.push((id_key(), JsonVal::Arr(ids)));
                    let r = JsonVal::Obj(entries);
                    proof {
                        lemma_entries_view_index(entries@);
                        assert(entries_view(entries@) =~= seq![
                            ("id"@, JsonView::Arr(spec_coerced_items(arr_items(value@)))),
                        ]);
                    }
                    r
                },
                _ => {
                    proof {
                        assert(false);
                    }
                    value
                },
            }
        },
        _ => value,
    }
}

/// The key/value pair one property contributes to the mutation input.
pub open spec fn spec_assigned_entry(p: PropertyMap) -> (Seq<char>, JsonView) {
    let k = p.key@[0];
    match p.value {
        Option::Some(s) => (
            k.name@,
            spec_assigned_value(spec_kind(k.kind@), spec_parse_or_string(s@)),
        ),
        Option::None => (k.name@, JsonView::Null),
    }
}

/// Entries with the entry under `k` replaced by `v`, or with `(k, v)`
/// appended when no entry carries that key.
pub open spec fn spec_upsert(es: Seq<(Seq<char>, JsonView)>, k: Seq<char>, v: JsonView) -> Seq<
    (Seq<char>, JsonView),
>
    decreases es.len(),
{
    if es.len() == 0 {
        seq![(k, v)]
    } else if es[0].0 == k {
        seq![(k, v)] + es.drop_first()
    } else {
        seq![es[0]] + spec_upsert(es.drop_first(), k, v)
    }
}

/// The mutation input: every property's entry, in mapping order, a later
/// entry replacing an earlier one of the same name.
pub open spec fn spec_assignment(mapping: Seq<PropertyMap>) -> Seq<(Seq<char>, JsonView)>
    decreases mapping.len(),
{
    if mapping.len() == 0 {
        Seq::empty()
    } else {
        let prior = spec_assignment(mapping.drop_last());
        let e = spec_assigned_entry(mapping.last());
        spec_upsert(prior, e.0, e.1)
    }
}

proof fn lemma_upsert_found(es: Seq<(Seq<char>, JsonView)>, k: Seq<char>, v: JsonView, i: int)
    requires
        0 <= i < es.len(),
        es[i].0 == k,
        forall|j: int| 0 <= j < i ==> es[j].0 != k,
    ensures
        spec_upsert(es, k, v) == es.update(i, (k, v)),
    decreases i,
{
    if i == 0 {
        assert(seq![(k, v)] + es.drop_first() =~= es.update(0, (k, v)));
    } else {
        assert(es.drop_first()[i - 1].0 == k);
        assert forall|j: int| 0 <= j < i - 1 implies es.drop_first()[j].0 != k by {
            assert(es.drop_first()[j] == es[j + 1]);
        }
        lemma_upsert_found(es.drop_first(), k, v, i - 1);
        assert(seq![es[0]] + es.drop_first().update(i - 1, (k, v)) =~= es.update(i, (k, v)));
    }
}

proof fn lemma_upsert_missing(es: Seq<(Seq<char>, JsonView)>, k: Seq<char>, v: JsonView)
    requires
        forall|j: int| 0 <= j < es.len() ==> es[j].0 != k,
    ensures
        spec_upsert(es, k, v) == es.push((k, v)),
    decreases es.len(),
{
    if es.len() == 0 {
        assert(seq![(k, v)] =~= es.push((k, v)));
    } else {
        assert forall|j: int| 0 <= j < es.drop_first().len() implies es.drop_first()[j].0 != k by {
            assert(es.drop_first()[j] == es[j + 1]);
        }
        lemma_upsert_missing(es.drop_first(), k, v);
        assert(seq![es[0]] + es.drop_first().push((k, v)) =~= es.push((k, v)));
    }
}

/// Inserts the pair into the entries, replacing the entry of the same name
/// when one exists.
fn upsert_entry(entries: &mut Vec<(String, JsonVal)>, k: String, v: JsonVal)
    ensures
        entries_view(final(entries)@) == spec_upsert(entries_view(old(entries)@), k@, v@),
{
    proof {
        lemma_entries_view_index(old(entries)@);
    }
    let ghost es = entries_view(old(entries)@);
    let mut i: usize = 0;
    while i < entries.len()
        invariant
            *entries == *old(entries),
            es == entries_view(entries@),
            es.len() == entries@.len(),
            forall|j: int| 0 <= j < entries@.len() ==> es[j] == (entries@[j].0@, entries@[j].1@),
            i <= entries@.len(),
            forall|j: int| 0 <= j < i ==> es[j].0 != k@,
        decreases entries@.len() - i,
    {
        if entries[i].0 == k {
            proof {
                lemma_upsert_found(es, k@, v@, i as int);
            }
            entries[i] = (k, v);
            proof {
                lemma_entries_view_index(entries@);
                assert(entries_view(entries@) =~= es.update(i as int, (k@, v@)));
            }
            return ;
        }
        i = i + 1;
    }
    proof {
        lemma_upsert_missing(es, k@, v@);
    }
    entries.push((k, v));
    proof {
        lemma_entries_view_index(entries@);
        assert(entries_view(entries@) =~= es.push((k@, v@)));
    }
}

/// Builds the mutation input object from the mapping: per property, the
/// parsed value coerced by its kind, or an explicit null when the value is
/// absent.
pub fn parse_assigned_properties(property_map: &Vec<PropertyMap>) -> (r: JsonVal)
    requires
        spec_single_keyed(property_map@),
    ensures
        r@ == JsonView::Obj(spec_assignment(property_map@)),
{
    let mut result: Vec<(String, JsonVal)> = Vec::new();
    let mut i: usize = 0;
    while i < property_map.len()
        invariant
            spec_single_keyed(property_map@),
            i <= property_map@.len(),
            entries_view(result@) == spec_assignment(property_map@.take(i as int)),
        decreases property_map@.len() - i,
    {
        let p = &property_map[i];
        let key = &p.key[0];
        let kind = classify(&key.kind);
        let pv = parse_property_value(&p.value);
        let assigned = match pv {
            Option::Some(json) => get_assigned_value(&kind, json),
            Option::None => JsonVal::Null,
        };
        proof {
            assert((key.name@, assigned@) == spec_assigned_entry(property_map@[i as int]));
        }
        upsert_entry(&mut result, key.name.clone(), assigned);
        proof {
            let m1 = property_map@.take(i + 1 as int);
            assert(m1.drop_last() =~= property_map@.take(i as int));
            assert(m1.last() == property_map@[i as int]);
        }
        i = i + 1;
    }
    proof {
        assert(property_map@.take(property_map@.len() as int) =~= property_map@);
    }
    JsonVal::Obj(result)
}

/// The checked assignment compiler: rejects a mapping with a property that
/// does not supply exactly one key, and otherwise builds the mutation input.
pub fn compile_assignment(mapping: &Vec<PropertyMap>) -> (r: Result<JsonVal, String>)
    ensures
        spec_single_keyed(mapping@) ==> (r matches Ok(v) && v@ == JsonView::Obj(
            spec_assignment(mapping@),
        )),
        !spec_single_keyed(mapping@) ==> (r matches Err(e) && e@
            == crate::fragment::multi_key_error()),
{
    if !crate::mapping::mapping_single_keyed(mapping) {
        return Err(crate::fragment::multi_key_error_message());
    }
    Ok(parse_assigned_properties(mapping))
}

} // verus!
