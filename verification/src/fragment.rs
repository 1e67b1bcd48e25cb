//! The fragment compiler: builds a reusable field-selection fragment from a
//! model name and a property mapping.
//!
//! Per property, the selection is decided by the relation kind: a structured
//! (object) property selects its declared leaf fields; a relation property
//! whose sample value looks like a record (or record collection) is expanded
//! recursively by the value's shape; any other relation selects `{ id }`;
//! scalar-like properties are bare fields.

use crate::json::{
    entries_view, lemma_entries_view_index, lemma_items_view_index, lemma_obj_get_has_key,
    obj_entries, obj_get, obj_has_key, id_key, is_collection, is_record, parse_property_value,
    spec_is_collection, spec_is_record, spec_parse_or_string, JsonVal, JsonView,
};
use crate::mapping::{
    classify, mapping_single_keyed, spec_kind, spec_single_keyed, GraphQL, KindView, ObjectField,
    PropertyKind, PropertyMap,
};
use crate::text::{
    ascii_lowercase, capitalize_first_letter, capitalized, join_with, lower_chars,
};
use vstd::prelude::*;

verus! {

broadcast use vstd::std_specs::vec::group_vec_axioms;

/// The `{ id }`-only selection of a relation field.
pub open spec fn spec_id_fragment(name: Seq<char>) -> Seq<char> {
    name + " { id\n }"@
}

/// The selection that names only the relation's identifier.
pub fn id_fragment(name: &str) -> (r: String)
    ensures
        r@ == spec_id_fragment(name@),
{
    let mut r = String::new();
    r.append(name);
    r.append(" { id\n }");
    r
}

/// The selection a sample value dictates for a field: a record expands into
/// one sub-selection per key, a record collection expands by its first
/// element's shape, anything else stays a bare field.
pub open spec fn spec_value_selection(field: Seq<char>, v: JsonView) -> Seq<char>
    decreases v,
{
    match v {
        JsonView::Obj(es) => if es.len() > 0 && obj_has_key(es, "id"@) {
            field + " { "@ + spec_entry_fields(es) + " }"@
        } else {
            field
        },
        JsonView::Arr(items) => if items.len() > 0 && spec_is_record(items[0]) {
            spec_value_selection(field, items[0])
        } else {
            field
        },
        _ => field,
    }
}

/// The selections of an object's entries, one per key, joined by newlines.
pub open spec fn spec_entry_fields(es: Seq<(Seq<char>, JsonView)>) -> Seq<char>
    decreases es,
{
    if es.len() == 0 {
        Seq::empty()
    } else if es.len() == 1 {
        spec_value_selection(es[0].0, es[0].1)
    } else {
        spec_value_selection(es[0].0, es[0].1) + "\n"@ + spec_entry_fields(es.drop_first())
    }
}

proof fn lemma_entry_fields_push(es: Seq<(Seq<char>, JsonView)>, k: Seq<char>, v: JsonView)
    ensures
        spec_entry_fields(es.push((k, v))) == if es.len() == 0 {
            spec_value_selection(k, v)
        } else {
            spec_entry_fields(es) + "\n"@ + spec_value_selection(k, v)
        },
    decreases es.len(),
{
    if es.len() == 0 {
        assert(es.push((k, v)) =~= seq![(k, v)]);
        assert(spec_entry_fields(seq![(k, v)]) == spec_value_selection(k, v));
    } else if es.len() == 1 {
        assert(es.push((k, v)).drop_first() =~= seq![(k, v)]);
        assert(es.push((k, v))[0] == es[0]);
        assert(spec_entry_fields(seq![(k, v)]) == spec_value_selection(k, v));
        assert(spec_entry_fields(es) == spec_value_selection(es[0].0, es[0].1));
    } else {
        lemma_entry_fields_push(es.drop_first(), k, v);
        assert(es.push((k, v)).drop_first() =~= es.drop_first().push((k, v)));
        assert(es.push((k, v))[0] == es[0]);
        assert(spec_value_selection(es[0].0, es[0].1) + "\n"@ + (spec_entry_fields(
            es.drop_first(),
        ) + "\n"@ + spec_value_selection(k, v)) =~= (spec_value_selection(es[0].0, es[0].1) + "\n"@
            + spec_entry_fields(es.drop_first())) + "\n"@ + spec_value_selection(k, v));
    }
}

/// Expands one object into `field { <per-key selections> }`.
pub fn object_to_graphql_query(field: &str, entries: &Vec<(String, JsonVal)>) -> (r: String)
    ensures
        r@ == field@ + " { "@ + spec_entry_fields(entries_view(entries@)) + " }"@,
    decreases entries,
{
    proof {
        lemma_entries_view_index(entries@);
    }
    let ghost ev = entries_view(entries@);
    let mut r = String::new();
    r.append(field);
    r.append(" { ");
    let mut i: usize = 0;
    while i < entries.len()
        invariant
            ev == entries_view(entries@),
            ev.len() == entries@.len(),
            forall|j: int| 0 <= j < entries@.len() ==> ev[j] == (entries@[j].0@, entries@[j].1@),
            i <= entries@.len(),
            r@ == field@ + " { "@ + spec_entry_fields(ev.take(i as int)),
        decreases entries@.len() - i,
    {
        proof {
            assert(decreases_to!(*entries => entries@[i as int]));
            assert(decreases_to!(entries@[i as int] => entries@[i as int].1));
        }
        if i > 0 {
            r.append("\n");
        }
        let piece = convert_object_to_graphql(entries[i].0.as_str(), &entries[i].1);
        r.append(piece.as_str());
        proof {
            lemma_entry_fields_push(ev.take(i as int), ev[i as int].0, ev[i as int].1);
            assert(ev.take(i as int).push((ev[i as int].0, ev[i as int].1)) =~= ev.take(
                i + 1 as int,
            ));
            if i > 0 {
                assert(((field@ + " { "@ + spec_entry_fields(ev.take(i as int))) + "\n"@) + piece@
                    =~= field@ + " { "@ + spec_entry_fields(ev.take(i + 1 as int)));
            } else {
                assert((field@ + " { "@ + spec_entry_fields(ev.take(0 as int))) + piece@ =~= field@
                    + " { "@ + spec_entry_fields(ev.take(1 as int)));
            }
        }
        i = i + 1;
    }
    r.append(" }");
    proof {
        assert(ev.take(entries@.len() as int) =~= ev);
    }
    r
}

/// Emits the selection a sample value dictates for a field.
pub fn convert_object_to_graphql(field: &str, data: &JsonVal) -> (r: String)
    ensures
        r@ == spec_value_selection(field@, data@),
    decreases data,
{
    match data {
        JsonVal::Obj(entries) => {
            proof {
                lemma_entries_view_index(entries@);
            }
            if entries.len() > 0 {
                let id = id_key();
                let found = obj_get(entries, &id);
                proof {
                    lemma_obj_get_has_key(entries_view(entries@), "id"@);
                }
                if found.is_some() {
                    proof {
                        assert(decreases_to!(*data => (*data)->Obj_0));
                        assert((*data)->Obj_0 == *entries);
                    }
                    return object_to_graphql_query(field, entries);
                }
            }
            field.to_owned()
        },
        JsonVal::Arr(items) => {
            proof {
                lemma_items_view_index(items@);
            }
            if items.len() > 0 {
                if is_record(&items[0]) {
                    proof {
                        assert(decreases_to!(*data => (*data)->Arr_0));
                        assert((*data)->Arr_0 == *items);
                        assert(decreases_to!(*items => items@[0]));
                    }
                    return convert_object_to_graphql(field, &items[0]);
                }
            }
            field.to_owned()
        },
        _ => field.to_owned(),
    }
}

/// The declared leaf field names of a structured property, joined by
/// newlines.
pub open spec fn spec_field_names(fs: Seq<ObjectField>) -> Seq<char>
    decreases fs.len(),
{
    if fs.len() == 0 {
        Seq::empty()
    } else if fs.len() == 1 {
        fs[0].name@
    } else {
        fs[0].name@ + "\n"@ + spec_field_names(fs.drop_first())
    }
}

proof fn lemma_field_names_push(fs: Seq<ObjectField>, f: ObjectField)
    ensures
        spec_field_names(fs.push(f)) == if fs.len() == 0 {
            f.name@
        } else {
            spec_field_names(fs) + "\n"@ + f.name@
        },
    decreases fs.len(),
{
    if fs.len() == 0 {
        assert(fs.push(f) =~= seq![f]);
        assert(spec_field_names(seq![f]) == f.name@);
    } else if fs.len() == 1 {
        assert(fs.push(f).drop_first() =~= seq![f]);
        assert(fs.push(f)[0] == fs[0]);
        assert(spec_field_names(seq![f]) == f.name@);
        assert(spec_field_names(fs) == fs[0].name@);
        assert(spec_field_names(fs.push(f)) == fs[0].name@ + "\n"@ + spec_field_names(seq![f]));
    } else {
        lemma_field_names_push(fs.drop_first(), f);
        assert(fs.push(f).drop_first() =~= fs.drop_first().push(f));
        assert(fs.push(f)[0] == fs[0]);
        assert(fs[0].name@ + "\n"@ + (spec_field_names(fs.drop_first()) + "\n"@ + f.name@) =~= (
        fs[0].name@ + "\n"@ + spec_field_names(fs.drop_first())) + "\n"@ + f.name@);
    }
}

/// The fixed selection of a structured property; empty when no leaf fields
/// are declared.
pub open spec fn spec_object_fields(of: Option<Vec<ObjectField>>) -> Seq<char> {
    match of {
        Option::Some(fields) => spec_field_names(fields@),
        Option::None => Seq::empty(),
    }
}

/// The declared leaf field names, newline-joined; empty when none are
/// declared.
pub fn object_fields_str(object_fields: &Option<Vec<ObjectField>>) -> (r: String)
    ensures
        r@ == spec_object_fields(*object_fields),
{
    match object_fields {
        Option::Some(fields) => {
            let mut r = String::new();
            let mut i: usize = 0;
            while i < fields.len()
                invariant
                    i <= fields@.len(),
                    r@ == spec_field_names(fields@.take(i as int)),
                decreases fields@.len() - i,
            {
                if i > 0 {
                    r.append("\n");
                }
                r.append(fields[i].name.as_str());
                proof {
                    lemma_field_names_push(fields@.take(i as int), fields@[i as int]);
                    assert(fields@.take(i as int).push(fields@[i as int]) =~= fields@.take(
                        i + 1 as int,
                    ));
                }
                i = i + 1;
            }
            proof {
                assert(fields@.take(fields@.len() as int) =~= fields@);
            }
            r
        },
        Option::None => String::new(),
    }
}

/// The selection one property of the mapping contributes, decided by its
/// kind label and, for relations, by the shape of its parsed sample value.
pub open spec fn spec_property_field(p: PropertyMap) -> Seq<char> {
    let k = p.key@[0];
    match spec_kind(k.kind@) {
        KindView::Object => k.name@ + " { "@ + spec_object_fields(k.object_fields) + " }"@,
        KindView::BelongsTo => match p.value {
            Option::Some(s) => if spec_is_record(spec_parse_or_string(s@)) {
                spec_value_selection(k.name@, spec_parse_or_string(s@))
            } else {
                spec_id_fragment(k.name@)
            },
            Option::None => spec_id_fragment(k.name@),
        },
        KindView::HasMany | KindView::HasAndBelongsToMany => match p.value {
            Option::Some(s) => if spec_is_collection(spec_parse_or_string(s@)) {
                spec_value_selection(k.name@, spec_parse_or_string(s@))
            } else {
                spec_id_fragment(k.name@)
            },
            Option::None => spec_id_fragment(k.name@),
        },
        KindView::ScalarLike => k.name@,
    }
}

fn property_query_field(p: &PropertyMap) -> (r: String)
    requires
        p.key@.len() == 1,
    ensures
        r@ == spec_property_field(*p),
{
    let key = &p.key[0];
    let kind = classify(&key.kind);
    let pv = parse_property_value(&p.value);
    match kind {
        PropertyKind::Object => {
            let mut r = String::new();
            r.append(key.name.as_str());
            r.append(" { ");
            let of = object_fields_str(&key.object_fields);
            r.append(of.as_str());
            r.append(" }");
            r
        },
        PropertyKind::BelongsTo => match &pv {
            Option::Some(j) => {
                if is_record(j) {
                    convert_object_to_graphql(key.name.as_str(), j)
                } else {
                    id_fragment(key.name.as_str())
                }
            },
            Option::None => id_fragment(key.name.as_str()),
        },
        PropertyKind::HasMany | PropertyKind::HasAndBelongsToMany => match &pv {
            Option::Some(j) => {
                if is_collection(j) {
                    convert_object_to_graphql(key.name.as_str(), j)
                } else {
                    id_fragment(key.name.as_str())
                }
            },
            Option::None => id_fragment(key.name.as_str()),
        },
        PropertyKind::Scalar => key.name.clone(),
        PropertyKind::Other(_) => key.name.clone(),
    }
}

/// The per-property selections of a whole mapping, joined by newlines, in
/// mapping order.
pub open spec fn spec_query_fields(mapping: Seq<PropertyMap>) -> Seq<char>
    decreases mapping.len(),
{
    if mapping.len() == 0 {
        Seq::empty()
    } else if mapping.len() == 1 {
        spec_property_field(mapping[0])
    } else {
        spec_property_field(mapping[0]) + "\n"@ + spec_query_fields(mapping.drop_first())
    }
}

proof fn lemma_query_fields_push(mapping: Seq<PropertyMap>, p: PropertyMap)
    ensures
        spec_query_fields(mapping.push(p)) == if mapping.len() == 0 {
            spec_property_field(p)
        } else {
            spec_query_fields(mapping) + "\n"@ + spec_property_field(p)
        },
    decreases mapping.len(),
{
    if mapping.len() == 0 {
        assert(mapping.push(p) =~= seq![p]);
        assert(spec_query_fields(seq![p]) == spec_property_field(p));
    } else if mapping.len() == 1 {
        assert(mapping.push(p).drop_first() =~= seq![p]);
        assert(mapping.push(p)[0] == mapping[0]);
        assert(spec_query_fields(seq![p]) == spec_property_field(p));
        assert(spec_query_fields(mapping) == spec_property_field(mapping[0]));
        assert(spec_query_fields(mapping.push(p)) == spec_property_field(mapping[0]) + "\n"@
            + spec_query_fields(seq![p]));
    } else {
        lemma_query_fields_push(mapping.drop_first(), p);
        assert(mapping.push(p).drop_first() =~= mapping.drop_first().push(p));
        assert(mapping.push(p)[0] == mapping[0]);
        assert(spec_property_field(mapping[0]) + "\n"@ + (spec_query_fields(mapping.drop_first())
            + "\n"@ + spec_property_field(p)) =~= (spec_property_field(mapping[0]) + "\n"@
            + spec_query_fields(mapping.drop_first())) + "\n"@ + spec_property_field(p));
    }
}

/// The newline-joined selections of every property of the mapping.
pub fn get_query_fields(property_map: &Vec<PropertyMap>) -> (r: String)
    requires
        spec_single_keyed(property_map@),
    ensures
        r@ == spec_query_fields(property_map@),
{
    let mut r = String::new();
    let mut i: usize = 0;
    while i < property_map.len()
        invariant
            spec_single_keyed(property_map@),
            i <= property_map@.len(),
            r@ == spec_query_fields(property_map@.take(i as int)),
        decreases property_map@.len() - i,
    {
        if i > 0 {
            r.append("\n");
        }
        let piece = property_query_field(&property_map[i]);
        r.append(piece.as_str());
        proof {
            lemma_query_fields_push(property_map@.take(i as int), property_map@[i as int]);
            assert(property_map@.take(i as int).push(property_map@[i as int]) =~= property_map@
                .take(i + 1 as int));
        }
        i = i + 1;
    }
    proof {
        assert(property_map@.take(property_map@.len() as int) =~= property_map@);
    }
    r
}

/// The fragment's identifier: the lower-cased model name followed by
/// `Fields`.
pub open spec fn spec_fragment_name(model: Seq<char>) -> Seq<char> {
    lower_chars(model) + "Fields"@
}

/// The fragment document. The `on` clause capitalizes the model name's first
/// letter while the fragment identifier lower-cases the whole name; this
/// asymmetry mirrors the backend's type-versus-field naming convention.
pub open spec fn spec_fragment_gql(model: Seq<char>, mapping: Seq<PropertyMap>) -> Seq<char> {
    "fragment "@ + lower_chars(model) + "Fields on "@ + capitalized(model) + " {id "@
        + spec_query_fields(mapping) + " }"@
}

/// Compiles the mapping into a named field-selection fragment. An empty
/// model name yields the empty sentinel fragment whatever the mapping holds.
pub fn parse_to_gql_fragment(model_name: &str, property_map: &Vec<PropertyMap>) -> (r: GraphQL)
    requires
        model_name@.len() > 0 ==> spec_single_keyed(property_map@),
    ensures
        model_name@.len() == 0 ==> r.name@ == Seq::<char>::empty() && r.gql@ == Seq::<
            char,
        >::empty(),
        model_name@.len() > 0 ==> r.name@ == spec_fragment_name(model_name@) && r.gql@
            == spec_fragment_gql(model_name@, property_map@),
{
    if model_name.is_empty() {
        return GraphQL { name: String::new(), gql: String::new() };
    }
    let lower = ascii_lowercase(model_name);
    let mut name = String::new();
    name.append(lower.as_str());
    name.append("Fields");
    let cap = capitalize_first_letter(model_name.to_owned());
    let fields = get_query_fields(property_map);
    let mut gql = String::new();
    gql.append("fragment ");
    gql.append(lower.as_str());
    gql.append("Fields on ");
    gql.append(cap.as_str());
    gql.append(" {id ");
    gql.append(fields.as_str());
    gql.append(" }");
    GraphQL { name, gql }
}

/// The message returned when a property supplies more than one key.
pub open spec fn multi_key_error() -> Seq<char> {
    "unsupported nested assignment: a property supplies more than one key"@
}

pub fn multi_key_error_message() -> (r: String)
    ensures
        r@ == multi_key_error(),
{
    String::from_str("unsupported nested assignment: a property supplies more than one key")
}

/// The checked fragment compiler: an empty model name yields the empty
/// sentinel fragment for any mapping; otherwise a mapping with a property
/// that does not supply exactly one key is rejected; otherwise the compiled
/// fragment is returned.
pub fn compile_fragment(model_name: &str, mapping: &Vec<PropertyMap>) -> (r: Result<
    GraphQL,
    String,
>)
    ensures
        model_name@.len() == 0 ==> (r matches Ok(g) && g.name@ == Seq::<char>::empty() && g.gql@
            == Seq::<char>::empty()),
        model_name@.len() > 0 && spec_single_keyed(mapping@) ==> (r matches Ok(g) && g.name@
            == spec_fragment_name(model_name@) && g.gql@ == spec_fragment_gql(
            model_name@,
            mapping@,
        )),
        model_name@.len() > 0 && !spec_single_keyed(mapping@) ==> (r matches Err(e) && e@
            == multi_key_error()),
{
    if model_name.is_empty() {
        return Ok(GraphQL { name: String::new(), gql: String::new() });
    }
    if !mapping_single_keyed(mapping) {
        return Err(multi_key_error_message());
    }
    Ok(parse_to_gql_fragment(model_name, mapping))
}

/// Law: a property whose kind classifies as scalar-like — `STRING` and every
/// unrecognized label — compiles to its bare field name, with no
/// sub-selection.
pub proof fn lemma_scalar_field_is_bare(p: PropertyMap)
    requires
        p.key@.len() == 1,
        spec_kind(p.key@[0].kind@) is ScalarLike,
    ensures
        spec_property_field(p) == p.key@[0].name@,
{
}

/// Law: an object property's selection is exactly its declared leaf fields,
/// and does not depend on the property's value.
pub proof fn lemma_object_selection_fixed(p: PropertyMap, q: PropertyMap)
    requires
        p.key@.len() == 1,
        q.key@.len() == 1,
        p.key@[0] == q.key@[0],
        spec_kind(p.key@[0].kind@) is Object,
    ensures
        spec_property_field(p) == p.key@[0].name@ + " { "@ + spec_object_fields(
            p.key@[0].object_fields,
        ) + " }"@,
        spec_property_field(p) == spec_property_field(q),
{
}

/// Law: whatever shape the sample value has, its selection begins with the
/// field's own name.
pub proof fn lemma_selection_starts_with_field(field: Seq<char>, v: JsonView)
    ensures
        spec_value_selection(field, v).len() >= field.len(),
        spec_value_selection(field, v).take(field.len() as int) == field,
    decreases v,
{
    match v {
        JsonView::Obj(es) => {
            if es.len() > 0 && obj_has_key(es, "id"@) {
                assert(spec_value_selection(field, v).take(field.len() as int) =~= field);
            } else {
                assert(field.take(field.len() as int) =~= field);
            }
        },
        JsonView::Arr(items) => {
            if items.len() > 0 && spec_is_record(items[0]) {
                lemma_selection_starts_with_field(field, items[0]);
            } else {
                assert(field.take(field.len() as int) =~= field);
            }
        },
        _ => {
            assert(field.take(field.len() as int) =~= field);
        },
    }
}

/// The per-key selections a record expands into, one per entry.
pub open spec fn selection_parts(es: Seq<(Seq<char>, JsonView)>) -> Seq<Seq<char>> {
    Seq::new(es.len(), |i: int| spec_value_selection(es[i].0, es[i].1))
}

proof fn lemma_entry_fields_is_join(es: Seq<(Seq<char>, JsonView)>)
    ensures
        spec_entry_fields(es) == join_with(selection_parts(es), "\n"@),
    decreases es.len(),
{
    if es.len() == 0 {
    } else if es.len() == 1 {
        assert(selection_parts(es)[0] == spec_value_selection(es[0].0, es[0].1));
        assert(join_with(selection_parts(es), "\n"@) == selection_parts(es)[0]);
    } else {
        lemma_entry_fields_is_join(es.drop_first());
        assert(selection_parts(es).drop_first() =~= selection_parts(es.drop_first()));
        assert(selection_parts(es)[0] == spec_value_selection(es[0].0, es[0].1));
    }
}

/// Law: the selection emitted for a record-shaped value is the field name
/// followed by one sub-selection per key of the record, in the record's own
/// order, each sub-selection led by that key; each sub-selection is itself a
/// selection of the entry's value, so nested records and record collections
/// expand by the same rule, recursively.
pub proof fn lemma_record_selection_shape(field: Seq<char>, v: JsonView)
    requires
        spec_is_record(v),
    ensures
        spec_value_selection(field, v) == field + " { "@ + join_with(
            selection_parts(obj_entries(v)),
            "\n"@,
        ) + " }"@,
        selection_parts(obj_entries(v)).len() == obj_entries(v).len(),
        forall|i: int|
            0 <= i < obj_entries(v).len() ==> (#[trigger] selection_parts(obj_entries(v))[i])
                == spec_value_selection(obj_entries(v)[i].0, obj_entries(v)[i].1),
        forall|i: int|
            0 <= i < obj_entries(v).len() ==> (#[trigger] selection_parts(obj_entries(v))[i]).take(
                obj_entries(v)[i].0.len() as int,
            ) == obj_entries(v)[i].0,
{
    lemma_entry_fields_is_join(obj_entries(v));
    assert forall|i: int| 0 <= i < obj_entries(v).len() implies (#[trigger] selection_parts(
        obj_entries(v),
    )[i]).take(obj_entries(v)[i].0.len() as int) == obj_entries(v)[i].0 by {
        lemma_selection_starts_with_field(obj_entries(v)[i].0, obj_entries(v)[i].1);
    }
}

/// Law: a relation property — to-one or to-many — whose value is absent, or
/// does not look like a record (to-one) or a record collection (to-many),
/// selects exactly `{ id }`.
pub proof fn lemma_relation_id_only(p: PropertyMap)
    requires
        p.key@.len() == 1,
        spec_kind(p.key@[0].kind@) is BelongsTo || spec_kind(p.key@[0].kind@) is HasMany
            || spec_kind(p.key@[0].kind@) is HasAndBelongsToMany,
        match p.value {
            Option::Some(s) => if spec_kind(p.key@[0].kind@) is BelongsTo {
                !spec_is_record(spec_parse_or_string(s@))
            } else {
                !spec_is_collection(spec_parse_or_string(s@))
            },
            Option::None => true,
        },
    ensures
        spec_property_field(p) == spec_id_fragment(p.key@[0].name@),
{
}

} // verus!
