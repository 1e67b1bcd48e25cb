//! The create/update/delete orchestration, as a pure decision core.
//!
//! Each call runs through the states compile, mutate, and (for create and
//! update) fetch-back. The functions here make every decision of that state
//! machine — what to send, how to read each envelope, when to fail — while
//! the caller performs the transport round-trips between them and hands the
//! results back. A transport failure short-circuits: no fetch-back request is
//! produced. The mutate-then-fetch gap is deliberate: the two steps stay
//! separately observable, so a caller can reason about a mutation that
//! committed even though the fetch-back failed.

use crate::assignment::{parse_assigned_properties, spec_assignment};
use crate::document::{
    format_delete_mutation, format_fetch_query, format_input_mutation, format_update_mutation,
    spec_delete_mutation, spec_fetch_query, spec_input_mutation, spec_update_mutation,
};
use crate::fragment::{
    multi_key_error, multi_key_error_message, parse_to_gql_fragment, spec_fragment_gql,
    spec_fragment_name,
};
use crate::json::{
    entries_view, items_view, lemma_entries_view_index, lemma_items_view_index, obj_entries,
    obj_get, parse_json_or_string, spec_obj_get, spec_parse_or_string, JsonVal, JsonView,
};
use crate::mapping::{mapping_single_keyed, spec_single_keyed, GraphQL, Model, PropertyMap};
use crate::ser::{json_text, spec_json_text};
use vstd::prelude::*;

verus! {

broadcast use vstd::std_specs::vec::group_vec_axioms;

/// What a call identifies itself as towards the transport collaborator. The
/// core never reads it: it is carried through to the transport, which uses
/// it to address and authenticate the remote service.
#[derive(Debug, PartialEq, Eq)]
pub struct HelperContext {
    pub application_id: String,
    pub action_id: String,
    pub log_id: String,
    pub jwt: Option<String>,
    pub encrypted_configurations: Option<String>,
}

/// One request to the transport collaborator: a document and its variables,
/// both as text.
#[derive(Debug, PartialEq, Eq)]
pub struct GqlRequest {
    pub document: String,
    pub variables: String,
}

/// What a create or update call carries from the mutation round-trip into
/// the fetch-back round-trip.
#[derive(Debug)]
pub struct MutationSession {
    pub model_name: String,
    pub mutation_name: String,
    pub fragment: GraphQL,
}

/// A `Result` of strings as contracts see it.
pub open spec fn res_view(r: Result<String, String>) -> Result<Seq<char>, Seq<char>> {
    match r {
        Result::Ok(s) => Result::Ok(s@),
        Result::Err(e) => Result::Err(e@),
    }
}

/// What `parse_id` yields: the text of a string or number identifier, and an
/// error for any other shape.
pub open spec fn spec_parse_id(v: JsonView) -> Result<Seq<char>, Seq<char>> {
    match v {
        JsonView::Str(s) => Result::Ok(s),
        JsonView::Num(n) => Result::Ok(n),
        _ => Result::Err("ID should be a string or number"@),
    }
}

/// Normalizes an identifier value to text: a string stays itself, a number
/// becomes its literal text, anything else is rejected.
pub fn parse_id(id: &JsonVal) -> (r: Result<String, String>)
    ensures
        res_view(r) == spec_parse_id(id@),
{
    match id {
        JsonVal::Str(s) => Ok(s.clone()),
        JsonVal::Num(n) => Ok(n.clone()),
        _ => Err(String::from_str("ID should be a string or number")),
    }
}

/// How the identifier is read out of a mutation response envelope
/// `{ "data": { "<mutationName>": { "id": <id> } } }`: each missing layer is
/// a distinct failure, and a non-object envelope is one of its own.
pub open spec fn spec_record_id_of(result: Seq<char>, mutation_name: Seq<char>) -> Result<
    Seq<char>,
    Seq<char>,
> {
    match spec_parse_or_string(result) {
        JsonView::Obj(es) => match spec_obj_get(es, "data"@) {
            Option::None => Result::Err("missing data field"@),
            Option::Some(d) => match spec_obj_get(obj_entries(d), mutation_name) {
                Option::None => Result::Err("missing "@ + mutation_name),
                Option::Some(m) => match spec_obj_get(obj_entries(m), "id"@) {
                    Option::None => Result::Err("missing id in return"@),
                    Option::Some(idv) => spec_parse_id(idv),
                },
            },
        },
        _ => Result::Err("Expected result to be an object"@),
    }
}

/// Reads the affected record's identifier out of a mutation response.
pub fn get_record_id(gql_result: &str, mutation_name: &str) -> (r: Result<String, String>)
    ensures
        res_view(r) == spec_record_id_of(gql_result@, mutation_name@),
{
    let parsed = parse_json_or_string(gql_result);
    match &parsed {
        JsonVal::Obj(entries) => {
            let data = obj_get(entries, &String::from_str("data"));
            match data {
                Option::None => Err(String::from_str("missing data field")),
                Option::Some(d) => match d {
                    JsonVal::Obj(des) => {
                        let m = obj_get(des, &mutation_name.to_owned());
                        match m {
                            Option::None => {
                                let mut msg = String::new();
                                msg.append("missing ");
                                msg.append(mutation_name);
                                Err(msg)
                            },
                            Option::Some(mv) => match mv {
                                JsonVal::Obj(mes) => {
                                    let idv = obj_get(mes, &crate::json::id_key());
                                    match idv {
                                        Option::None => Err(
                                            String::from_str("missing id in return"),
                                        ),
                                        Option::Some(x) => parse_id(x),
                                    }
                                },
                                _ => Err(String::from_str("missing id in return")),
                            },
                        }
                    },
                    _ => {
                        let mut msg = String::new();
                        msg.append("missing ");
                        msg.append(mutation_name);
                        Err(msg)
                    },
                },
            }
        },
        _ => Err(String::from_str("Expected result to be an object")),
    }
}

/// The fetch-back `where` variables: `{ "where": { "id": { "eq": <id> } } }`.
pub open spec fn spec_where_variables(id: Seq<char>) -> Seq<char> {
    spec_json_text(
        JsonView::Obj(
            seq![
                (
                    "where"@,
                    JsonView::Obj(
                        seq![("id"@, JsonView::Obj(seq![("eq"@, JsonView::Str(id))]))],
                    ),
                ),
            ],
        ),
    )
}

fn where_variables(id: String) -> (r: String)
    ensures
        r@ == spec_where_variables(id@),
{
    let ghost idv = id@;
    let mut eq_entries: Vec<(String, JsonVal)> = Vec::new();
    eq_entries.push((String::from_str("eq"), JsonVal::Str(id)));
    let eq_obj = JsonVal::Obj(eq_entries);
    proof {
        lemma_entries_view_index(eq_entries@);
        assert(entries_view(eq_entries@) =~= seq![("eq"@, JsonView::Str(idv))]);
    }
    let mut id_entries: Vec<(String, JsonVal)> = Vec::new();
    id_entries.push((crate::json::id_key(), eq_obj));
    let id_obj = JsonVal::Obj(id_entries);
    proof {
        lemma_entries_view_index(id_entries@);
        assert(entries_view(id_entries@) =~= seq![
            ("id"@, JsonView::Obj(seq![("eq"@, JsonView::Str(idv))])),
        ]);
    }
    let mut where_entries: Vec<(String, JsonVal)> = Vec::new();
    where_entries.push((String::from_str("where"), id_obj));
    let where_obj = JsonVal::Obj(where_entries);
    proof {
        lemma_entries_view_index(where_entries@);
        assert(entries_view(where_entries@) =~= seq![
            (
                "where"@,
                JsonView::Obj(seq![("id"@, JsonView::Obj(seq![("eq"@, JsonView::Str(idv))]))]),
            ),
        ]);
    }
    json_text(&where_obj)
}

/// Turns a mutation response into the fetch-back request for the affected
/// record: the identifier is read out of the envelope, and the fetch query
/// is built from the compiled fragment; every envelope failure is returned
/// as the error it names.
pub fn get_affected_record(
    request_result: &str,
    mutation_name: &str,
    model_name: &str,
    fragment: &GraphQL,
) -> (r: Result<GqlRequest, String>)
    ensures
        match spec_record_id_of(request_result@, mutation_name@) {
            Result::Ok(id) => r matches Ok(req) && req.document@ == spec_fetch_query(
                model_name@,
                fragment.name@,
                fragment.gql@,
            ) && req.variables@ == spec_where_variables(id),
            Result::Err(e) => r matches Err(m) && m@ == e,
        },
{
    let id = match get_record_id(request_result, mutation_name) {
        Ok(id) => id,
        Err(e) => {
            return Err(e);
        },
    };
    let document = format_fetch_query(model_name, fragment);
    let variables = where_variables(id);
    Ok(GqlRequest { document, variables })
}

/// The `validationSets` variable: the caller's list, or `["default"]` when
/// none was given.
pub open spec fn spec_validation_sets_value(validation_sets: Option<Vec<String>>) -> JsonView {
    match validation_sets {
        Option::Some(sets) => JsonView::Arr(
            Seq::new(sets@.len(), |i: int| JsonView::Str(sets@[i]@)),
        ),
        Option::None => JsonView::Arr(seq![JsonView::Str("default"@)]),
    }
}

fn validation_sets_value(validation_sets: &Option<Vec<String>>) -> (r: JsonVal)
    ensures
        r@ == spec_validation_sets_value(*validation_sets),
{
    match validation_sets {
        Option::Some(sets) => {
            let mut items: Vec<JsonVal> = Vec::new();
            let mut i: usize = 0;
            while i < sets.len()
                invariant
                    i <= sets@.len(),
                    items@.len() == i,
                    forall|j: int| 0 <= j < i ==> (#[trigger] items@[j])@ == JsonView::Str(
                        sets@[j]@,
                    ),
                decreases sets@.len() - i,
            {
                items.push(JsonVal::Str(sets[i].clone()));
                i = i + 1;
            }
            let r = JsonVal::Arr(items);
            proof {
                lemma_items_view_index(items@);
                assert(items_view(items@) =~= Seq::new(
                    sets@.len(),
                    |i: int| JsonView::Str(sets@[i]@),
                ));
            }
            r
        },
        Option::None => {
            let mut items: Vec<JsonVal> = Vec::new();
            items.push(JsonVal::Str(String::from_str("default")));
            let r = JsonVal::Arr(items);
            proof {
                lemma_items_view_index(items@);
                assert(items_view(items@) =~= seq![JsonView::Str("default"@)]);
            }
            r
        },
    }
}

/// The create mutation's variables:
/// `{ "input": <assignment>, "validationSets": <sets or ["default"]> }`.
pub open spec fn spec_create_variables(
    mapping: Seq<PropertyMap>,
    validation_sets: Option<Vec<String>>,
) -> Seq<char> {
    spec_json_text(
        JsonView::Obj(
            seq![
                ("input"@, JsonView::Obj(spec_assignment(mapping))),
                ("validationSets"@, spec_validation_sets_value(validation_sets)),
            ],
        ),
    )
}

/// The update mutation's variables: as create, with the record's identifier
/// first.
pub open spec fn spec_update_variables(
    record_id: Seq<char>,
    mapping: Seq<PropertyMap>,
    validation_sets: Option<Vec<String>>,
) -> Seq<char> {
    spec_json_text(
        JsonView::Obj(
            seq![
                ("id"@, JsonView::Str(record_id)),
                ("input"@, JsonView::Obj(spec_assignment(mapping))),
                ("validationSets"@, spec_validation_sets_value(validation_sets)),
            ],
        ),
    )
}

/// The delete mutation's variables: `{ "id": <record id> }`.
pub open spec fn spec_delete_variables(record_id: Seq<char>) -> Seq<char> {
    spec_json_text(JsonView::Obj(seq![("id"@, JsonView::Str(record_id))]))
}

/// The compiled fragment a model and mapping yield: the empty sentinel for an
/// empty model name.
pub open spec fn spec_fragment_of(model: Seq<char>, mapping: Seq<PropertyMap>) -> (
    Seq<char>,
    Seq<char>,
) {
    if model.len() == 0 {
        (Seq::<char>::empty(), Seq::<char>::empty())
    } else {
        (spec_fragment_name(model), spec_fragment_gql(model, mapping))
    }
}

/// Compiles a create call: the mutation document and variables to send, and
/// the session carried into the fetch-back step. A mapping with a property
/// that does not supply exactly one key is rejected as a caller error.
pub fn begin_create(
    model: &Model,
    mapping: &Vec<PropertyMap>,
    validation_sets: &Option<Vec<String>>,
) -> (r: Result<(GqlRequest, MutationSession), String>)
    ensures
        !spec_single_keyed(mapping@) ==> (r matches Err(e) && e@ == multi_key_error()),
        spec_single_keyed(mapping@) ==> (r matches Ok(p) && p.0.document@ == spec_input_mutation(
            "create"@ + model.name@,
            model.name@,
        ) && p.0.variables@ == spec_create_variables(mapping@, *validation_sets)
            && p.1.model_name@ == model.name@ && p.1.mutation_name@ == "create"@ + model.name@ && (
        p.1.fragment.name@,
        p.1.fragment.gql@,
        ) == spec_fragment_of(model.name@, mapping@)),
{
    if !mapping_single_keyed(mapping) {
        return Err(multi_key_error_message());
    }
    let fragment = parse_to_gql_fragment(model.name.as_str(), mapping);
    let assigned = parse_assigned_properties(mapping);
    let vsets = validation_sets_value(validation_sets);
    let ghost gassigned = assigned@;
    let ghost gvsets = vsets@;
    let mut input_entries: Vec<(String, JsonVal)> = Vec::new();
    input_entries.push((String::from_str("input"), assigned));
    input_entries.push((String::from_str("validationSets"), vsets));
    let input = JsonVal::Obj(input_entries);
    proof {
        lemma_entries_view_index(input_entries@);
        assert(entries_view(input_entries@) =~= seq![
            ("input"@, gassigned),
            ("validationSets"@, gvsets),
        ]);
    }
    let variables = json_text(&input);
    let mut mutation_name = String::new();
    mutation_name.append("create");
    mutation_name.append(model.name.as_str());
    let document = format_input_mutation(mutation_name.as_str(), model.name.as_str());
    let session = MutationSession {
        model_name: model.name.clone(),
        mutation_name,
        fragment,
    };
    Ok((GqlRequest { document, variables }, session))
}

/// Compiles an update call; as `begin_create`, with the record's identifier
/// carried in the document and the variables.
pub fn begin_update(
    model: &Model,
    record_id: &String,
    mapping: &Vec<PropertyMap>,
    validation_sets: &Option<Vec<String>>,
) -> (r: Result<(GqlRequest, MutationSession), String>)
    ensures
        !spec_single_keyed(mapping@) ==> (r matches Err(e) && e@ == multi_key_error()),
        spec_single_keyed(mapping@) ==> (r matches Ok(p) && p.0.document@ == spec_update_mutation(
            "update"@ + model.name@,
            model.name@,
        ) && p.0.variables@ == spec_update_variables(record_id@, mapping@, *validation_sets)
            && p.1.model_name@ == model.name@ && p.1.mutation_name@ == "update"@ + model.name@ && (
        p.1.fragment.name@,
        p.1.fragment.gql@,
        ) == spec_fragment_of(model.name@, mapping@)),
{
    if !mapping_single_keyed(mapping) {
        return Err(multi_key_error_message());
    }
    let fragment = parse_to_gql_fragment(model.name.as_str(), mapping);
    let assigned = parse_assigned_properties(mapping);
    let vsets = validation_sets_value(validation_sets);
    let ghost gassigned = assigned@;
    let ghost gvsets = vsets@;
    let mut input_entries: Vec<(String, JsonVal)> = Vec::new();
    input_entries.push((crate::json::id_key(), JsonVal::Str(record_id.clone())));
    input_entries.push((String::from_str("input"), assigned));
    input_entries.push((String::from_str("validationSets"), vsets));
    let input = JsonVal::Obj(input_entries);
    proof {
        lemma_entries_view_index(input_entries@);
        assert(entries_view(input_entries@) =~= seq![
            ("id"@, JsonView::Str(record_id@)),
            ("input"@, gassigned),
            ("validationSets"@, gvsets),
        ]);
    }
    let variables = json_text(&input);
    let mut mutation_name = String::new();
    mutation_name.append("update");
    mutation_name.append(model.name.as_str());
    let document = format_update_mutation(mutation_name.as_str(), model.name.as_str());
    let session = MutationSession {
        model_name: model.name.clone(),
        mutation_name,
        fragment,
    };
    Ok((GqlRequest { document, variables }, session))
}

/// Compiles a delete call: a single round-trip, so no session is needed.
pub fn begin_delete(model: &Model, record_id: &String) -> (r: GqlRequest)
    ensures
        r.document@ == spec_delete_mutation("delete"@ + model.name@),
        r.variables@ == spec_delete_variables(record_id@),
{
    let mut entries: Vec<(String, JsonVal)> = Vec::new();
    entries.push((crate::json::id_key(), JsonVal::Str(record_id.clone())));
    let input = JsonVal::Obj(entries);
    proof {
        lemma_entries_view_index(entries@);
        assert(entries_view(entries@) =~= seq![("id"@, JsonView::Str(record_id@))]);
    }
    let variables = json_text(&input);
    let mut mutation_name = String::new();
    mutation_name.append("delete");
    mutation_name.append(model.name.as_str());
    let document = format_delete_mutation(mutation_name.as_str());
    GqlRequest { document, variables }
}

/// Decides what follows the mutation round-trip: a transport failure is
/// passed through verbatim, with no fetch-back attempted; a success has its
/// envelope read and becomes the fetch-back request.
pub fn on_mutation_response(session: &MutationSession, result: Result<String, String>) -> (r:
    Result<GqlRequest, String>)
    ensures
        result matches Err(e) ==> (r matches Err(e2) && e2@ == e@),
        result matches Ok(data) ==> match spec_record_id_of(data@, session.mutation_name@) {
            Result::Ok(id) => r matches Ok(req) && req.document@ == spec_fetch_query(
                session.model_name@,
                session.fragment.name@,
                session.fragment.gql@,
            ) && req.variables@ == spec_where_variables(id),
            Result::Err(e) => r matches Err(m) && m@ == e,
        },
{
    match result {
        Ok(data) => get_affected_record(
            data.as_str(),
            session.mutation_name.as_str(),
            session.model_name.as_str(),
            &session.fragment,
        ),
        Err(e) => Err(e),
    }
}

/// How the fetched record is read out of a fetch response envelope
/// `{ "data": { "<queryName>": <record> } }`: the record re-serialized, or
/// the failure each missing layer names. A response that is not a JSON
/// object — an unparseable one included — is its own failure.
pub open spec fn spec_fetched_record(response: Seq<char>, query_name: Seq<char>) -> Result<
    Seq<char>,
    Seq<char>,
> {
    match spec_parse_or_string(response) {
        JsonView::Obj(es) => match spec_obj_get(es, "data"@) {
            Option::None => Result::Err("missing data field"@),
            Option::Some(d) => match spec_obj_get(obj_entries(d), query_name) {
                Option::None => Result::Err("missing "@ + query_name),
                Option::Some(rec) => Result::Ok(spec_json_text(rec)),
            },
        },
        _ => Result::Err("Return type of provider should always be an object"@),
    }
}

/// Reads the fetched record out of a fetch response and re-serializes it.
pub fn extract_fetched_record(response: &str, model_name: &str) -> (r: Result<String, String>)
    ensures
        res_view(r) == spec_fetched_record(response@, "one"@ + model_name@),
{
    let mut query_name = String::new();
    query_name.append("one");
    query_name.append(model_name);
    let parsed = parse_json_or_string(response);
    match &parsed {
        JsonVal::Obj(entries) => {
            let data = obj_get(entries, &String::from_str("data"));
            match data {
                Option::None => Err(String::from_str("missing data field")),
                Option::Some(d) => match d {
                    JsonVal::Obj(des) => {
                        let m = obj_get(des, &query_name);
                        match m {
                            Option::None => {
                                let mut msg = String::new();
                                msg.append("missing ");
                                msg.append(query_name.as_str());
                                Err(msg)
                            },
                            Option::Some(rec) => Ok(json_text(rec)),
                        }
                    },
                    _ => {
                        let mut msg = String::new();
                        msg.append("missing ");
                        msg.append(query_name.as_str());
                        Err(msg)
                    },
                },
            }
        },
        _ => Err(String::from_str("Return type of provider should always be an object")),
    }
}

/// Decides what a create or update call returns once the fetch-back
/// round-trip came back: a transport failure is passed through verbatim, a
/// success has its envelope read and the record returned serialized.
pub fn on_fetch_response(session: &MutationSession, result: Result<String, String>) -> (r: Result<
    String,
    String,
>)
    ensures
        result matches Err(e) ==> (r matches Err(e2) && e2@ == e@),
        result matches Ok(data) ==> res_view(r) == spec_fetched_record(
            data@,
            "one"@ + session.model_name@,
        ),
{
    match result {
        Ok(data) => extract_fetched_record(data.as_str(), session.model_name.as_str()),
        Err(e) => Err(e),
    }
}

/// The fixed body a successful delete returns.
pub open spec fn delete_success_body() -> Seq<char> {
    "{\"result\":\"Record deleted\"}"@
}

/// Decides what a delete call returns: any transport success yields the
/// fixed `Record deleted` body, whatever the response payload held; a
/// transport failure is passed through verbatim.
pub fn delete_outcome(result: Result<String, String>) -> (r: Result<String, String>)
    ensures
        result matches Ok(data) ==> (r matches Ok(body) && body@ == delete_success_body()),
        result matches Err(e) ==> (r matches Err(e2) && e2@ == e@),
{
    match result {
        Ok(_) => Ok(String::from_str("{\"result\":\"Record deleted\"}")),
        Err(e) => Err(e),
    }
}

} // verus!
