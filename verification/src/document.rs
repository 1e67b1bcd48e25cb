//! Document formatter: the four document shapes as pure string templates.

use crate::mapping::GraphQL;
use vstd::prelude::*;

verus! {

/// The create mutation: declares `$input` and `$validationSets`, selects only
/// `id`.
pub open spec fn spec_input_mutation(mutation_name: Seq<char>, model_name: Seq<char>) -> Seq<
    char,
> {
    "mutation($input: "@ + model_name + "Input, $validationSets: [String]) { "@ + mutation_name
        + "(input: $input, validationSets: $validationSets) { id } }"@
}

pub fn format_input_mutation(mutation_name: &str, model_name: &str) -> (r: String)
    ensures
        r@ == spec_input_mutation(mutation_name@, model_name@),
{
    let mut r = String::new();
    r.append("mutation($input: ");
    r.append(model_name);
    r.append("Input, $validationSets: [String]) { ");
    r.append(mutation_name);
    r.append("(input: $input, validationSets: $validationSets) { id } }");
    r
}

/// The update mutation: as the create mutation, with `$id: Int!` declared and
/// passed.
pub open spec fn spec_update_mutation(mutation_name: Seq<char>, model_name: Seq<char>) -> Seq<
    char,
> {
    "mutation($id: Int!, $input: "@ + model_name + "Input, $validationSets: [String]) { "@
        + mutation_name + "(id: $id, input: $input, validationSets: $validationSets) { id } }"@
}

pub fn format_update_mutation(mutation_name: &str, model_name: &str) -> (r: String)
    ensures
        r@ == spec_update_mutation(mutation_name@, model_name@),
{
    let mut r = String::new();
    r.append("mutation($id: Int!, $input: ");
    r.append(model_name);
    r.append("Input, $validationSets: [String]) { ");
    r.append(mutation_name);
    r.append("(id: $id, input: $input, validationSets: $validationSets) { id } }");
    r
}

/// The delete mutation: declares only `$id: Int!`, selects only `id`.
pub open spec fn spec_delete_mutation(mutation_name: Seq<char>) -> Seq<char> {
    "mutation($id: Int!) { "@ + mutation_name + "(id: $id) { id } }"@
}

pub fn format_delete_mutation(mutation_name: &str) -> (r: String)
    ensures
        r@ == spec_delete_mutation(mutation_name@),
{
    let mut r = String::new();
    r.append("mutation($id: Int!) { ");
    r.append(mutation_name);
    r.append("(id: $id) { id } }");
    r
}

/// The fetch-by-id query: the compiled fragment followed by a query of
/// `one<Model>`; the selection is a spread of the fragment when one was
/// compiled, else the bare `id`.
pub open spec fn spec_fetch_query(
    model_name: Seq<char>,
    frag_name: Seq<char>,
    frag_gql: Seq<char>,
) -> Seq<char> {
    frag_gql + "\nquery($where: "@ + model_name + "FilterInput) { one"@ + model_name
        + "(where: $where) { "@ + (if frag_gql.len() > 0 {
        "..."@ + frag_name
    } else {
        "id"@
    }) + " } }"@
}

pub fn format_fetch_query(model_name: &str, fragment: &GraphQL) -> (r: String)
    ensures
        r@ == spec_fetch_query(model_name@, fragment.name@, fragment.gql@),
{
    let mut r = String::new();
    r.append(fragment.gql.as_str());
    r.append("\nquery($where: ");
    r.append(model_name);
    r.append("FilterInput) { one");
    r.append(model_name);
    r.append("(where: $where) { ");
    if !fragment.gql.as_str().is_empty() {
        r.append("...");
        r.append(fragment.name.as_str());
    } else {
        r.append("id");
    }
    r.append(" } }");
    r
}

} // verus!
