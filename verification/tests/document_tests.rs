use gql_crud::document::{
    format_delete_mutation, format_fetch_query, format_input_mutation, format_update_mutation,
};
use gql_crud::mapping::GraphQL;

/// Reduces a document to its token stream: whitespace runs become one space
/// and spaces next to punctuation are dropped, so two renderings of the same
/// document compare equal.
fn normalize(s: &str) -> String {
    let punct = |c: char| "{}()[]:,!".contains(c);
    let mut out = String::new();
    let mut pending_space = false;
    for ch in s.chars() {
        if ch.is_whitespace() {
            pending_space = true;
            continue;
        }
        if punct(ch) {
            out.push(ch);
        } else {
            if pending_space {
                if let Some(last) = out.chars().last() {
                    if !punct(last) {
                        out.push(' ');
                    }
                }
            }
            out.push(ch);
        }
        pending_space = false;
    }
    out
}

#[test]
fn format_input_mutation_should_return_correct_mutation() {
    let mutation_name = "createuser";
    let model_name = "user";

    assert_eq!(
        normalize(&format_input_mutation(mutation_name, model_name)),
        normalize(
            "\nmutation ($input: userInput, $validationSets: [String]) {\n  createuser(input: $input, validationSets: $validationSets) {\n    id\n  }\n}"
        ),
    );
}

#[test]
fn format_update_mutation_should_return_correct_mutation() {
    let mutation_name = "updateuser";
    let model_name = "user";

    assert_eq!(
        normalize(&format_update_mutation(mutation_name, model_name)),
        normalize(
            "\nmutation ($id: Int!, $input: userInput, $validationSets: [String]) {\n  updateuser(id: $id, input: $input, validationSets: $validationSets) {\n    id\n  }\n}"
        ),
    );
}

#[test]
fn format_delete_mutation_should_return_correct_mutation() {
    let mutation_name = "deleteuser";

    assert_eq!(
        normalize(&format_delete_mutation(mutation_name)),
        normalize("\nmutation ($id: Int!) {\n  deleteuser(id: $id) {\n    id\n  }\n}"),
    );
}

#[test]
fn fetch_query_spreads_the_fragment_when_one_was_compiled() {
    let fragment = GraphQL {
        name: "taskFields".to_string(),
        gql: "fragment taskFields on Task {id name }".to_string(),
    };

    let query = format_fetch_query("Task", &fragment);

    assert_eq!(
        normalize(&query),
        normalize(
            "fragment taskFields on Task { id name }\nquery($where: TaskFilterInput) { oneTask(where: $where) { ...taskFields } }"
        )
    );
}

#[test]
fn fetch_query_selects_bare_id_without_a_fragment() {
    let fragment = GraphQL { name: "".to_string(), gql: "".to_string() };

    let query = format_fetch_query("Task", &fragment);

    assert_eq!(
        normalize(&query),
        normalize("query($where: TaskFilterInput) { oneTask(where: $where) { id } }")
    );
}
