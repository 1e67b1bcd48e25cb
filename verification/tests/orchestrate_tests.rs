use gql_crud::mapping::{Model, PropertyKey, PropertyMap};
use gql_crud::orchestrate::{
    begin_create, begin_delete, begin_update, delete_outcome, get_record_id,
    on_fetch_response, on_mutation_response,
};

fn prop(kind: &str, name: &str, value: Option<&str>) -> PropertyMap {
    PropertyMap {
        key: vec![PropertyKey {
            kind: kind.to_string(),
            name: name.to_string(),
            object_fields: None,
        }],
        value: value.map(|v| v.to_string()),
    }
}

fn task_model() -> Model {
    Model { name: "Task".to_string() }
}

fn task_mapping() -> Vec<PropertyMap> {
    vec![prop("STRING", "name", Some("New Task"))]
}

#[test]
fn get_record_id_should_get_id_from_request_result() {
    let mutation_name = "createuser";
    let request_result = r#"{"createuser":{"id":"uuid"}}"#;

    // The envelope carries no `data` wrapper, so the identifier cannot be
    // read out of it and the missing layer is reported.
    assert_eq!(
        get_record_id(request_result, mutation_name),
        Err("missing data field".to_string())
    );
}

#[test]
fn get_record_id_reads_the_id_out_of_a_full_envelope() {
    let request_result = r#"{"data":{"createuser":{"id":"uuid"}}}"#;

    assert_eq!(
        get_record_id(request_result, "createuser"),
        Ok("uuid".to_string())
    );
}

#[test]
fn get_record_id_normalizes_a_numeric_id_to_text() {
    let request_result = r#"{"data":{"createTask":{"id":7}}}"#;

    assert_eq!(get_record_id(request_result, "createTask"), Ok("7".to_string()));
}

#[test]
fn create_round_trip_issues_fetch_by_returned_id() {
    let (request, session) = begin_create(&task_model(), &task_mapping(), &None).unwrap();

    assert!(request
        .document
        .contains("createTask(input: $input, validationSets: $validationSets)"));
    assert_eq!(
        request.variables,
        r#"{"input":{"name":"New Task"},"validationSets":["default"]}"#
    );

    let fetch = on_mutation_response(
        &session,
        Ok(r#"{"data":{"createTask":{"id":"7"}}}"#.to_string()),
    )
    .unwrap();
    assert_eq!(fetch.variables, r#"{"where":{"id":{"eq":"7"}}}"#);
    assert!(fetch.document.contains("oneTask(where: $where)"));
    assert!(fetch.document.contains("...taskFields"));

    let record = on_fetch_response(
        &session,
        Ok(r#"{"data":{"oneTask":{"id":"7","name":"New Task"}}}"#.to_string()),
    );
    assert_eq!(record, Ok(r#"{"id":"7","name":"New Task"}"#.to_string()));
}

#[test]
fn update_carries_record_id_in_document_and_variables() {
    let (request, session) =
        begin_update(&task_model(), &"9".to_string(), &task_mapping(), &None).unwrap();

    assert!(request
        .document
        .contains("updateTask(id: $id, input: $input, validationSets: $validationSets)"));
    assert_eq!(
        request.variables,
        r#"{"id":"9","input":{"name":"New Task"},"validationSets":["default"]}"#
    );
    assert_eq!(session.mutation_name, "updateTask");
}

#[test]
fn caller_validation_sets_replace_the_default() {
    let sets = Some(vec!["strict".to_string(), "extra".to_string()]);
    let (request, _) = begin_create(&task_model(), &task_mapping(), &sets).unwrap();

    assert_eq!(
        request.variables,
        r#"{"input":{"name":"New Task"},"validationSets":["strict","extra"]}"#
    );
}

#[test]
fn transport_failure_short_circuits_without_a_fetch() {
    let (_, session) = begin_create(&task_model(), &task_mapping(), &None).unwrap();

    let outcome = on_mutation_response(&session, Err("boom".to_string()));

    assert_eq!(outcome, Err("boom".to_string()));
}

#[test]
fn missing_mutation_key_is_reported_by_name() {
    let (_, session) = begin_create(&task_model(), &task_mapping(), &None).unwrap();

    let outcome = on_mutation_response(&session, Ok(r#"{"data":{}}"#.to_string()));

    assert_eq!(outcome.unwrap_err(), "missing createTask".to_string());
}

#[test]
fn missing_id_in_mutation_envelope_is_reported() {
    let (_, session) = begin_create(&task_model(), &task_mapping(), &None).unwrap();

    let outcome = on_mutation_response(&session, Ok(r#"{"data":{"createTask":{}}}"#.to_string()));

    assert_eq!(outcome.unwrap_err(), "missing id in return".to_string());
}

#[test]
fn non_string_non_number_id_is_rejected() {
    let (_, session) = begin_create(&task_model(), &task_mapping(), &None).unwrap();

    let outcome = on_mutation_response(
        &session,
        Ok(r#"{"data":{"createTask":{"id":true}}}"#.to_string()),
    );

    assert_eq!(outcome.unwrap_err(), "ID should be a string or number".to_string());
}

#[test]
fn non_object_mutation_envelope_is_rejected() {
    let (_, session) = begin_create(&task_model(), &task_mapping(), &None).unwrap();

    let outcome = on_mutation_response(&session, Ok("not an object".to_string()));

    assert_eq!(outcome.unwrap_err(), "Expected result to be an object".to_string());
}

#[test]
fn non_object_fetch_response_is_rejected() {
    let (_, session) = begin_create(&task_model(), &task_mapping(), &None).unwrap();

    let outcome = on_fetch_response(&session, Ok("[1,2]".to_string()));

    assert_eq!(
        outcome.unwrap_err(),
        "Return type of provider should always be an object".to_string()
    );
}

#[test]
fn fetch_response_missing_query_key_is_reported_by_name() {
    let (_, session) = begin_create(&task_model(), &task_mapping(), &None).unwrap();

    let outcome = on_fetch_response(&session, Ok(r#"{"data":{"wrong":1}}"#.to_string()));

    assert_eq!(outcome.unwrap_err(), "missing oneTask".to_string());
}

#[test]
fn delete_returns_fixed_body_for_any_successful_response() {
    let deleted = Ok(r#"{"result":"Record deleted"}"#.to_string());
    assert_eq!(delete_outcome(Ok("whatever the payload held".to_string())), deleted);
    assert_eq!(delete_outcome(Ok(r#"{"data":{"deleteTask":null}}"#.to_string())), deleted);
    assert_eq!(delete_outcome(Ok(String::new())), deleted);
}

#[test]
fn delete_passes_transport_failure_through() {
    assert_eq!(
        delete_outcome(Err("gone away".to_string())),
        Err("gone away".to_string())
    );
}

#[test]
fn begin_delete_builds_single_round_trip_request() {
    let request = begin_delete(&task_model(), &"3".to_string());

    assert!(request.document.contains("deleteTask(id: $id)"));
    assert_eq!(request.variables, r#"{"id":"3"}"#);
}

#[test]
fn fetch_where_identifier_is_escaped_when_serialized() {
    let (_, session) = begin_create(&task_model(), &task_mapping(), &None).unwrap();

    let fetch = on_mutation_response(
        &session,
        Ok("{\"data\":{\"createTask\":{\"id\":\"a\\\"b\"}}}".to_string()),
    )
    .unwrap();

    assert_eq!(fetch.variables, "{\"where\":{\"id\":{\"eq\":\"a\\\"b\"}}}");
}

#[test]
fn multi_key_mapping_fails_create_before_any_request() {
    let mapping = vec![PropertyMap {
        key: vec![
            PropertyKey {
                kind: "STRING".to_string(),
                name: "a".to_string(),
                object_fields: None,
            },
            PropertyKey {
                kind: "STRING".to_string(),
                name: "b".to_string(),
                object_fields: None,
            },
        ],
        value: None,
    }];

    let err = begin_create(&task_model(), &mapping, &None).unwrap_err();
    assert_eq!(
        err,
        "unsupported nested assignment: a property supplies more than one key"
    );
}
