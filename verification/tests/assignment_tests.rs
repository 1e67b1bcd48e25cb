use gql_crud::assignment::{compile_assignment, parse_assigned_properties};
use gql_crud::mapping::{PropertyKey, PropertyMap};
use gql_crud::ser::json_text;

fn prop(kind: &str, name: &str, value: Option<&str>) -> PropertyMap {
    PropertyMap {
        key: vec![PropertyKey {
            kind: kind.to_string(),
            name: name.to_string(),
            object_fields: None,
        }],
        value: value.map(|v| v.to_string()),
    }
}

#[test]
fn parse_assigned_propertie_should_create_simple_input_variables() {
    let property_map = vec![prop("STRING", "name", Some("New Task"))];

    let assigned_properties = parse_assigned_properties(&property_map);

    assert_eq!(json_text(&assigned_properties), r#"{"name":"New Task"}"#);
}

#[test]
fn parse_assigned_propertie_should_create_nested_input_variables() {
    let property_map = vec![
        prop("STRING", "name", Some("test")),
        prop("HAS_MANY", "abilities", Some(r#"[{"name":"Tackle"}]"#)),
    ];

    let assigned_properties = parse_assigned_properties(&property_map);

    assert_eq!(
        json_text(&assigned_properties),
        r#"{"name":"test","abilities":[{"name":"Tackle"}]}"#
    );
}

#[test]
fn belongs_to_record_value_is_coerced_to_its_id() {
    let property_map = vec![prop("BELONGS_TO", "author", Some(r#"{"id":1,"name":"x"}"#))];

    let assigned = compile_assignment(&property_map).unwrap();

    assert_eq!(json_text(&assigned), r#"{"author":1}"#);
}

#[test]
fn has_many_record_collection_is_coerced_to_id_list() {
    let property_map = vec![prop("HAS_MANY", "users", Some(r#"[{"id":1},{"id":2}]"#))];

    let assigned = compile_assignment(&property_map).unwrap();

    assert_eq!(json_text(&assigned), r#"{"users":{"id":[1,2]}}"#);
}

#[test]
fn has_many_mixed_collection_keeps_non_record_elements() {
    let property_map = vec![prop(
        "HAS_AND_BELONGS_TO_MANY",
        "parts",
        Some(r#"[{"id":7,"name":"a"},3,"loose"]"#),
    )];

    let assigned = compile_assignment(&property_map).unwrap();

    assert_eq!(json_text(&assigned), r#"{"parts":{"id":[7,3,"loose"]}}"#);
}

#[test]
fn absent_value_becomes_explicit_null() {
    let property_map = vec![prop("STRING", "name", None)];

    let assigned = compile_assignment(&property_map).unwrap();

    assert_eq!(json_text(&assigned), r#"{"name":null}"#);
}

#[test]
fn plain_number_text_is_parsed_not_quoted() {
    let property_map = vec![prop("STRING", "count", Some("1"))];

    let assigned = compile_assignment(&property_map).unwrap();

    assert_eq!(json_text(&assigned), r#"{"count":1}"#);
}

#[test]
fn non_json_text_stays_a_string() {
    let property_map = vec![prop("STRING", "note", Some("not json {"))];

    let assigned = compile_assignment(&property_map).unwrap();

    assert_eq!(json_text(&assigned), r#"{"note":"not json {"}"#);
}

#[test]
fn belongs_to_bare_id_value_passes_through() {
    let property_map = vec![prop("BELONGS_TO", "author", Some("42"))];

    let assigned = compile_assignment(&property_map).unwrap();

    assert_eq!(json_text(&assigned), r#"{"author":42}"#);
}

#[test]
fn multi_key_assignment_is_rejected() {
    let property_map = vec![PropertyMap {
        key: vec![
            PropertyKey {
                kind: "STRING".to_string(),
                name: "a".to_string(),
                object_fields: None,
            },
            PropertyKey {
                kind: "STRING".to_string(),
                name: "b".to_string(),
                object_fields: None,
            },
        ],
        value: None,
    }];

    let err = compile_assignment(&property_map).unwrap_err();
    assert_eq!(
        err,
        "unsupported nested assignment: a property supplies more than one key"
    );
}

#[test]
fn later_property_of_same_name_replaces_earlier() {
    let property_map = vec![
        prop("STRING", "name", Some("first")),
        prop("STRING", "name", Some("second")),
    ];

    let assigned = parse_assigned_properties(&property_map);

    assert_eq!(json_text(&assigned), r#"{"name":"second"}"#);
}
