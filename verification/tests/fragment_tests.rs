use gql_crud::fragment::{compile_fragment, parse_to_gql_fragment};
use gql_crud::mapping::{GraphQL, ObjectField, PropertyKey, PropertyMap};

/// Reduces a document to its token stream: whitespace runs become one space
/// and spaces next to punctuation are dropped, so two renderings of the same
/// document compare equal.
fn normalize(s: &str) -> String {
    let punct = |c: char| "{}()[]:,!".contains(c);
    let mut out = String::new();
    let mut pending_space = false;
    for ch in s.chars() {
        if ch.is_whitespace() {
            pending_space = true;
            continue;
        }
        if punct(ch) {
            out.push(ch);
        } else {
            if pending_space {
                if let Some(last) = out.chars().last() {
                    if !punct(last) {
                        out.push(' ');
                    }
                }
            }
            out.push(ch);
        }
        pending_space = false;
    }
    out
}

fn prop(kind: &str, name: &str, value: Option<&str>) -> PropertyMap {
    PropertyMap {
        key: vec![PropertyKey {
            kind: kind.to_string(),
            name: name.to_string(),
            object_fields: None,
        }],
        value: value.map(|v| v.to_string()),
    }
}

#[test]
fn returns_task_fragment() {
    let property_map = vec![prop("STRING", "name", Some("New Task"))];

    let fragment = parse_to_gql_fragment("Task", &property_map);

    assert_eq!(
        normalize(&fragment.gql),
        normalize("\nfragment taskFields on Task {\n  id\n  name\n}")
    );
    assert_eq!(fragment.name, "taskFields".to_string());
}

#[test]
fn returns_task_fragment_with_object_property() {
    let property_map = vec![PropertyMap {
        key: vec![PropertyKey {
            kind: "OBJECT".to_string(),
            name: "object".to_string(),
            object_fields: Some(vec![
                ObjectField { name: "uuid".to_string() },
                ObjectField { name: "answer".to_string() },
                ObjectField { name: "score".to_string() },
            ]),
        }],
        value: Some("New Task".to_string()),
    }];

    let fragment = parse_to_gql_fragment("Task", &property_map);

    assert_eq!(
        normalize(&fragment.gql),
        normalize(
            "\nfragment taskFields on Task {\n    id\n    object {\n        uuid\n        answer\n        score\n    }\n}"
        )
    );
    assert_eq!(fragment.name, "taskFields".to_string());
}

#[test]
fn returns_task_fragment_with_belongs_to_relation() {
    let value = r#"{"createdAt":"2023-04-25T10:11:55+02:00","id":1,"name":"model","updatedAt":"2023-04-25T10:24:05+02:00"}"#;
    let property_map = vec![prop("BELONGS_TO", "model", Some(value))];

    let fragment = parse_to_gql_fragment("Task", &property_map);

    let expected = "\nfragment taskFields on Task {\n    id\n    model {\n        createdAt\n        id\n        name\n        updatedAt\n    }\n}";
    assert_eq!(normalize(&fragment.gql), normalize(expected));
    assert_eq!(fragment.name, "taskFields".to_string());
}

#[test]
fn returns_task_fragment_with_has_many_relation() {
    let value = r#"[{"active":true,"casToken":"c530c3f4079a09f7804259002307b5e50c656d52","createdAt":"2023-02-08T16:48:14+01:00","developer":true,"email":"test@example.com","id":1,"locale":null,"name":"Admin Blocks","password":"test","readMetadata":false,"receivesNotifications":true,"updatedAt":"2023-02-08T16:48:14+01:00"}]"#;
    let property_map = vec![prop("HAS_MANY", "users", Some(value))];

    let fragment = parse_to_gql_fragment("Task", &property_map);

    let expected = "\nfragment taskFields on Task {\n  id\n  users {\n    active\n    casToken\n    createdAt\n    developer\n    email\n    id\n    locale\n    name\n    password\n    readMetadata\n    receivesNotifications\n    updatedAt\n  }\n}";
    assert_eq!(normalize(&fragment.gql), normalize(expected));
    assert_eq!(fragment.name, "taskFields".to_string());
}

#[test]
fn returns_task_fragment_with_multiple_belongs_to_relations() {
    let value = r#"{"createdAt":"2023-04-26T13:12:08+02:00","id":1,"name":"fdsfsfd","updatedAt":"2023-04-26T13:20:57+02:00","user":{"active":true,"casToken":"c530c3f4079a09f7804259002307b5e50c656d52","createdAt":"2023-02-08T16:48:14+01:00","developer":true,"email":"test@example.com","id":1,"locale":null,"name":"Admin Blocks","password":"test","readMetadata":false,"receivesNotifications":true,"updatedAt":"2023-04-26T13:06:49+02:00"}}"#;
    let property_map = vec![prop("BELONGS_TO", "information", Some(value))];

    let fragment = parse_to_gql_fragment("Task", &property_map);

    let expected = "\nfragment taskFields on Task {\n  id\n  information {\n    createdAt\n    id\n    name\n    updatedAt\n    user {\n      active\n      casToken\n      createdAt\n      developer\n      email\n      id\n      locale\n      name\n      password\n      readMetadata\n      receivesNotifications\n      updatedAt\n    }\n  }\n}";
    assert_eq!(normalize(&fragment.gql), normalize(expected));
    assert_eq!(fragment.name, "taskFields".to_string());
}

#[test]
fn returns_task_fragment_with_nested_belongs_to_relations() {
    let value = r#"{"createdAt":"2023-04-26T13:12:08+02:00","createdBy":{"active":true,"casToken":"c530c3f4079a09f7804259002307b5e50c656d52","createdAt":"2023-02-08T16:48:14+01:00","department":{"id":1,"name":"Betty"},"developer":true,"email":"test@example.com","id":1,"locale":null,"name":"Admin Blocks","password":"test","readMetadata":false,"receivesNotifications":true,"updatedAt":"2023-04-26T13:06:49+02:00"},"id":1,"name":"fdsfsfd","updatedAt":"2023-04-26T13:20:57+02:00"}"#;
    let property_map = vec![prop("BELONGS_TO", "information", Some(value))];

    let fragment = parse_to_gql_fragment("Task", &property_map);

    let expected = "fragment taskFields on Task {\n  id\n  information {\n    createdAt\n    createdBy {\n      active\n      casToken\n      createdAt\n      department {\n        id\n        name\n      }\n      developer\n      email\n      id\n      locale\n      name\n      password\n      readMetadata\n      receivesNotifications\n      updatedAt\n    }\n    id\n    name\n    updatedAt\n  }\n}";
    assert_eq!(normalize(&fragment.gql), normalize(expected));
    assert_eq!(fragment.name, "taskFields".to_string());
}

#[test]
fn returns_task_fragment_with_nested_relations_array() {
    let value = r#"{"createdAt":"2023-04-26T13:12:08+02:00","createdBy":{"active":true,"casToken":"c530c3f4079a09f7804259002307b5e50c656d52","createdAt":"2023-02-08T16:48:14+01:00","department":{"id":1,"name":"Betty"},"developer":true,"email":"test@example.com","id":1,"locale":null,"name":"Admin Blocks","password":"test","readMetadata":false,"receivesNotifications":true,"roles":[{"id":1,"name":"Admin"},{"id":2,"name":"Developer"}],"updatedAt":"2023-04-26T13:06:49+02:00"},"id":1,"name":"fdsfsfd","updatedAt":"2023-04-26T13:20:57+02:00"}"#;
    let property_map = vec![prop("BELONGS_TO", "information", Some(value))];

    let fragment = parse_to_gql_fragment("Task", &property_map);

    let expected = "\nfragment taskFields on Task {\n  id\n  information {\n    createdAt\n    createdBy {\n      active\n      casToken\n      createdAt\n      department {\n        id\n        name\n      }\n      developer\n      email\n      id\n      locale\n      name\n      password\n      readMetadata\n      receivesNotifications\n      roles {\n        id\n        name\n      }\n      updatedAt\n    }\n    id\n    name\n    updatedAt\n  }\n}";
    assert_eq!(normalize(&fragment.gql), normalize(expected));
    assert_eq!(fragment.name, "taskFields".to_string());
}

#[test]
fn returns_task_fragment_belongs_to_by_id() {
    let property_map = vec![prop("BELONGS_TO", "model", Some("1"))];

    let fragment = parse_to_gql_fragment("Task", &property_map);

    assert_eq!(
        normalize(&fragment.gql),
        normalize("\nfragment taskFields on Task {\n    id\n    model {\n        id\n    }\n}")
    );
    assert_eq!(fragment.name, "taskFields".to_string());
}

#[test]
fn returns_task_fragment_has_many_by_id() {
    let property_map = vec![prop("HAS_MANY", "users", None)];

    let fragment = parse_to_gql_fragment("Task", &property_map);

    assert_eq!(
        normalize(&fragment.gql),
        normalize("\nfragment taskFields on Task {\n    id\n    users {\n        id\n    }\n}")
    );
    assert_eq!(fragment.name, "taskFields".to_string());
}

#[test]
fn returns_empty_when_model_missing() {
    let property_map = vec![prop("STRING", "name", None)];

    let fragment = parse_to_gql_fragment("", &property_map);

    assert_eq!(
        fragment,
        GraphQL { name: "".to_string(), gql: "".to_string() }
    );
}

#[test]
fn empty_model_is_sentinel_even_for_a_multi_key_mapping() {
    let property_map = vec![PropertyMap {
        key: vec![
            PropertyKey {
                kind: "STRING".to_string(),
                name: "a".to_string(),
                object_fields: None,
            },
            PropertyKey {
                kind: "STRING".to_string(),
                name: "b".to_string(),
                object_fields: None,
            },
        ],
        value: None,
    }];

    let fragment = compile_fragment("", &property_map).unwrap();
    assert_eq!(
        fragment,
        GraphQL { name: "".to_string(), gql: "".to_string() }
    );
}

#[test]
fn multi_key_mapping_is_rejected() {
    let property_map = vec![PropertyMap {
        key: vec![
            PropertyKey {
                kind: "STRING".to_string(),
                name: "a".to_string(),
                object_fields: None,
            },
            PropertyKey {
                kind: "STRING".to_string(),
                name: "b".to_string(),
                object_fields: None,
            },
        ],
        value: None,
    }];

    let err = compile_fragment("Task", &property_map).unwrap_err();
    assert_eq!(
        err,
        "unsupported nested assignment: a property supplies more than one key"
    );
}

#[test]
fn habtm_without_collection_value_selects_only_id() {
    let property_map = vec![prop("HAS_AND_BELONGS_TO_MANY", "tags", Some("5"))];

    let fragment = parse_to_gql_fragment("Task", &property_map);

    assert_eq!(
        normalize(&fragment.gql),
        normalize("fragment taskFields on Task { id tags { id } }")
    );
}

#[test]
fn unknown_kind_is_treated_as_scalar() {
    let property_map = vec![prop("SOMETHING_ELSE", "custom", Some("{\"id\":1}"))];

    let fragment = parse_to_gql_fragment("Task", &property_map);

    assert_eq!(
        normalize(&fragment.gql),
        normalize("fragment taskFields on Task { id custom }")
    );
}

#[test]
fn upper_case_model_keeps_on_clause_and_lowers_fragment_name() {
    let property_map = vec![prop("STRING", "name", None)];

    let fragment = parse_to_gql_fragment("TASK", &property_map);

    assert_eq!(fragment.name, "taskFields".to_string());
    assert_eq!(
        normalize(&fragment.gql),
        normalize("fragment taskFields on TASK { id name }")
    );
}

#[test]
fn empty_array_value_falls_back_to_id_selection() {
    let property_map = vec![prop("HAS_MANY", "users", Some("[]"))];

    let fragment = parse_to_gql_fragment("Task", &property_map);

    assert_eq!(
        normalize(&fragment.gql),
        normalize("fragment taskFields on Task { id users { id } }")
    );
}
