use gql_crud::json::JsonVal;
use gql_crud::logging::{inner_log, LogLevel};
use gql_crud::provider::{str_contains, GraphqlProvider, SmtpProvider};
use gql_crud::secrets::secret_from_json;
use gql_crud::ser::json_text;
use gql_crud::text::{ascii_lowercase, capitalize_first_letter};
use gql_crud::web::{classify_route, parse_action_input, response_parts, HandlerError, Route};

#[test]
fn json_text_renders_every_shape_compactly() {
    let v = JsonVal::Obj(vec![
        ("a".to_string(), JsonVal::Null),
        ("b".to_string(), JsonVal::Bool(true)),
        ("c".to_string(), JsonVal::Num("1.5".to_string())),
        (
            "d".to_string(),
            JsonVal::Arr(vec![JsonVal::Bool(false), JsonVal::Str("x".to_string())]),
        ),
    ]);

    assert_eq!(json_text(&v), r#"{"a":null,"b":true,"c":1.5,"d":[false,"x"]}"#);
}

#[test]
fn json_text_escapes_string_content() {
    let v = JsonVal::Str("a\"b\\c\nd\te\u{1}f".to_string());

    assert_eq!(json_text(&v), "\"a\\\"b\\\\c\\nd\\te\\u0001f\"");
}

#[test]
fn capitalize_raises_only_the_first_ascii_letter() {
    assert_eq!(capitalize_first_letter("task".to_string()), "Task".to_string());
    assert_eq!(capitalize_first_letter("Task".to_string()), "Task".to_string());
    assert_eq!(capitalize_first_letter("".to_string()), "".to_string());
    assert_eq!(capitalize_first_letter("1task".to_string()), "1task".to_string());
}

#[test]
fn ascii_lowercase_lowers_only_ascii_letters() {
    assert_eq!(ascii_lowercase("TaSk9"), "task9".to_string());
    assert_eq!(ascii_lowercase(""), "".to_string());
}

#[test]
fn str_contains_finds_inner_needles_only() {
    assert!(str_contains("mutation createTask", "create"));
    assert!(!str_contains("mutation oneTask", "create"));
    assert!(str_contains("anything", ""));
    assert!(!str_contains("ab", "abc"));
}

#[test]
fn mock_provider_answers_by_document_kind() {
    assert_eq!(
        GraphqlProvider::mock_response("mutation { createtest }"),
        r#"{"createtest":{"id":"1"}}"#
    );
    assert_eq!(
        GraphqlProvider::mock_response("mutation { updatetest }"),
        r#"{"updatetest":{"id":"test"}}"#
    );
    assert_eq!(
        GraphqlProvider::mock_response("query { onetest }"),
        r#"{"onetest":{"id":"test"}}"#
    );
}

#[test]
fn provider_names_are_fixed() {
    assert_eq!(GraphqlProvider::name(), "mock-graphql-provider");
    assert_eq!(SmtpProvider::name(), "smtp-provider");
}

#[test]
fn plain_mail_transport_needs_an_explicit_opt_out() {
    assert!(SmtpProvider::use_plain_transport(&Some(false)));
    assert!(!SmtpProvider::use_plain_transport(&Some(true)));
    assert!(!SmtpProvider::use_plain_transport(&None));
}

#[test]
fn attachment_content_type_defaults_to_octet_stream() {
    assert_eq!(
        SmtpProvider::attachment_content_type(Some("image/svg+xml".to_string())),
        "image/svg+xml"
    );
    assert_eq!(
        SmtpProvider::attachment_content_type(None),
        "application/octet-stream"
    );
}

#[test]
fn log_lines_carry_the_severity_label() {
    assert_eq!(inner_log(LogLevel::Trace, "x"), "TRACE x".to_string());
    assert_eq!(inner_log(LogLevel::Debug, "x"), "DEBUG x".to_string());
    assert_eq!(inner_log(LogLevel::Info, "started"), "INFO started".to_string());
    assert_eq!(inner_log(LogLevel::Warn, "x"), "WARN x".to_string());
    assert_eq!(inner_log(LogLevel::Error, "boom"), "ERROR boom".to_string());
    assert_eq!(inner_log(LogLevel::Critical, "boom"), "ERROR boom".to_string());
}

#[test]
fn action_input_is_read_from_the_body() {
    let body = r#"{"action_id":"abc","payload":{"input":"{\"x\":1}"}}"#;

    assert_eq!(
        parse_action_input(body),
        Ok(("abc".to_string(), "{\"x\":1}".to_string()))
    );
}

#[test]
fn malformed_action_input_is_rejected() {
    let expected = Err("invalid input body: expected an action_id and a payload input".to_string());
    assert_eq!(parse_action_input("not json"), expected);
    assert_eq!(parse_action_input(r#"{"payload":{"input":"x"}}"#), expected);
    assert_eq!(parse_action_input(r#"{"action_id":"a","payload":{}}"#), expected);
    assert_eq!(parse_action_input(r#"{"action_id":7,"payload":{"input":"x"}}"#), expected);
}

#[test]
fn handler_failures_map_to_status_codes() {
    assert_eq!(
        response_parts(HandlerError::InvalidInput("bad".to_string())),
        (400, "bad".to_string())
    );
    assert_eq!(
        response_parts(HandlerError::FailedToReadBody("io".to_string())),
        (500, "io".to_string())
    );
    assert_eq!(
        response_parts(HandlerError::ActionCallFailed("no".to_string())),
        (400, "no".to_string())
    );
    assert_eq!(
        response_parts(HandlerError::HealthCheckFailed("down".to_string())),
        (400, "down".to_string())
    );
}

#[test]
fn routes_are_classified_by_method_and_path() {
    assert_eq!(classify_route(false, "/data", &None), Route::EchoQuery);
    assert_eq!(classify_route(true, "/example", &None), Route::ExampleFetch);
    assert_eq!(
        classify_route(true, "/data", &None),
        Route::DataFetch { app_id: "478f55c1abf54460bc3d77d6787b1e82".to_string() }
    );
    assert_eq!(
        classify_route(true, "/data/abc123", &None),
        Route::DataFetch { app_id: "abc123".to_string() }
    );
    assert_eq!(
        classify_route(true, "/data/a/b", &None),
        Route::Redirect { url: "https://example.com".to_string() }
    );
    assert_eq!(
        classify_route(true, "/other", &Some("https://target.example".to_string())),
        Route::Redirect { url: "https://target.example".to_string() }
    );
}

#[test]
fn secret_lookup_finds_present_keys_only() {
    let json = r#"{"secret": "test"}"#;

    assert_eq!(secret_from_json(json, "secret"), Ok(Some("test".to_string())));
    assert_eq!(secret_from_json(json, "not_found"), Ok(None));
}

#[test]
fn secret_payload_of_wrong_shape_is_rejected() {
    let expected = Err("secret payload must be a JSON object of strings".to_string());
    assert_eq!(secret_from_json("[1]", "k"), expected);
    assert_eq!(secret_from_json(r#"{"k":1}"#, "k"), expected);
    assert_eq!(secret_from_json("not json", "k"), expected);
}
