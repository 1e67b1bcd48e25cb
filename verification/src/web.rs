//! The decisions of the HTTP action wrapper: how a request body is read into
//! an action call, and which status code each failure maps to. The socket
//! handling itself lives outside the library.

use crate::json::{obj_entries, obj_get, parsed_json, spec_obj_get, JsonVal, JsonView};
use crate::text::str_eq;
use vstd::prelude::*;

verus! {

/// The failures the wrapper reports, each carrying its message.
#[derive(Debug, PartialEq, Eq)]
pub enum HandlerError {
    InvalidInput(String),
    FailedToReadBody(String),
    ActionCallFailed(String),
    HealthCheckFailed(String),
}

/// The status code and body of a failure response: a body that could not be
/// read is a server error, everything else is reported as a bad request.
pub fn response_parts(e: HandlerError) -> (r: (u16, String))
    ensures
        e matches HandlerError::InvalidInput(m) ==> r.0 == 400 && r.1@ == m@,
        e matches HandlerError::FailedToReadBody(m) ==> r.0 == 500 && r.1@ == m@,
        e matches HandlerError::ActionCallFailed(m) ==> r.0 == 400 && r.1@ == m@,
        e matches HandlerError::HealthCheckFailed(m) ==> r.0 == 400 && r.1@ == m@,
{
    match e {
        HandlerError::InvalidInput(m) => (400, m),
        HandlerError::FailedToReadBody(m) => (500, m),
        HandlerError::ActionCallFailed(m) => (400, m),
        HandlerError::HealthCheckFailed(m) => (400, m),
    }
}

/// The message returned for a request body that is not the expected action
/// input.
pub open spec fn invalid_input_message() -> Seq<char> {
    "invalid input body: expected an action_id and a payload input"@
}

/// What an action-call body decodes to: the body must be a JSON object with
/// a string `action_id` and an object `payload` holding a string `input`.
pub open spec fn spec_action_input(body: Seq<char>) -> Result<(Seq<char>, Seq<char>), Seq<char>> {
    match parsed_json(body) {
        Option::Some(v) => match spec_obj_get(obj_entries(v), "action_id"@) {
            Option::Some(JsonView::Str(aid)) => match spec_obj_get(obj_entries(v), "payload"@) {
                Option::Some(p) => match spec_obj_get(obj_entries(p), "input"@) {
                    Option::Some(JsonView::Str(inp)) => Result::Ok((aid, inp)),
                    _ => Result::Err(invalid_input_message()),
                },
                _ => Result::Err(invalid_input_message()),
            },
            _ => Result::Err(invalid_input_message()),
        },
        Option::None => Result::Err(invalid_input_message()),
    }
}

fn invalid_input_error() -> (e: String)
    ensures
        e@ == invalid_input_message(),
{
    String::from_str("invalid input body: expected an action_id and a payload input")
}

/// Decodes a request body into the action identifier and the action's input
/// text.
pub fn parse_action_input(body: &str) -> (r: Result<(String, String), String>)
    ensures
        match r {
            Result::Ok(p) => spec_action_input(body@) == Result::Ok::<_, Seq<char>>(
                (p.0@, p.1@),
            ),
            Result::Err(e) => (spec_action_input(body@) matches Result::Err(m) && m == e@),
        },
{
    let parsed = match crate::json::parse_json(body) {
        Option::Some(v) => v,
        Option::None => {
            return Err(invalid_input_error());
        },
    };
    match &parsed {
        JsonVal::Obj(entries) => {
            let aid = match obj_get(entries, &String::from_str("action_id")) {
                Option::Some(JsonVal::Str(aid)) => aid.clone(),
                _ => {
                    return Err(invalid_input_error());
                },
            };
            match obj_get(entries, &String::from_str("payload")) {
                Option::Some(JsonVal::Obj(pes)) => {
                    match obj_get(pes, &String::from_str("input")) {
                        Option::Some(JsonVal::Str(inp)) => Ok((aid, inp.clone())),
                        _ => Err(invalid_input_error()),
                    }
                },
                _ => Err(invalid_input_error()),
            }
        },
        _ => Err(invalid_input_error()),
    }
}

/// Where the test fetcher sends a request: a record fetch for the
/// application the path names, a fixed example page, a caller-chosen
/// redirect target, or an echo of the raw query for anything else.
#[derive(Debug, PartialEq, Eq)]
pub enum Route {
    DataFetch { app_id: String },
    ExampleFetch,
    Redirect { url: String },
    EchoQuery,
}

/// The application identifier a data path carries: the path must begin with
/// the data prefix and the remainder must be one non-empty segment.
pub open spec fn spec_data_app_id(path: Seq<char>) -> Option<Seq<char>> {
    if path.len() > 6 && path.take(6) == "/data/"@ && (forall|i: int|
        6 <= i < path.len() ==> path[i] != '/') {
        Option::Some(path.skip(6))
    } else {
        Option::None
    }
}

fn data_app_id(path: &str) -> (r: Option<String>)
    ensures
        match r {
            Option::Some(s) => spec_data_app_id(path@) == Option::Some(s@),
            Option::None => spec_data_app_id(path@) is None,
        },
{
    proof {
        reveal_strlit("/data/");
    }
    let n = path.unicode_len();
    if n <= 6 {
        return None;
    }
    let pre = "/data/";
    let mut i: usize = 0;
    while i < 6
        invariant
            n == path@.len(),
            n > 6,
            i <= 6,
            pre@ == "/data/"@,
            forall|k: int| 0 <= k < i ==> path@[k] == "/data/"@[k],
        decreases 6 - i,
    {
        proof {
            reveal_strlit("/data/");
        }
        if path.get_char(i) != pre.get_char(i) {
            proof {
                assert(path@.take(6)[i as int] != "/data/"@[i as int]);
            }
            return None;
        }
        i = i + 1;
    }
    let mut j: usize = 6;
    while j < n
        invariant
            n == path@.len(),
            6 <= j <= n,
            forall|k: int| 6 <= k < j ==> path@[k] != '/',
        decreases n - j,
    {
        if path.get_char(j) == '/' {
            return None;
        }
        j = j + 1;
    }
    proof {
        assert(path@.take(6) =~= "/data/"@);
    }
    let seg = path.substring_char(6, n);
    proof {
        assert(seg@ =~= path@.skip(6));
    }
    Some(seg.to_owned())
}

/// The redirect target: the caller's `redirect` query value, or the example
/// page when none was given.
pub open spec fn spec_redirect_target(redirect_param: Option<String>) -> Seq<char> {
    match redirect_param {
        Option::Some(u) => u@,
        Option::None => "https://example.com"@,
    }
}

/// Classifies a request: only reads serve routes; the example path and the
/// data paths are fixed, a data path without an application segment falls
/// back to a fixed identifier, and any other read is a redirect to the
/// caller-chosen target.
pub fn classify_route(is_get: bool, path: &str, redirect_param: &Option<String>) -> (r: Route)
    ensures
        !is_get ==> r is EchoQuery,
        is_get && path@ == "/example"@ ==> r is ExampleFetch,
        is_get && path@ == "/data"@ ==> (r matches Route::DataFetch { app_id } && app_id@
            == "478f55c1abf54460bc3d77d6787b1e82"@),
        is_get && spec_data_app_id(path@) is Some ==> (r matches Route::DataFetch { app_id }
            && app_id@ == spec_data_app_id(path@)->Some_0),
        is_get && path@ != "/example"@ && path@ != "/data"@ && spec_data_app_id(path@) is None ==> (
        r matches Route::Redirect { url } && url@ == spec_redirect_target(*redirect_param)),
{
    if !is_get {
        return Route::EchoQuery;
    }
    proof {
        reveal_strlit("/example");
        reveal_strlit("/data");
        reveal_strlit("/data/");
    }
    if str_eq(path, "/example") {
        proof {
            assert(path@.len() == 8);
            assert(path@.take(6)[1] == 'e' && "/data/"@[1] == 'd');
            assert(spec_data_app_id(path@) is None);
        }
        return Route::ExampleFetch;
    }
    if str_eq(path, "/data") {
        proof {
            assert(path@.len() == 5);
            assert(spec_data_app_id(path@) is None);
        }
        return Route::DataFetch { app_id: String::from_str("478f55c1abf54460bc3d77d6787b1e82") };
    }
    match data_app_id(path) {
        Option::Some(app_id) => Route::DataFetch { app_id },
        Option::None => {
            let url = match redirect_param {
                Option::Some(u) => u.clone(),
                Option::None => String::from_str("https://example.com"),
            };
            Route::Redirect { url }
        },
    }
}

} // verus!
