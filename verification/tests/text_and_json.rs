use tool_runtime::backend::{ToolApplicationError, ToolExecutionResult, ToolInfrastructureError};
use tool_runtime::error::ToolRuntimeError;
use tool_runtime::json::Json;
use tool_runtime::output::{bound_replay_output, parse_arguments, trim_value};
use tool_runtime::schema::ArgumentSchema;
use tool_runtime::serde_value::{follow_pointer, parse, parse_bytes, print, size, MAX_NESTING};
use tool_runtime::text::{split_lines, strip_prefix, strip_suffix, truncate_utf8};
use tool_runtime::uri::{host_of, join_uri, UriParts};

fn json(text: &str) -> Json {
    parse(text).expect("valid JSON")
}

#[test]
fn truncation_keeps_the_longest_prefix_that_fits() {
    assert_eq!(truncate_utf8("héllo", 2), "h");
    assert_eq!(truncate_utf8("héllo", 3), "hé");
    assert_eq!(truncate_utf8("héllo", 100), "héllo");
    assert_eq!(truncate_utf8("", 0), "");
}

#[test]
fn ends_of_texts_are_taken_off() {
    assert_eq!(strip_prefix("tools/call", "tools/"), Some("call"));
    assert_eq!(strip_prefix("tools", "x"), None);
    assert_eq!(strip_suffix("outMARK", "MARK"), Some("out"));
    assert_eq!(strip_suffix("out", "MARK"), None);
    assert_eq!(split_lines("a\r\nb\n\nc"), vec!["a", "b", "", "c"]);
}

#[test]
fn a_field_that_is_set_is_read_back() {
    let mut value = json(r#"{"b":1}"#);
    value.set("a", Json::text("x"));
    assert_eq!(value.text_at("a"), Some("x"));
    value.set("a", Json::text("y"));
    assert_eq!(print(&value), r#"{"a":"y","b":1}"#);
    assert!(value.take("a").is_some());
    assert!(value.get("a").is_none());
    assert_eq!(print(&value), r#"{"b":1}"#);
}

#[test]
fn values_are_parsed_and_printed_in_order() {
    let text = r#"{"z":[1,-2,3.5,null,true],"a":{"k":"v\n"}}"#;
    let value = json(text);
    assert_eq!(print(&value), r#"{"a":{"k":"v\n"},"z":[1,-2,3.5,null,true]}"#);
    assert_eq!(size(&value), print(&value).len());
    assert_eq!(print(&json(&print(&value))), print(&value));
    assert!(parse("{").is_err());
    assert!(parse_bytes(b"[1]").is_ok());
    assert!(parse_bytes(&[0xff]).is_err());
    assert_eq!(print(&follow_pointer(&value, "/a/k").unwrap()), r#""v\n""#);
    assert!(follow_pointer(&value, "/a/x").is_none());
}

#[test]
fn values_are_read_back_as_deep_as_they_may_be_nested() {
    let nested = |depth: usize| format!("{}{}", "[".repeat(depth), "]".repeat(depth));
    assert_eq!(print(&json(&nested(MAX_NESTING))), nested(MAX_NESTING));
    assert!(parse(&nested(MAX_NESTING + 1)).is_err());
    let largest = "[18446744073709551615,-9223372036854775808]";
    assert_eq!(print(&json(largest)), largest);
}

#[test]
fn output_is_cut_until_it_fits_and_says_so() {
    let long = "x".repeat(500);
    let result = ToolExecutionResult::function(Json::object().having("text", Json::text(&long)));
    let output = result.into_model_output(100).ok().unwrap();
    assert!(size(&output) <= 100);
    assert!(matches!(output.get("truncated"), Some(Json::Bool(true))));
    assert!(matches!(output.get("ok"), Some(Json::Bool(true))));

    let error = ToolApplicationError::execution_error(long, false, String::new(), String::new());
    let output = ToolExecutionResult::ApplicationError(error).into_model_output(200).ok().unwrap();
    assert!(size(&output) <= 200);
    assert!(matches!(output.get("ok"), Some(Json::Bool(false))));

    let whole = ToolExecutionResult::function(json("[1,2]")).into_model_output(100).ok().unwrap();
    assert_eq!(print(&whole), r#"{"ok":true,"result":[1,2]}"#);
    assert!(ToolExecutionResult::function(json("1")).into_model_output(0).is_err());
    assert!(ToolExecutionResult::function(json("1")).into_model_output(5).is_err());
}

#[test]
fn one_cut_takes_from_the_largest_value() {
    let mut value = json(r#"["aaaaaaaa","b"]"#);
    assert!(trim_value(&mut value));
    assert_eq!(print(&value), r#"["aaaaaa","b"]"#);
    let mut numbers = json("[1,2]");
    assert!(trim_value(&mut numbers));
    assert_eq!(print(&numbers), "[1]");
    let mut nothing = json("null");
    assert!(!trim_value(&mut nothing));
    let mut object = json(r#"{"a":1,"b":2}"#);
    assert!(trim_value(&mut object));
    assert_eq!(print(&object), r#"{"b":2}"#);
    assert!(bound_replay_output(json("[]"), 100).is_err());
}

#[test]
fn python_results_have_all_their_fields() {
    let whole = r#"{"exit_code":0,"stdout":"","stderr":"","timed_out":false,"truncated":false,
        "artifacts":[]}"#;
    let output = ToolExecutionResult::python(json(whole)).into_model_output(4096).ok().unwrap();
    assert!(matches!(output.get("ok"), Some(Json::Bool(true))));
    for (text, words) in [
        ("[]", "python result must be a JSON object"),
        (r#"{"x":1}"#, "python result contains unsupported field x"),
        (r#"{"exit_code":0}"#, "python result requires stdout (a string)"),
        (r#"{"exit_code":"0"}"#, "python result exit_code must be an integer"),
    ] {
        let error = ToolExecutionResult::python(json(text)).into_model_output(4096).err().unwrap();
        assert!(error.to_text().contains(words), "{}", error.to_text());
    }
}

#[test]
fn search_results_have_their_fields() {
    for (text, words) in [
        ("[]", "web search result must be a JSON object"),
        ("{}", "web search result requires a results array"),
        (r#"{"results":1}"#, "web search result results must be an array"),
        (
            r#"{"results":[],"truncated":1}"#,
            "web search result truncated must be a boolean",
        ),
        (
            r#"{"results":[],"extra":1}"#,
            "web search result contains unsupported field extra",
        ),
    ] {
        let error =
            ToolExecutionResult::web_search(json(text)).into_model_output(4096).err().unwrap();
        assert!(error.to_text().contains(words), "{}", error.to_text());
    }
}

#[test]
fn arguments_are_bounded_objects() {
    assert_eq!(print(&parse_arguments(br#"{"a":1}"#, 100).ok().unwrap()), r#"{"a":1}"#);
    for (input, words) in [
        (&b"{\"a\":1}"[..], "tool arguments exceed the configured 3 byte limit"),
        (&b"[1]"[..], "tool arguments must be a JSON object"),
        (&b"{"[..], "invalid tool arguments JSON: "),
        (&[0xff][..], "tool arguments must be valid UTF-8 JSON"),
    ] {
        let error = parse_arguments(input, 3).err().unwrap();
        assert!(error.to_text().contains(words), "{}", error.to_text());
    }
}

#[test]
fn failures_are_told_to_clients_without_detail() {
    let (status, body) =
        ToolRuntimeError::infrastructure(ToolInfrastructureError::Timeout).into_openai_response();
    assert_eq!(status, 502);
    assert_eq!(
        print(&body),
        print(&ToolInfrastructureError::Timeout.to_openai_error())
    );
    let (status, _) = ToolRuntimeError::deadline_exceeded().into_openai_response();
    assert_eq!(status, 504);
    let (status, _) = ToolRuntimeError::invalid_request("x").into_openai_response();
    assert_eq!(status, 400);
    let error = ToolInfrastructureError::authentication().to_openai_error();
    assert_eq!(
        error.get("error").unwrap().text_at("code"),
        Some("tool_backend_authentication_failed")
    );
    for (error, message) in [
        (ToolInfrastructureError::backend(), "managed tool backend request failed"),
        (
            ToolInfrastructureError::configuration(),
            "managed tool backend configuration is invalid",
        ),
        (ToolInfrastructureError::internal(), "managed tool runtime failed"),
        (ToolInfrastructureError::timeout(), "managed tool execution timed out"),
    ] {
        assert_eq!(error.public_message(), message);
    }
}

#[test]
fn schemas_are_compiled_and_applied() {
    let schema =
        ArgumentSchema::compile(&json(r#"{"type":"object","required":["q"]}"#)).unwrap();
    assert!(schema.is_valid(&json(r#"{"q":1}"#)));
    assert!(!schema.is_valid(&json("{}")));
    assert!(ArgumentSchema::compile(&json(r#"{"type":"nothing"}"#)).is_none());
    let remote = json(r#"{"$ref":"https://elsewhere.example/s.json"}"#);
    assert!(ArgumentSchema::compile(&remote).is_none());
}

#[test]
fn uris_are_joined_at_their_origin() {
    let base = UriParts {
        scheme: Some("https".to_owned()),
        authority: Some("api.example:8443".to_owned()),
        host: Some("api.example".to_owned()),
        path: "/".to_owned(),
        query: None,
    };
    assert_eq!(
        join_uri(&base, "/sandboxes").ok().as_deref(),
        Some("https://api.example:8443/sandboxes")
    );
    assert_eq!(
        join_uri(&base, "/no spaces").err(),
        Some(ToolInfrastructureError::Configuration)
    );
    let relative = UriParts { scheme: None, ..base };
    assert!(join_uri(&relative, "/x").is_err());
}

#[test]
fn a_pointer_names_fields_and_items() {
    let value = json(r#"{"":1,"a/b":{"~":[10,11,12]},"~1":2,"/":3,"~0":4}"#);
    let at = |pointer: &str| follow_pointer(&value, pointer).map(|found| print(&found));
    assert_eq!(at(""), Some(print(&value)));
    assert_eq!(at("/").as_deref(), Some("1"));
    assert_eq!(at("a"), None);
    assert_eq!(at("/a~1b/~0").as_deref(), Some("[10,11,12]"));
    assert_eq!(at("/a~1b/~0/0").as_deref(), Some("10"));
    assert_eq!(at("/a~1b/~0/2").as_deref(), Some("12"));
    assert_eq!(at("/~01").as_deref(), Some("2"));
    assert_eq!(at("/~1").as_deref(), Some("3"));
    assert_eq!(at("/~00").as_deref(), Some("4"));
    for missing in ["/a~1b/~0/3", "/a~1b/~0/00", "/a~1b/~0/+1", "/a~1b/~0/-", "/a~1b/~0/", "//x"] {
        assert_eq!(at(missing), None, "{missing}");
    }
    assert_eq!(at("/a~1b/~/0").as_deref(), Some("10"));
}

#[test]
fn a_uri_has_a_host_where_it_names_one() {
    assert_eq!(host_of("https://api.sandbox.example:8443/v1").as_deref(), Some("api.sandbox.example"));
    assert_eq!(host_of("/only/a/path"), None);
    assert_eq!(host_of("no uri at all"), None);
}
