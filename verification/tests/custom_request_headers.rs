use provider_headers::custom::{
    extract_custom_request_header_inputs, extract_custom_request_headers, header_map_from_strings,
    header_strings_from_json_value, insert_string_header, merge_json_headers_into_strings,
    merge_string_headers_into_strings, normalize_header_name, resolve_custom_request_headers,
    validate_header_value, ResolvedHeaders,
};
use provider_headers::header_list::HeaderStrings;
use provider_headers::json::{to_header_value_string, JsonValue};
use provider_headers::provider::{Provider, ProviderMeta, RequestHeadersAuthMode};

fn text(s: &str) -> JsonValue {
    JsonValue::String(s.to_string())
}

fn object(fields: Vec<(&str, JsonValue)>) -> JsonValue {
    JsonValue::Object(fields.into_iter().map(|(k, v)| (k.to_string(), v)).collect())
}

fn pairs(items: &[(&str, &str)]) -> Vec<(String, String)> {
    items.iter().map(|(k, v)| (k.to_string(), v.to_string())).collect()
}

fn create_provider(config: JsonValue, meta: Option<ProviderMeta>) -> Provider {
    Provider { settings_config: config, meta }
}

fn meta_with(request_headers: Vec<(String, String)>) -> ProviderMeta {
    ProviderMeta { request_headers: Some(request_headers), request_headers_auth_mode: None }
}

#[test]
fn extracts_headers_from_provider_meta() {
    let request_headers = pairs(&[("x-test-token", "token")]);
    let provider = create_provider(object(vec![]), Some(meta_with(request_headers)));

    let headers = extract_custom_request_headers(&provider).unwrap();
    assert_eq!(headers.get("x-test-token").unwrap().to_str().unwrap(), "token");
}

#[test]
fn meta_headers_override_legacy_settings_headers() {
    let request_headers = pairs(&[("x-test-token", "from-meta")]);
    let provider = create_provider(
        object(vec![
            ("headers", object(vec![("x-test-token", text("from-settings"))])),
            ("requestHeaders", object(vec![("x-other", text("value"))])),
        ]),
        Some(meta_with(request_headers)),
    );

    let headers = extract_custom_request_headers(&provider).unwrap();
    assert_eq!(headers.get("x-test-token").unwrap().to_str().unwrap(), "from-meta");
    assert_eq!(headers.get("x-other").unwrap().to_str().unwrap(), "value");
}

#[test]
fn rejects_invalid_header_name() {
    let provider = create_provider(
        object(vec![("requestHeaders", object(vec![("bad header", text("value"))]))]),
        None,
    );

    let error = extract_custom_request_headers(&provider).unwrap_err();
    assert!(error.contains("invalid header name"));
}

#[test]
fn header_name_is_trimmed() {
    assert_eq!(normalize_header_name("src", "  X-Token\t").unwrap(), "X-Token");
    assert_eq!(normalize_header_name("src", "\u{3000}a\u{2009}").unwrap(), "a");
}

#[test]
fn empty_header_name_is_refused() {
    assert_eq!(
        normalize_header_name("src", "   ").unwrap_err(),
        "src contains an empty header name"
    );
    assert_eq!(normalize_header_name("src", "").unwrap_err(), "src contains an empty header name");
}

#[test]
fn invalid_header_name_message() {
    assert_eq!(
        normalize_header_name("src", " bad header ").unwrap_err(),
        "src contains invalid header name 'bad header': invalid HTTP header name"
    );
    assert!(normalize_header_name("src", "caf\u{e9}").is_err());
    assert!(normalize_header_name("src", "a:b").is_err());
    assert!(normalize_header_name("src", "!#$%&'*+-.^_`|~09AZaz").is_ok());
}

#[test]
fn overlong_header_name_is_refused() {
    let name = "a".repeat(65535);
    assert!(normalize_header_name("src", &name).is_ok());
    let name = "a".repeat(65536);
    assert!(normalize_header_name("src", &name).is_err());
}

#[test]
fn invalid_header_value_message() {
    assert_eq!(
        validate_header_value("src", "x-a", "line\nbreak").unwrap_err(),
        "src contains invalid value for header 'x-a': failed to parse header value"
    );
    assert!(validate_header_value("src", "x-a", "tab\tand space and caf\u{e9}").is_ok());
    assert!(validate_header_value("src", "x-a", "del\u{7f}").is_err());
}

#[test]
fn json_values_as_header_text() {
    assert_eq!(to_header_value_string(&text("v")), Some("v".to_string()));
    assert_eq!(to_header_value_string(&JsonValue::Number("42".to_string())), Some("42".to_string()));
    assert_eq!(to_header_value_string(&JsonValue::Bool(true)), Some("true".to_string()));
    assert_eq!(to_header_value_string(&JsonValue::Bool(false)), Some("false".to_string()));
    assert_eq!(to_header_value_string(&JsonValue::Null), None);
    assert_eq!(to_header_value_string(&JsonValue::Array(vec![])), None);
    assert_eq!(to_header_value_string(&object(vec![])), None);
}

#[test]
fn json_header_of_wrong_kind_is_refused() {
    let mut out = HeaderStrings::new();
    let err = merge_json_headers_into_strings(&mut out, "src", &object(vec![("x-a", JsonValue::Null)]))
        .unwrap_err();
    assert_eq!(err, "src header 'x-a' must be a string, number, or boolean");
}

#[test]
fn json_source_must_be_object() {
    let err = header_strings_from_json_value("hisToken.extractor", &JsonValue::Array(vec![text("x")]))
        .unwrap_err();
    assert_eq!(err, "hisToken.extractor must be a JSON object");
}

#[test]
fn merge_stops_at_first_refused_header() {
    let mut out = HeaderStrings::new();
    let err = merge_string_headers_into_strings(
        &mut out,
        "src",
        &pairs(&[("x-a", "1"), ("bad name", "2"), ("x-c", "3")]),
    )
    .unwrap_err();
    assert!(err.contains("'bad name'"));
    assert_eq!(out.len(), 1);
    assert_eq!(out.get("x-a"), Some("1"));
    assert_eq!(out.get("x-c"), None);
}

#[test]
fn later_header_of_same_name_wins() {
    let mut out = HeaderStrings::new();
    merge_string_headers_into_strings(&mut out, "src", &pairs(&[("x-a", "1"), (" x-a ", "2"), ("x-b", "3")]))
        .unwrap();
    assert_eq!(out.len(), 2);
    assert_eq!(out.get("x-a"), Some("2"));
    assert_eq!(out.entry(0), ("x-a", "2"));
    assert_eq!(out.entry(1), ("x-b", "3"));
}

#[test]
fn insert_string_header_keeps_output_on_error() {
    let mut out = HeaderStrings::new();
    insert_string_header(&mut out, "src", "x-a", "1").unwrap();
    assert!(insert_string_header(&mut out, "src", "x-b", "bad\r").is_err());
    assert_eq!(out.len(), 1);
}

#[test]
fn numbers_and_booleans_become_header_values() {
    let provider = create_provider(
        object(vec![(
            "headers",
            object(vec![("x-n", JsonValue::Number("1.5".to_string())), ("x-b", JsonValue::Bool(true))]),
        )]),
        None,
    );
    let inputs = extract_custom_request_header_inputs(&provider).unwrap();
    assert_eq!(inputs.get("x-n"), Some("1.5"));
    assert_eq!(inputs.get("x-b"), Some("true"));
}

#[test]
fn settings_headers_not_an_object_is_refused() {
    let provider = create_provider(object(vec![("headers", text("x-a: 1"))]), None);
    let err = extract_custom_request_header_inputs(&provider).unwrap_err();
    assert_eq!(err, "settingsConfig.headers must be a JSON object");
}

#[test]
fn request_headers_override_headers_in_settings() {
    let provider = create_provider(
        object(vec![
            ("headers", object(vec![("x-a", text("old"))])),
            ("requestHeaders", object(vec![("x-a", text("new"))])),
        ]),
        None,
    );
    let inputs = extract_custom_request_header_inputs(&provider).unwrap();
    assert_eq!(inputs.get("x-a"), Some("new"));
}

#[test]
fn settings_that_are_no_object_give_no_headers() {
    let provider = create_provider(text("not an object"), None);
    let inputs = extract_custom_request_header_inputs(&provider).unwrap();
    assert_eq!(inputs.len(), 0);
}

#[test]
fn header_map_names_are_lower_case() {
    let mut values = HeaderStrings::new();
    values.insert("X-Token".to_string(), "a".to_string());
    values.insert("x-token".to_string(), "b".to_string());
    let map = header_map_from_strings("src", &values).unwrap();
    assert_eq!(map.len(), 1);
    assert_eq!(map.get("x-token").unwrap().to_str().unwrap(), "b");
}

#[test]
fn header_map_refuses_invalid_input() {
    let mut values = HeaderStrings::new();
    values.insert("bad name".to_string(), "a".to_string());
    let err = header_map_from_strings("custom request headers", &values).unwrap_err();
    assert_eq!(
        err,
        "custom request headers contains invalid header name 'bad name': invalid HTTP header name"
    );
}

#[test]
fn resolve_sends_headers_without_auth_mode() {
    let provider = create_provider(object(vec![]), Some(meta_with(pairs(&[("X-A", "1")]))));
    match resolve_custom_request_headers(&provider).unwrap() {
        ResolvedHeaders::Headers(map) => assert_eq!(map.get("x-a").unwrap().to_str().unwrap(), "1"),
        ResolvedHeaders::HisToken(_) => panic!("expected headers"),
    }
}

#[test]
fn resolve_hands_inputs_to_his_token_script() {
    let provider = create_provider(
        object(vec![]),
        Some(ProviderMeta {
            request_headers: Some(pairs(&[("app_key", "k")])),
            request_headers_auth_mode: Some(RequestHeadersAuthMode::HisToken),
        }),
    );
    match resolve_custom_request_headers(&provider).unwrap() {
        ResolvedHeaders::HisToken(inputs) => assert_eq!(inputs.get("app_key"), Some("k")),
        ResolvedHeaders::Headers(_) => panic!("expected script inputs"),
    }
}

#[test]
fn resolve_reports_input_errors_in_any_mode() {
    let provider = create_provider(
        object(vec![]),
        Some(ProviderMeta {
            request_headers: Some(pairs(&[("", "k")])),
            request_headers_auth_mode: Some(RequestHeadersAuthMode::HisToken),
        }),
    );
    assert_eq!(
        resolve_custom_request_headers(&provider).err().unwrap(),
        "meta.requestHeaders contains an empty header name"
    );
}

#[test]
fn normalizing_twice_is_normalizing_once() {
    for raw in ["  X-A  ", "\u{a0}b\u{2028}", "c"] {
        let once = normalize_header_name("src", raw).unwrap();
        assert_eq!(normalize_header_name("src", &once).unwrap(), once);
    }
}

#[test]
fn regathering_gathered_headers_changes_nothing() {
    let provider = create_provider(
        object(vec![
            ("headers", object(vec![(" X-B ", text("1")), ("x-a", text("2"))])),
            ("requestHeaders", object(vec![("x-a", text("3"))])),
        ]),
        Some(meta_with(pairs(&[("Y", "4"), (" X-B", "5")]))),
    );
    let gathered = extract_custom_request_header_inputs(&provider).unwrap();
    let entries: Vec<(String, String)> =
        (0..gathered.len()).map(|i| gathered.entry(i)).map(|(k, v)| (k.to_string(), v.to_string())).collect();
    assert_eq!(
        entries,
        pairs(&[("X-B", "5"), ("x-a", "3"), ("Y", "4")])
    );
    let mut again = HeaderStrings::new();
    merge_string_headers_into_strings(&mut again, "src", &entries).unwrap();
    let again_entries: Vec<(String, String)> =
        (0..again.len()).map(|i| again.entry(i)).map(|(k, v)| (k.to_string(), v.to_string())).collect();
    assert_eq!(again_entries, entries);
}
