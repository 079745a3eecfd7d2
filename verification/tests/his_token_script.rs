use provider_headers::custom::header_strings_from_json_value;
use provider_headers::header_list::HeaderStrings;
use provider_headers::his_token::{
    keyed_response_headers, string_object_json, str_less,
    build_script_with_input, his_token_header_map, response_body_json, script_response_headers, visible_text, ensure_his_token_script_exists, his_token_script_code, his_token_script_path,
    json_array_of, prepare_script_request, responses_json, script_request_timeout_secs, serialize_script_response,
    status_is_ok, validate_script_request_config, ScriptFileAction, ScriptFileEvent, ScriptHttpResponse,
    ScriptRequestConfig,
};
use provider_headers::json::JsonValue;
use provider_headers::script::{
    his_token_step, HisTokenAction, limit_reached, member_str, ScriptMember, initial_request, next_request_step, request_from_object, extractor_result,
    NextRequestStep, ScriptOutcome, next_request_call, extractor_call, extract_next_script_request, extract_script_headers, extract_script_headers_from_responses,
    extract_script_request, his_token_headers_json, next_his_token_request,
    request_from_next_request_output,
};
use serde_json::Value;

fn json(text: &str) -> Value {
    serde_json::from_str(text).unwrap()
}

fn to_json_value(value: &Value) -> JsonValue {
    match value {
        Value::Null => JsonValue::Null,
        Value::Bool(b) => JsonValue::Bool(*b),
        Value::Number(n) => JsonValue::Number(n.to_string()),
        Value::String(s) => JsonValue::String(s.clone()),
        Value::Array(items) => JsonValue::Array(items.iter().map(to_json_value).collect()),
        Value::Object(fields) => {
            JsonValue::Object(fields.iter().map(|(k, v)| (k.clone(), to_json_value(v))).collect())
        }
    }
}

fn headers_from_extractor_json(text: &str) -> Result<HeaderStrings, String> {
    let value: Value = serde_json::from_str(text)
        .map_err(|e| format!("Failed to parse HIS token extractor output JSON: {e}"))?;
    header_strings_from_json_value("hisToken.extractor", &to_json_value(&value))
}

fn inputs(items: &[(&str, &str)]) -> HeaderStrings {
    let mut headers = HeaderStrings::new();
    for (k, v) in items {
        headers.insert(k.to_string(), v.to_string());
    }
    headers
}

fn response(status: u16, body: &str) -> ScriptHttpResponse {
    ScriptHttpResponse { status, headers: Vec::new(), body: body.to_string() }
}

#[test]
fn his_token_script_can_transform_input_headers() {
    let input_headers = inputs(&[
        ("id", "user-1"),
        ("token", "seed-token"),
        ("x-his-token-url", "https://example.com/his/token"),
    ]);
    let script = r#"({
  request: {
    url: inputHeaders["x-his-token-url"],
    method: "POST",
    body: {
      id: inputHeaders.id,
      token: inputHeaders.token,
    },
  },
  extractor(response, requestHeaders) {
    return {
      "x-his-token": `${requestHeaders.id}:${response.body.token}`,
    };
  },
})"#;

    let request = json(&extract_script_request(script, &input_headers).unwrap());
    assert_eq!(request["url"], "https://example.com/his/token");
    assert_eq!(request["method"], "POST");
    assert_eq!(
        request.get("body").cloned(),
        Some(json(r#"{"id": "user-1", "token": "seed-token"}"#))
    );

    let generated = extract_script_headers(
        script,
        &input_headers,
        response(200, r#"{"token": "dynamic-token"}"#),
    )
    .and_then(|text| headers_from_extractor_json(&text))
    .unwrap();

    assert_eq!(generated.get("x-his-token"), Some("user-1:dynamic-token"));
}

#[test]
fn his_token_script_output_must_be_json_object() {
    let input_headers = HeaderStrings::new();
    let script = r#"({
  request: {
    url: "https://example.com/his/token",
    method: "GET",
  },
  extractor() {
    return ["not-an-object"];
  },
})"#;

    let error = extract_script_headers(script, &input_headers, response(200, "{}"))
        .and_then(|text| headers_from_extractor_json(&text))
        .unwrap_err();

    assert!(error.contains("must be a JSON object"));
}

const CHAIN_SCRIPT: &str = r#"({
  nextRequest(previousResponse, requestHeaders, responses) {
    if (responses.length === 0) {
      return {
        url: requestHeaders.getAccessTokenUrl,
        method: "POST",
        body: {
          app_key: requestHeaders.app_key,
          app_secret: requestHeaders.app_secret,
        },
      };
    }

    if (responses.length === 1) {
      return {
        url: requestHeaders.getDynamicTokenUrl,
        method: "POST",
        headers: {
          AccessToken: previousResponse.body.accessToken,
        },
        body: {
          appid: requestHeaders.appid,
        },
      };
    }

    return null;
  },

  extractor(lastResponse, requestHeaders, responses) {
    return {
      Authorization: `${requestHeaders.appid}:${responses[0].body.accessToken}:${lastResponse.body.dynamicToken}`,
    };
  },
})"#;

fn chain_inputs() -> HeaderStrings {
    inputs(&[
        ("getAccessTokenUrl", "https://example.com/his/access-token"),
        ("getDynamicTokenUrl", "https://example.com/his/dynamic-token"),
        ("app_key", "key-1"),
        ("app_secret", "secret-1"),
        ("appid", "app-1"),
    ])
}

#[test]
fn his_token_script_can_chain_requests() {
    let input_headers = chain_inputs();
    let script = CHAIN_SCRIPT;

    let request_1 = json(
        &extract_next_script_request(script, &input_headers, None, &[])
            .unwrap()
            .expect("first request"),
    );
    assert_eq!(request_1["url"], "https://example.com/his/access-token");
    assert_eq!(
        request_1.get("body").cloned(),
        Some(json(r#"{"app_key": "key-1", "app_secret": "secret-1"}"#))
    );

    let response_1 = response(200, r#"{"accessToken": "access-1"}"#);

    let request_2 = json(
        &extract_next_script_request(
            script,
            &input_headers,
            Some(&response_1),
            std::slice::from_ref(&response_1),
        )
        .unwrap()
        .expect("second request"),
    );
    assert_eq!(request_2["url"], "https://example.com/his/dynamic-token");
    assert_eq!(request_2["headers"]["AccessToken"].as_str(), Some("access-1"));
    assert_eq!(request_2.get("body").cloned(), Some(json(r#"{"appid": "app-1"}"#)));

    let response_1 = response(200, r#"{"accessToken": "access-1"}"#);
    let response_2 = response(200, r#"{"dynamicToken": "dynamic-1"}"#);
    let responses = vec![response_1, response_2];

    let request_3 =
        extract_next_script_request(script, &input_headers, responses.last(), &responses).unwrap();
    assert!(request_3.is_none());

    let generated = extract_script_headers_from_responses(script, &input_headers, &responses)
        .and_then(|text| headers_from_extractor_json(&text))
        .unwrap();
    assert_eq!(generated.get("Authorization"), Some("app-1:access-1:dynamic-1"));
}

#[test]
fn request_json_parses_into_a_request_config() {
    let request = json(
        &extract_next_script_request(CHAIN_SCRIPT, &chain_inputs(), None, &[])
            .unwrap()
            .unwrap(),
    );
    let config = ScriptRequestConfig {
        url: request["url"].as_str().unwrap().to_string(),
        method: request["method"].as_str().unwrap().to_string(),
        headers: Vec::new(),
        body: request.get("body").cloned(),
        timeout_secs: None,
    };
    let config = validate_script_request_config(config).unwrap();
    let prepared = prepare_script_request(config).unwrap();
    assert_eq!(prepared.method, "POST");
    assert_eq!(prepared.url, "https://example.com/his/access-token");
    assert_eq!(prepared.timeout_secs, 10);
}

#[test]
fn chained_requests_are_limited() {
    let responses: Vec<ScriptHttpResponse> = (0..8).map(|_| response(200, "{}")).collect();
    let error = next_his_token_request(CHAIN_SCRIPT, &chain_inputs(), &responses).unwrap_err();
    assert_eq!(error, "HIS token script exceeded the maximum chained request limit (8)");
}

#[test]
fn chained_request_takes_last_response() {
    let responses = vec![response(200, r#"{"accessToken": "access-9"}"#)];
    let request = json(&next_his_token_request(CHAIN_SCRIPT, &chain_inputs(), &responses).unwrap().unwrap());
    assert_eq!(request["headers"]["AccessToken"].as_str(), Some("access-9"));
}

#[test]
fn finished_run_needs_a_response() {
    let error = his_token_headers_json(CHAIN_SCRIPT, &chain_inputs(), &Vec::new()).unwrap_err();
    assert_eq!(error, "HIS token script did not produce any HTTP request");
    let error = extract_script_headers_from_responses(CHAIN_SCRIPT, &chain_inputs(), &[]).unwrap_err();
    assert_eq!(error, "HIS token script did not receive any responses");
}

#[test]
fn script_without_request_or_next_request() {
    let error = extract_script_request("({})", &HeaderStrings::new()).unwrap_err();
    assert!(error.starts_with("Missing request config in HIS token script: "));
}

#[test]
fn script_that_does_not_evaluate() {
    let error = extract_script_request("({", &HeaderStrings::new()).unwrap_err();
    assert!(error.starts_with("Failed to evaluate HIS token script: "));
}

#[test]
fn request_config_is_not_asked_again_after_a_response() {
    let script = r#"({ request: { url: "https://example.com", method: "GET" } })"#;
    let previous = response(200, "{}");
    let next = extract_next_script_request(script, &HeaderStrings::new(), Some(&previous), std::slice::from_ref(&previous))
        .unwrap();
    assert!(next.is_none());
}

#[test]
fn next_request_returning_undefined_ends_the_chain() {
    let script = r#"({ nextRequest() { return undefined; } })"#;
    let next = extract_next_script_request(script, &HeaderStrings::new(), None, &[]).unwrap();
    assert!(next.is_none());
}

#[test]
fn extractor_missing() {
    let script = r#"({ request: { url: "u", method: "GET" } })"#;
    let error = extract_script_headers(script, &HeaderStrings::new(), response(200, "{}")).unwrap_err();
    assert!(error.starts_with("Missing extractor function in HIS token script: "));
}

#[test]
fn extractor_returning_undefined() {
    let script = r#"({ extractor() { return undefined; } })"#;
    let error = extract_script_headers(script, &HeaderStrings::new(), response(200, "{}")).unwrap_err();
    assert_eq!(error, "HIS token extractor must return a JSON object");
}

#[test]
fn extractor_sees_ok_flag_and_status() {
    let script = r#"({ extractor(last) { return { ok: String(last.ok), status: String(last.status) }; } })"#;
    let text = extract_script_headers(script, &HeaderStrings::new(), response(404, "{}")).unwrap();
    let headers = headers_from_extractor_json(&text).unwrap();
    assert_eq!(headers.get("ok"), Some("false"));
    assert_eq!(headers.get("status"), Some("404"));
}

#[test]
fn null_output_means_no_request() {
    assert_eq!(request_from_next_request_output(" null ".to_string()), None);
    assert_eq!(request_from_next_request_output("{}".to_string()), Some("{}".to_string()));
}

#[test]
fn url_must_not_be_blank() {
    let config = ScriptRequestConfig {
        url: "  ".to_string(),
        method: "GET".to_string(),
        headers: Vec::new(),
        body: None,
        timeout_secs: None,
    };
    assert_eq!(
        validate_script_request_config(config).err().unwrap(),
        "HIS token request.url cannot be empty"
    );
}

#[test]
fn unsupported_method_is_refused() {
    let config = ScriptRequestConfig {
        url: "https://example.com".to_string(),
        method: "PO ST".to_string(),
        headers: Vec::new(),
        body: None,
        timeout_secs: None,
    };
    assert_eq!(
        prepare_script_request(config).err().unwrap(),
        "HIS token script contains unsupported HTTP method: PO ST"
    );
}

#[test]
fn request_headers_are_checked_and_trimmed() {
    let config = ScriptRequestConfig {
        url: "https://example.com".to_string(),
        method: "PATCH".to_string(),
        headers: vec![(" AccessToken ".to_string(), "a".to_string())],
        body: None,
        timeout_secs: Some(99),
    };
    let prepared = prepare_script_request(config).unwrap();
    assert_eq!(prepared.headers, vec![("AccessToken".to_string(), "a".to_string())]);
    assert_eq!(prepared.timeout_secs, 30);

    let config = ScriptRequestConfig {
        url: "https://example.com".to_string(),
        method: "GET".to_string(),
        headers: vec![("x-a".to_string(), "bad\n".to_string())],
        body: None,
        timeout_secs: None,
    };
    assert_eq!(
        prepare_script_request(config).err().unwrap(),
        "hisToken.request.headers contains invalid value for header 'x-a': failed to parse header value"
    );
}

#[test]
fn timeouts_are_clamped() {
    assert_eq!(script_request_timeout_secs(None), 10);
    assert_eq!(script_request_timeout_secs(Some(0)), 2);
    assert_eq!(script_request_timeout_secs(Some(2)), 2);
    assert_eq!(script_request_timeout_secs(Some(17)), 17);
    assert_eq!(script_request_timeout_secs(Some(30)), 30);
    assert_eq!(script_request_timeout_secs(Some(u64::MAX)), 30);
}

#[test]
fn ok_statuses() {
    assert!(!status_is_ok(199));
    assert!(status_is_ok(200));
    assert!(status_is_ok(299));
    assert!(!status_is_ok(300));
}

#[test]
fn response_json_fields() {
    let mut r = response(201, r#"{"a": 1}"#);
    r.headers.push(("x-h".to_string(), "v".to_string()));
    let value = json(&serialize_script_response(&r));
    assert_eq!(value, json(r#"{"status": 201, "ok": true, "headers": {"x-h": "v"}, "body": {"a": 1}}"#));
}

#[test]
fn response_json_text_is_compact_and_sorted() {
    let mut r = response(404, r#"{"a": 1}"#);
    r.headers.push(("x-h".to_string(), "v".to_string()));
    assert_eq!(
        serialize_script_response(&r),
        r#"{"body":{"a":1},"headers":{"x-h":"v"},"ok":false,"status":404}"#
    );
    assert_eq!(
        responses_json(&[response(200, "1"), response(7, "null")]),
        r#"[{"body":1,"headers":{},"ok":true,"status":200},{"body":null,"headers":{},"ok":false,"status":7}]"#
    );
}

#[test]
fn json_arrays() {
    assert_eq!(json_array_of(&vec![]), "[]");
    assert_eq!(json_array_of(&vec!["1".to_string()]), "[1]");
    assert_eq!(json_array_of(&vec!["1".to_string(), "{}".to_string()]), "[1,{}]");
}

#[test]
fn script_gets_input_headers_first() {
    let script = build_script_with_input("x", &inputs(&[("b", "2"), ("a", "1\"")]));
    assert_eq!(script, "const inputHeaders = {\"b\":\"2\",\"a\":\"1\\\"\"};\nx");
}

#[test]
fn script_file_steps() {
    assert!(matches!(ensure_his_token_script_exists("/p", ScriptFileEvent::Checked(true)), ScriptFileAction::Ready));
    assert!(matches!(
        ensure_his_token_script_exists("/p", ScriptFileEvent::Checked(false)),
        ScriptFileAction::CreateDefault
    ));
    assert!(matches!(ensure_his_token_script_exists("/p", ScriptFileEvent::Written(Ok(()))), ScriptFileAction::Ready));
    match ensure_his_token_script_exists("/p", ScriptFileEvent::Written(Err("denied".to_string()))) {
        ScriptFileAction::Failed(m) => assert_eq!(m, "Failed to create HIS token script at /p: denied"),
        _ => panic!("expected a failure"),
    }
    assert_eq!(
        his_token_script_code("/p", Err("gone".to_string())).unwrap_err(),
        "Failed to read HIS token script at /p: gone"
    );
    assert_eq!(his_token_script_code("/p", Ok("code".to_string())).unwrap(), "code");
}

#[test]
fn script_path_is_below_config_dir() {
    let path = his_token_script_path("/home/u/.cc-switch");
    assert_eq!(
        std::path::PathBuf::from(path),
        std::path::Path::new("/home/u/.cc-switch").join("scripts/provider-auth/his_token.js")
    );
    assert_eq!(his_token_script_path("/cfg/"), "/cfg/scripts/provider-auth/his_token.js");
    assert_eq!(his_token_script_path(""), "scripts/provider-auth/his_token.js");
}

#[test]
fn response_bodies_that_are_not_json_become_strings() {
    assert_eq!(response_body_json("plain \"text\""), r#""plain \"text\"""#);
    assert_eq!(response_body_json(" [1, 2] "), "[1,2]");
    assert_eq!(
        serialize_script_response(&response(500, "oops")),
        r#"{"body":"oops","headers":{},"ok":false,"status":500}"#
    );
}

#[test]
fn response_headers_are_keyed_by_name() {
    let mut r = response(200, "{}");
    r.headers.push(("x-b".to_string(), "2".to_string()));
    r.headers.push(("x-a".to_string(), "1".to_string()));
    r.headers.push(("set-cookie".to_string(), "a=1".to_string()));
    r.headers.push(("x-b".to_string(), "3".to_string()));
    assert_eq!(
        serialize_script_response(&r),
        r#"{"body":{},"headers":{"set-cookie":"a=1","x-a":"1","x-b":"3"},"ok":true,"status":200}"#
    );
    assert_eq!(
        keyed_response_headers(&r.headers),
        vec![
            ("set-cookie".to_string(), "a=1".to_string()),
            ("x-a".to_string(), "1".to_string()),
            ("x-b".to_string(), "3".to_string()),
        ]
    );
}

#[test]
fn names_in_string_order() {
    assert!(str_less("a", "b"));
    assert!(str_less("a", "ab"));
    assert!(!str_less("ab", "a"));
    assert!(!str_less("a", "a"));
    assert!(str_less("Z", "a"));
    assert!(str_less("z", "\u{e9}"));
}

#[test]
fn run_time_limit() {
    assert!(!limit_reached(29, 30));
    assert!(limit_reached(30, 30));
    assert!(limit_reached(31, 30));
}

#[test]
fn script_functions_by_name() {
    assert_eq!(member_str(&ScriptMember::NextRequest), "nextRequest");
    assert_eq!(member_str(&ScriptMember::Extractor), "extractor");
}

#[test]
fn his_token_sends_the_extractor_headers() {
    let text = extract_script_headers_from_responses(
        CHAIN_SCRIPT,
        &chain_inputs(),
        &[response(200, r#"{"accessToken": "access-1"}"#), response(200, r#"{"dynamicToken": "dynamic-1"}"#)],
    )
    .unwrap();
    let map = his_token_header_map(&to_json_value(&json(&text))).unwrap();
    assert_eq!(map.len(), 1);
    assert_eq!(map.get("authorization").unwrap(), "app-1:access-1:dynamic-1");

    let error = his_token_header_map(&to_json_value(&json(r#"["x"]"#))).unwrap_err();
    assert_eq!(error, "hisToken.extractor must be a JSON object");
    let error = his_token_header_map(&to_json_value(&json(r#"{"x-a": [1]}"#))).unwrap_err();
    assert_eq!(error, "hisToken.extractor header 'x-a' must be a string, number, or boolean");
}

#[test]
fn script_sees_only_text_header_values() {
    assert!(visible_text("a b\t~"));
    assert!(!visible_text("caf\u{e9}"));
    assert!(!visible_text("a\u{7f}"));
    let raw = vec![
        ("x-a".to_string(), "1".to_string()),
        ("x-b".to_string(), "\u{fffd}".to_string()),
        ("x-c".to_string(), "two words".to_string()),
    ];
    assert_eq!(
        script_response_headers(&raw),
        vec![("x-a".to_string(), "1".to_string()), ("x-c".to_string(), "two words".to_string())]
    );
}

#[test]
fn decisions_on_what_the_script_gave() {
    assert_eq!(initial_request(Ok(Some("{}".to_string()))), Ok("{}".to_string()));
    assert_eq!(
        initial_request(Ok(None)),
        Err("HIS token script did not produce an initial request config".to_string())
    );
    assert_eq!(initial_request(Err("e".to_string())), Err("e".to_string()));

    let finished = |step: NextRequestStep| match step {
        NextRequestStep::Finished(r) => Some(r),
        NextRequestStep::ReadRequestObject => None,
    };
    assert_eq!(finished(next_request_step(ScriptOutcome::Failed("f".to_string()), false)), Some(Err("f".to_string())));
    assert_eq!(finished(next_request_step(ScriptOutcome::MemberMissing("m".to_string()), true)), Some(Ok(None)));
    assert_eq!(finished(next_request_step(ScriptOutcome::MemberMissing("m".to_string()), false)), None);
    assert_eq!(finished(next_request_step(ScriptOutcome::Output(None), false)), Some(Ok(None)));
    assert_eq!(finished(next_request_step(ScriptOutcome::Output(Some(" null".to_string())), false)), Some(Ok(None)));
    assert_eq!(
        finished(next_request_step(ScriptOutcome::Output(Some("{\"url\":\"u\"}".to_string())), true)),
        Some(Ok(Some("{\"url\":\"u\"}".to_string())))
    );

    assert_eq!(
        request_from_object(ScriptOutcome::MemberMissing("gone".to_string())),
        Err("Missing request config in HIS token script: gone".to_string())
    );
    assert_eq!(
        request_from_object(ScriptOutcome::Output(None)),
        Err("HIS token request config serialization returned None".to_string())
    );
    assert_eq!(request_from_object(ScriptOutcome::Output(Some("{}".to_string()))), Ok(Some("{}".to_string())));
    assert_eq!(
        extractor_result(ScriptOutcome::MemberMissing("gone".to_string())),
        Err("Missing extractor function in HIS token script: gone".to_string())
    );
    assert_eq!(
        extractor_result(ScriptOutcome::Output(None)),
        Err("HIS token extractor must return a JSON object".to_string())
    );
    assert_eq!(extractor_result(ScriptOutcome::Output(Some("{}".to_string()))), Ok("{}".to_string()));
}

#[test]
fn calls_handed_to_the_script() {
    let first = response(200, r#"{"n": 1}"#);
    let last = response(201, "x");
    let responses = vec![first, last];
    let call = next_request_call("s", &inputs(&[("a", "1")]), responses.last(), &responses);
    assert!(matches!(call.member, ScriptMember::NextRequest));
    assert_eq!(call.script, "const inputHeaders = {\"a\":\"1\"};\ns");
    assert_eq!(call.first, r#"{"body":"x","headers":{},"ok":true,"status":201}"#);
    assert_eq!(call.second, r#"{"a":"1"}"#);
    assert_eq!(
        call.third,
        r#"[{"body":{"n":1},"headers":{},"ok":true,"status":200},{"body":"x","headers":{},"ok":true,"status":201}]"#
    );
    let call = next_request_call("s", &HeaderStrings::new(), None, &[]);
    assert_eq!(call.first, "null");
    assert_eq!(call.third, "[]");

    assert!(extractor_call("s", &HeaderStrings::new(), &[]).is_none());
    let call = extractor_call("s", &HeaderStrings::new(), &responses).unwrap();
    assert!(matches!(call.member, ScriptMember::Extractor));
    assert_eq!(call.first, r#"{"body":"x","headers":{},"ok":true,"status":201}"#);
}

#[test]
fn strings_are_escaped_as_serde_json_does() {
    let pairs = vec![("a\"\\\n\t\u{1}\u{1f}\u{8}\u{c}\r\u{e9}/".to_string(), "x".to_string())];
    let text = string_object_json(&pairs);
    assert_eq!(text, "{\"a\\\"\\\\\\n\\t\\u0001\\u001f\\b\\f\\r\u{e9}/\":\"x\"}");
    let key = &pairs[0].0;
    assert_eq!(text, format!("{{{}:\"x\"}}", serde_json::to_string(key).unwrap()));
}

#[test]
fn his_token_steps() {
    let mut responses = Vec::new();
    match his_token_step(CHAIN_SCRIPT, &chain_inputs(), &responses).unwrap() {
        HisTokenAction::Send(request) => {
            assert_eq!(json(&request)["url"], "https://example.com/his/access-token")
        }
        HisTokenAction::Finish(_) => panic!("expected a request"),
    }
    responses.push(response(200, r#"{"accessToken": "access-1"}"#));
    responses.push(response(200, r#"{"dynamicToken": "dynamic-1"}"#));
    match his_token_step(CHAIN_SCRIPT, &chain_inputs(), &responses).unwrap() {
        HisTokenAction::Finish(headers) => {
            assert_eq!(json(&headers), json(r#"{"Authorization": "app-1:access-1:dynamic-1"}"#))
        }
        HisTokenAction::Send(_) => panic!("expected the end of the run"),
    }
    let error = his_token_step("({ nextRequest() { return null; } })", &HeaderStrings::new(), &Vec::new())
        .err()
        .unwrap();
    assert_eq!(error, "HIS token script did not produce any HTTP request");
    let full: Vec<ScriptHttpResponse> = (0..8).map(|_| response(200, "{}")).collect();
    let error = his_token_step(CHAIN_SCRIPT, &chain_inputs(), &full).err().unwrap();
    assert_eq!(error, "HIS token script exceeded the maximum chained request limit (8)");
}
