use webapp_lib::http::{
    base_url, get_http_error, handle_response_error, parse_api_error, plan_api_request, plan_delete,
    plan_get, read_response_body, request_url, serialization_error, set_base_url,
    try_extract_error_message, ApiError, ApiRequest, BaseUrl, HttpMethod, JsErrorInfo,
    ResourcePath,
};

fn s(x: &str) -> String {
    x.to_string()
}

#[test]
fn resource_path_builds_segments_joined_by_slash() {
    let path = ResourcePath::new("lists").id("42").child("permissions");
    assert_eq!(path.build(), "lists/42/permissions");
    assert_eq!(path.to_string(), "lists/42/permissions");
}

#[test]
fn resource_path_single_segment() {
    assert_eq!(ResourcePath::new("users").build(), "users");
}

#[test]
fn resource_path_nested_ids() {
    let path = ResourcePath::new("lists").id("1").child("permissions").id("9");
    assert_eq!(path.build(), "lists/1/permissions/9");
    let cloned = path.clone().child("x");
    assert_eq!(cloned.build(), "lists/1/permissions/9/x");
    assert_eq!(path.build(), "lists/1/permissions/9");
}

#[test]
fn http_method_names() {
    assert_eq!(HttpMethod::GET.name(), "GET");
    assert_eq!(HttpMethod::POST.name(), "POST");
    assert_eq!(HttpMethod::PUT.name(), "PUT");
    assert_eq!(HttpMethod::DELETE.name(), "DELETE");
}

#[test]
fn http_error_reason_phrases() {
    let cases = [
        (400, "Bad Request"),
        (401, "Unauthorized"),
        (403, "Forbidden"),
        (404, "Not Found"),
        (405, "Method Not Allowed"),
        (408, "Request Timeout"),
        (409, "Conflict"),
        (422, "Unprocessable Entity"),
        (429, "Too Many Requests"),
        (500, "Internal Server Error"),
        (502, "Bad Gateway"),
        (503, "Service Unavailable"),
        (504, "Gateway Timeout"),
    ];
    for (code, text) in cases {
        assert_eq!(get_http_error(code), text);
    }
}

#[test]
fn http_error_unknown_codes() {
    assert_eq!(get_http_error(418), "HTTP Error 418");
    assert_eq!(get_http_error(0), "HTTP Error 0");
    assert_eq!(get_http_error(7), "HTTP Error 7");
    assert_eq!(get_http_error(65535), "HTTP Error 65535");
}

#[test]
fn api_error_text_and_unauthorized() {
    let e = ApiError::new(s("Token expired"), 401);
    assert!(e.is_unauthorized());
    assert_eq!(e.to_string(), "[401] Token expired");
    let other = ApiError::new(s("No window"), 0);
    assert!(!other.is_unauthorized());
    assert_eq!(other.to_string(), "[0] No window");
}

#[test]
fn base_url_is_written_once() {
    let mut cell = BaseUrl::new();
    assert_eq!(base_url(&cell), "");
    set_base_url(&mut cell, "https://api.example.com");
    assert_eq!(base_url(&cell), "https://api.example.com");
    set_base_url(&mut cell, "https://other.example.com");
    assert_eq!(base_url(&cell), "https://api.example.com");
}

#[test]
fn request_url_joins_base_and_path() {
    assert_eq!(request_url("https://api.example.com", "lists/42"), "https://api.example.com/lists/42");
    assert_eq!(request_url("", "lists"), "/lists");
}

#[test]
fn get_and_delete_plans_carry_bearer_token() {
    let get = plan_get("http://h", "abc", "lists");
    assert!(matches!(get.method, HttpMethod::GET));
    assert_eq!(get.url, "http://h/lists");
    assert_eq!(
        get.headers,
        vec![(s("Content-Type"), s("application/json")), (s("Authorization"), s("Bearer abc"))]
    );
    let del = plan_delete("http://h", "t", "lists/1");
    assert!(matches!(del.method, HttpMethod::DELETE));
    assert_eq!(del.url, "http://h/lists/1");
    assert_eq!(del.headers[1].1, "Bearer t");
}

#[test]
fn api_request_plan_without_token_has_only_content_type() {
    let payload = 5u32;
    let method = HttpMethod::POST;
    let req = ApiRequest::new(&method, None, "login", &payload);
    let plan = plan_api_request("http://h", &req);
    assert!(matches!(plan.method, HttpMethod::POST));
    assert_eq!(plan.url, "http://h/login");
    assert_eq!(plan.headers, vec![(s("Content-Type"), s("application/json"))]);
    let with_token = ApiRequest::new(&method, Some("tok"), "refresh", &payload);
    assert_eq!(plan_api_request("b", &with_token).headers.len(), 2);
}

#[test]
fn error_message_extraction() {
    assert_eq!(try_extract_error_message(None, None), None);
    assert_eq!(try_extract_error_message(Some(s("")), None), None);
    assert_eq!(try_extract_error_message(Some(s("plain text")), None), Some(s("plain text")));
    let parsed = ApiError::new(s("from json"), 409);
    assert_eq!(
        try_extract_error_message(Some(s("{\"message\":\"from json\",\"status\":409}")), Some(parsed)),
        Some(s("from json"))
    );
}

#[test]
fn response_error_falls_back_to_reason_phrase() {
    let e = handle_response_error(404, Some(s("")), None);
    assert_eq!(e.status, 404);
    assert_eq!(e.message, "Not Found");
    let e = handle_response_error(500, None, None);
    assert_eq!(e.message, "Internal Server Error");
    let e = handle_response_error(400, Some(s("bad field")), None);
    assert_eq!(e.message, "bad field");
    assert_eq!(e.status, 400);
}

#[test]
fn response_body_errors() {
    let r: Result<u32, ApiError> = read_response_body(false, Ok(3));
    let e = r.unwrap_err();
    assert_eq!(e.message, "Response body is not a string");
    assert_eq!(e.status, 0);
    let r: Result<u32, ApiError> = read_response_body(true, Err(s("expected value")));
    assert_eq!(r.unwrap_err().message, "Deserialization error: expected value");
    let r: Result<u32, ApiError> = read_response_body(true, Ok(3));
    assert_eq!(r.unwrap(), 3);
    let e = serialization_error("key must be a string");
    assert_eq!(e.message, "Serialization error: key must be a string");
    assert_eq!(e.status, 0);
}

#[test]
fn script_errors_become_api_errors() {
    let info = JsErrorInfo { as_string: Some(s("oops")), name: None, message: None, debug: s("JsValue") };
    let e = parse_api_error(info, None);
    assert_eq!((e.message.as_str(), e.status), ("oops", 500));

    let info = JsErrorInfo { as_string: Some(s("{}")), name: None, message: None, debug: s("") };
    let e = parse_api_error(info, Some(ApiError::new(s("parsed"), 403)));
    assert_eq!((e.message.as_str(), e.status), ("parsed", 403));

    let info = JsErrorInfo {
        as_string: None,
        name: Some(s("TypeError")),
        message: Some(s("Failed to fetch")),
        debug: s("JsValue(TypeError)"),
    };
    assert_eq!(parse_api_error(info, None).message, "Failed to fetch");

    let info = JsErrorInfo { as_string: None, name: Some(s("AbortError")), message: None, debug: s("d") };
    assert_eq!(parse_api_error(info, None).message, "AbortError");

    let info = JsErrorInfo { as_string: None, name: None, message: None, debug: s("JsValue(Object)") };
    let e = parse_api_error(info, None);
    assert_eq!((e.message.as_str(), e.status), ("JsValue(Object)", 500));
}
