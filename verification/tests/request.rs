use primitives::json::{Json, Member};
use primitives::headers::Header;
use primitives::request::{
    extract_url, resolve_body, resolve_headers, resolve_method, to_request, Method, MissingTarget,
    RequestSpec,
};

fn text(s: &str) -> Json {
    Json::Text(s.to_string())
}

fn object(members: Vec<(&str, Json)>) -> Json {
    Json::Object(
        members
            .into_iter()
            .map(|(name, value)| Member { name: name.to_string(), value })
            .collect(),
    )
}

#[test]
fn url_is_used_verbatim() {
    let payload = object(vec![("url", text("https://example.com/a/"))]);
    assert_eq!(extract_url(&payload, None), Some("https://example.com/a/".to_string()));
    assert_eq!(
        extract_url(&payload, Some("http://base/")),
        Some("https://example.com/a/".to_string())
    );
}

#[test]
fn url_wins_over_path() {
    let payload = object(vec![("path", text("/foo")), ("url", text("http://y"))]);
    assert_eq!(extract_url(&payload, Some("http://x")), Some("http://y".to_string()));
}

#[test]
fn path_joins_base_whatever_its_trailing_slashes() {
    let payload = object(vec![("path", text("/foo"))]);
    for base in ["http://x", "http://x/", "http://x//", "http://x////"] {
        assert_eq!(extract_url(&payload, Some(base)), Some("http://x/foo".to_string()));
    }
}

#[test]
fn path_is_not_normalised() {
    let payload = object(vec![("path", text("foo"))]);
    assert_eq!(extract_url(&payload, Some("http://x/")), Some("http://xfoo".to_string()));
    let payload = object(vec![("path", text("//foo/"))]);
    assert_eq!(extract_url(&payload, Some("http://x")), Some("http://x//foo/".to_string()));
}

#[test]
fn base_of_slashes_only_trims_to_nothing() {
    let payload = object(vec![("path", text("/foo"))]);
    assert_eq!(extract_url(&payload, Some("///")), Some("/foo".to_string()));
    assert_eq!(extract_url(&payload, Some("")), Some("/foo".to_string()));
}

#[test]
fn base_with_non_ascii_text() {
    let payload = object(vec![("path", text("/ü"))]);
    assert_eq!(extract_url(&payload, Some("http://ö/")), Some("http://ö/ü".to_string()));
}

#[test]
fn path_without_base_is_used_verbatim() {
    let payload = object(vec![("path", text("/x")), ("method", text("GET"))]);
    assert_eq!(extract_url(&payload, None), Some("/x".to_string()));
}

#[test]
fn url_that_is_no_string_falls_back_to_path() {
    let payload = object(vec![("url", Json::Number("5".to_string())), ("path", text("/p"))]);
    assert_eq!(extract_url(&payload, Some("http://b")), Some("http://b/p".to_string()));
}

#[test]
fn neither_url_nor_path_gives_nothing() {
    assert_eq!(extract_url(&object(vec![]), Some("http://x")), None);
    assert_eq!(extract_url(&object(vec![("body", text("x"))]), None), None);
    assert_eq!(extract_url(&object(vec![("path", Json::Null)]), Some("http://x")), None);
    assert_eq!(extract_url(&object(vec![("url", Json::Bool(true))]), None), None);
}

#[test]
fn payload_that_is_no_object_has_no_target() {
    assert_eq!(extract_url(&Json::Null, Some("http://x")), None);
    assert_eq!(extract_url(&text("http://x"), None), None);
    assert_eq!(extract_url(&Json::Array(vec![text("url")]), None), None);
    assert_eq!(to_request(&Json::Null, None), Err(MissingTarget));
}

#[test]
fn first_member_of_a_name_counts() {
    let payload = object(vec![("url", text("http://first")), ("url", text("http://second"))]);
    assert_eq!(extract_url(&payload, None), Some("http://first".to_string()));
}

#[test]
fn method_defaults_to_post() {
    assert_eq!(resolve_method(&object(vec![("url", text("u"))])), Method::Post);
    assert_eq!(resolve_method(&Json::Null), Method::Post);
}

#[test]
fn method_lower_case_get() {
    assert_eq!(resolve_method(&object(vec![("method", text("get"))])), Method::Get);
}

#[test]
fn method_names_in_any_case() {
    let cases = [
        ("GET", Method::Get),
        ("Get", Method::Get),
        ("post", Method::Post),
        ("POST", Method::Post),
        ("put", Method::Put),
        ("pUt", Method::Put),
        ("delete", Method::Delete),
        ("DELETE", Method::Delete),
        ("patch", Method::Patch),
        ("Patch", Method::Patch),
    ];
    for (name, method) in cases {
        assert_eq!(Method::from_name(name), method);
        assert_eq!(resolve_method(&object(vec![("method", text(name))])), method);
    }
}

#[test]
fn unknown_methods_mean_post() {
    for name in ["", "HEAD", "OPTIONS", "GETS", " GET", "GE", "pätch", "TRACE"] {
        assert_eq!(Method::from_name(name), Method::Post);
    }
    let payload = object(vec![("method", Json::Number("1".to_string()))]);
    assert_eq!(resolve_method(&payload), Method::Post);
    assert_eq!(resolve_method(&object(vec![("method", Json::Null)])), Method::Post);
}

#[test]
fn method_agrees_with_unicode_upper_case() {
    for name in ["po\u{17f}t", "PO\u{fb05}", "delete", "ge\u{1e97}", "\u{131}"] {
        let expected = match name.to_uppercase().as_str() {
            "GET" => Method::Get,
            "POST" => Method::Post,
            "PUT" => Method::Put,
            "DELETE" => Method::Delete,
            "PATCH" => Method::Patch,
            _ => Method::Post,
        };
        assert_eq!(Method::from_name(name), expected);
    }
}

#[test]
fn method_names_round_trip() {
    for method in [Method::Get, Method::Post, Method::Put, Method::Delete, Method::Patch] {
        assert_eq!(Method::from_name(method.as_str()), method);
    }
    assert_eq!(Method::Delete.as_str(), "DELETE");
    assert_eq!(Method::Patch.as_str(), "PATCH");
}

#[test]
fn headers_of_an_object_of_strings() {
    let payload = object(vec![(
        "headers",
        object(vec![("X-A", text("1")), ("Content-Type", text("text/plain"))]),
    )]);
    assert_eq!(
        resolve_headers(&payload),
        vec![
            Header { name: "X-A".to_string(), value: "1".to_string() },
            Header { name: "Content-Type".to_string(), value: "text/plain".to_string() },
        ]
    );
}

#[test]
fn headers_absent_or_not_an_object_are_empty() {
    assert_eq!(resolve_headers(&object(vec![])), vec![]);
    assert_eq!(resolve_headers(&object(vec![("headers", Json::Null)])), vec![]);
    assert_eq!(resolve_headers(&object(vec![("headers", text("X-A: 1"))])), vec![]);
    assert_eq!(resolve_headers(&object(vec![("headers", Json::Array(vec![]))])), vec![]);
    assert_eq!(resolve_headers(&object(vec![("headers", object(vec![]))])), vec![]);
}

#[test]
fn headers_with_a_value_that_is_no_string_are_empty() {
    let payload = object(vec![(
        "headers",
        object(vec![("X-A", text("1")), ("X-B", Json::Number("2".to_string()))]),
    )]);
    assert_eq!(resolve_headers(&payload), vec![]);
}

#[test]
fn body_field_is_the_body() {
    let payload = object(vec![
        ("url", text("u")),
        ("body", object(vec![("a", Json::Number("1".to_string()))])),
    ]);
    assert_eq!(resolve_body(&payload), object(vec![("a", Json::Number("1".to_string()))]));
}

#[test]
fn body_absent_means_whole_payload() {
    let payload = object(vec![
        ("url", text("u")),
        ("n", Json::Array(vec![Json::Bool(false), Json::Null])),
    ]);
    assert_eq!(resolve_body(&payload), payload);
}

#[test]
fn body_null_means_whole_payload() {
    let payload = object(vec![("url", text("u")), ("body", Json::Null)]);
    assert_eq!(resolve_body(&payload), payload);
}

#[test]
fn body_may_be_any_value_but_null() {
    for body in [Json::Bool(false), text(""), Json::Number("0".to_string()), Json::Array(vec![])] {
        let payload = object(vec![("body", body.clone())]);
        assert_eq!(resolve_body(&payload), body);
    }
}

#[test]
fn to_request_builds_all_parts() {
    let payload = object(vec![
        ("path", text("/hook")),
        ("method", text("put")),
        ("headers", object(vec![("X-Id", text("7"))])),
        ("body", text("hi")),
    ]);
    assert_eq!(
        to_request(&payload, Some("https://api.example.com/")),
        Ok(RequestSpec {
            url: "https://api.example.com/hook".to_string(),
            method: Method::Put,
            headers: vec![Header { name: "X-Id".to_string(), value: "7".to_string() }],
            body: Some(text("hi")),
        })
    );
}

#[test]
fn scenario_get_of_relative_path_without_base() {
    let payload = object(vec![("path", text("/x")), ("method", text("GET"))]);
    let request = to_request(&payload, None).unwrap();
    assert_eq!(request.url, "/x");
    assert_eq!(request.method, Method::Get);
    assert_eq!(request.headers, vec![]);
    assert_eq!(request.body, Some(payload));
}

#[test]
fn scenario_missing_target() {
    let payload = object(vec![("method", text("GET")), ("body", text("x"))]);
    assert_eq!(to_request(&payload, Some("http://x")), Err(MissingTarget));
    assert_eq!(to_request(&payload, None), Err(MissingTarget));
}

#[test]
fn translating_twice_gives_the_same_request() {
    let payload = object(vec![
        ("path", text("/foo")),
        ("method", text("patch")),
        ("headers", object(vec![("A", text("b"))])),
    ]);
    assert_eq!(to_request(&payload, Some("http://x/")), to_request(&payload, Some("http://x/")));
    assert_eq!(to_request(&Json::Null, None), to_request(&Json::Null, None));
}
