use flyweight_http_server::headers::Headers;

fn sample() -> Headers {
    let mut headers = Headers::new();
    headers.insert("Host".to_string(), "localhost".to_string());
    headers.insert("User-Agent".to_string(), "curl".to_string());
    headers.insert("accept".to_string(), "*/*".to_string());
    headers
}

#[test]
fn new_headers_are_empty() {
    let headers = Headers::new();
    assert_eq!(headers.len(), 0);
    assert!(headers.get("Host").is_none());
    assert!(headers.get_ignoring_case("host").is_none());
}

#[test]
fn insert_then_get() {
    let headers = sample();
    assert_eq!(headers.len(), 3);
    assert_eq!(headers.get("Host").unwrap(), "localhost");
    assert_eq!(headers.get("User-Agent").unwrap(), "curl");
    assert_eq!(headers.get("accept").unwrap(), "*/*");
    assert!(headers.get("host").is_none());
    assert!(headers.get("Accept").is_none());
    assert!(headers.get("").is_none());
}

#[test]
fn insert_replaces_and_returns_the_old_value() {
    let mut headers = sample();
    assert_eq!(
        headers.insert("Host".to_string(), "example.org".to_string()),
        Some("localhost".to_string())
    );
    assert_eq!(headers.len(), 3);
    assert_eq!(headers.get("Host").unwrap(), "example.org");
    assert_eq!(headers.get("User-Agent").unwrap(), "curl");
    assert_eq!(headers.insert("New".to_string(), "n".to_string()), None);
    assert_eq!(headers.len(), 4);
}

#[test]
fn names_differing_in_case_are_different_names() {
    let mut headers = Headers::new();
    headers.insert("X-Id".to_string(), "upper".to_string());
    headers.insert("x-id".to_string(), "lower".to_string());
    assert_eq!(headers.len(), 2);
    assert_eq!(headers.get("X-Id").unwrap(), "upper");
    assert_eq!(headers.get("x-id").unwrap(), "lower");
    assert_eq!(headers.get_ignoring_case("X-ID").unwrap(), "upper");
}

#[test]
fn get_ignoring_case_folds_ascii_letters_only() {
    let headers = sample();
    assert_eq!(headers.get_ignoring_case("host").unwrap(), "localhost");
    assert_eq!(headers.get_ignoring_case("HOST").unwrap(), "localhost");
    assert_eq!(headers.get_ignoring_case("user-agent").unwrap(), "curl");
    assert_eq!(headers.get_ignoring_case("ACCEPT").unwrap(), "*/*");
    assert!(headers.get_ignoring_case("user_agent").is_none());
    assert!(headers.get_ignoring_case("hos").is_none());
    let mut odd = Headers::new();
    odd.insert("@[`{".to_string(), "punct".to_string());
    assert!(odd.get_ignoring_case("`{@[").is_none());
    assert!(odd.get_ignoring_case("@[@[").is_none());
    assert_eq!(odd.get_ignoring_case("@[`{").unwrap(), "punct");
}

#[test]
fn duplicate_is_an_equal_copy() {
    let mut headers = sample();
    let copy = headers.duplicate();
    headers.insert("Host".to_string(), "changed".to_string());
    assert_eq!(copy.len(), 3);
    assert_eq!(copy.get("Host").unwrap(), "localhost");
    assert_eq!(copy.get("User-Agent").unwrap(), "curl");
    assert_eq!(copy.get("accept").unwrap(), "*/*");
}
