use tempo_cli::client::{ClientError, HttpRequest, TempoClient};
use tempo_cli::commands::{get, search, tag_values, tags};
use tempo_cli::time::TimeError;

fn client(user: Option<&str>, password: Option<&str>) -> TempoClient {
    TempoClient::new(
        Some("http://tempo:3200".to_string()),
        user.map(|s| s.to_string()),
        password.map(|s| s.to_string()),
    )
    .ok()
    .unwrap()
}

fn pairs(r: &HttpRequest) -> Vec<(String, String)> {
    r.query.iter().map(|p| (p.name.clone(), p.value.clone())).collect()
}

fn pair(a: &str, b: &str) -> (String, String) {
    (a.to_string(), b.to_string())
}

#[test]
fn client_needs_base_url() {
    match TempoClient::new(None, Some("u".to_string()), Some("p".to_string())) {
        Err(e) => {
            assert!(matches!(e, ClientError::MissingBaseUrl));
            assert_eq!(e.message(), "TEMPO_URL environment variable not set");
        },
        Ok(_) => panic!("a client without base URL"),
    }
}

#[test]
fn get_trace_request() {
    let c = client(None, None);
    let r = c.get_trace("abc123", None, None);
    assert_eq!(r.url, "http://tempo:3200/api/traces/abc123");
    assert!(r.query.is_empty());
    assert!(r.basic_auth.is_none());
    let r = c.get_trace("abc123", Some("10"), Some("20"));
    assert_eq!(pairs(&r), vec![pair("start", "10"), pair("end", "20")]);
}

#[test]
fn search_request() {
    let c = client(Some("alice"), Some("s3cret"));
    let r = c.search("{ status = error }", Some("1"), None, Some(20));
    assert_eq!(r.url, "http://tempo:3200/api/search");
    assert_eq!(pairs(&r), vec![pair("q", "{ status = error }"), pair("start", "1"), pair("limit", "20")]);
    let auth = r.basic_auth.unwrap();
    assert_eq!(auth.user, "alice");
    assert_eq!(auth.password, "s3cret");
}

#[test]
fn credentials_need_user_and_password() {
    assert!(client(Some("alice"), None).tags(None, None).basic_auth.is_none());
    assert!(client(None, Some("pw")).tags(None, None).basic_auth.is_none());
    assert!(client(Some("alice"), Some("pw")).tags(None, None).basic_auth.is_some());
}

#[test]
fn tags_and_tag_values_requests() {
    let c = client(None, None);
    let r = c.tags(None, Some("5"));
    assert_eq!(r.url, "http://tempo:3200/api/v2/search/tags");
    assert_eq!(pairs(&r), vec![pair("end", "5")]);
    let r = c.tag_values("service.name", None, None);
    assert_eq!(r.url, "http://tempo:3200/api/v2/search/tag/service.name/values");
}

#[test]
fn command_requests_resolve_times() {
    let c = client(None, None);
    let r = get::request(&c, "t1", Some("2024-01-01T00:00:00Z"), Some("1704070800")).ok().unwrap();
    assert_eq!(pairs(&r), vec![pair("start", "1704067200"), pair("end", "1704070800")]);
    let r = search::request(&c, "{}", None, None, Some(5)).ok().unwrap();
    assert_eq!(pairs(&r), vec![pair("q", "{}"), pair("limit", "5")]);
    let r = tags::request(&c, None, None).ok().unwrap();
    assert!(r.query.is_empty());
    let r = tag_values::request(&c, "k", Some("7"), None).ok().unwrap();
    assert_eq!(pairs(&r), vec![pair("start", "7")]);
}

#[test]
fn command_requests_refuse_bad_times() {
    let c = client(None, None);
    match get::request(&c, "t1", Some("soon"), None) {
        Err(TimeError::InvalidFormat { input }) => assert_eq!(input, "soon"),
        _ => panic!("expected a refusal"),
    }
    assert!(search::request(&c, "{}", None, Some("later"), None).is_err());
    assert!(tags::request(&c, Some("x"), None).is_err());
    assert!(tag_values::request(&c, "k", None, Some("y")).is_err());
}
