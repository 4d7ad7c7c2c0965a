use std::time::Duration;
use taskcluster::{
    classify, compose_request_url, decide, final_result, form_encode_into, is_valid_segment,
    path_leaves_host, query_string_into, sign_request, signing_context, urlencode, Action, Client,
    Credentials, Error, JoinedUrl, Outcome, RetryLoop, MAX_ELAPSED_MS,
};

fn url_of(client: &Client, method: &str, path: &str, query: Option<Vec<(&str, &str)>>) -> String {
    let req = client.build_request(method, path, query, None).unwrap();
    String::from_utf8(req.url).unwrap()
}

fn validates(auth: &str, creds: &Credentials, method: &str, host: &str, port: u16, path: &str, hash: Option<&[u8]>) -> bool {
    assert!(auth.starts_with("Hawk "));
    let header: hawk::Header = auth[5..].parse().unwrap();
    let key = hawk::Key::new(&creds.access_token, hawk::SHA256).unwrap();
    let req = hawk::RequestBuilder::new(method, host, port, path).hash(hash).request();
    req.validate_header(&header, &key, Duration::from_secs(60))
}

#[test]
fn test_simple_request() {
    let client = Client::new("http://127.0.0.1:8080", "queue", "v1", None).unwrap();
    let req = client.build_request("GET", "ping", None, None).unwrap();
    assert_eq!(req.method, "GET");
    assert_eq!(String::from_utf8(req.url).unwrap(), "http://127.0.0.1:8080/api/queue/v1/ping");
    assert!(req.authorization.is_none());
    assert!(req.body.is_none());
}

#[test]
fn test_simple_request_with_perm_creds() {
    let creds = Credentials::new("clientId", "accessToken");
    let client = Client::new("http://127.0.0.1:8080", "queue", "v1", Some(creds.clone())).unwrap();
    let req = client.build_request("GET", "ping", None, None).unwrap();
    let auth = req.authorization.unwrap();
    assert!(auth.contains("id=\"clientId\""));
    assert!(validates(&auth, &creds, "GET", "127.0.0.1", 8080, "/api/queue/v1/ping", None));
}

#[test]
fn test_query() {
    let client = Client::new("http://127.0.0.1:8080", "queue", "v1", None).unwrap();
    let url = url_of(&client, "GET", "test", Some(vec![("taskcluster", "test"), ("client", "rust")]));
    assert_eq!(url, "http://127.0.0.1:8080/api/queue/v1/test?taskcluster=test&client=rust");
    let parsed = reqwest::Url::parse(&url).unwrap();
    let pairs: Vec<(String, String)> = parsed.query_pairs().map(|(k, v)| (k.into_owned(), v.into_owned())).collect();
    assert_eq!(pairs, vec![("taskcluster".to_string(), "test".to_string()), ("client".to_string(), "rust".to_string())]);
}

#[test]
fn test_body() {
    let mut body = serde_json::Map::new();
    body.insert("hello".to_string(), serde_json::Value::String("world".to_string()));
    let body = serde_json::Value::Object(body);
    let bytes = serde_json::to_vec(&body).unwrap();
    let client = Client::new("http://127.0.0.1:8080", "queue", "v1", None).unwrap();
    let req = client.build_request("POST", "test", None, Some(bytes)).unwrap();
    assert_eq!(req.method, "POST");
    assert_eq!(String::from_utf8(req.url).unwrap(), "http://127.0.0.1:8080/api/queue/v1/test");
    let back: serde_json::Value = serde_json::from_slice(&req.body.unwrap()).unwrap();
    assert_eq!(back, body);
}

#[test]
fn base_url_ignores_trailing_slash_and_root_path() {
    for root in ["https://tc.example.com", "https://tc.example.com/", "https://tc.example.com/some/path"] {
        let client = Client::new(root, "auth", "v1", None).unwrap();
        assert_eq!(url_of(&client, "GET", "ping", None), "https://tc.example.com/api/auth/v1/ping");
    }
}

#[test]
fn base_url_keeps_explicit_port_and_drops_default() {
    let c = Client::new("http://example.com:80", "queue", "v1", None).unwrap();
    assert_eq!(url_of(&c, "GET", "ping", None), "http://example.com/api/queue/v1/ping");
    let c = Client::new("http://example.com:9000/", "queue", "v1", None).unwrap();
    assert_eq!(url_of(&c, "GET", "ping", None), "http://example.com:9000/api/queue/v1/ping");
}

#[test]
fn malformed_root_url() {
    assert_eq!(Client::new("not a url", "queue", "v1", None).err(), Some(Error::MalformedUrl));
    assert_eq!(Client::new("mailto:someone@example.com", "queue", "v1", None).err(), Some(Error::MalformedUrl));
}



#[test]
fn invalid_method() {
    let c = Client::new("http://h", "queue", "v1", None).unwrap();
    assert_eq!(c.build_request("G E T", "ping", None, None).err(), Some(Error::InvalidMethod));
}

#[test]
fn signing_needs_a_known_port() {
    let creds = Credentials::new("id", "key");
    let c = Client::new("foo://host", "queue", "v1", Some(creds)).unwrap();
    assert_eq!(c.build_request("GET", "ping", None, None).err(), Some(Error::SigningError));
    let c = Client::new("foo://host", "queue", "v1", None).unwrap();
    assert!(c.build_request("GET", "ping", None, None).is_ok());
}


#[test]
fn signed_request_fails_validation_when_altered() {
    let creds = Credentials::new("clientId", "accessToken");
    let c = Client::new("https://tc.example.com", "queue", "v1", Some(creds.clone())).unwrap();
    let auth = c.build_request("GET", "task/abc", None, None).unwrap().authorization.unwrap();
    assert!(validates(&auth, &creds, "GET", "tc.example.com", 443, "/api/queue/v1/task/abc", None));
    assert!(!validates(&auth, &creds, "POST", "tc.example.com", 443, "/api/queue/v1/task/abc", None));
    assert!(!validates(&auth, &creds, "GET", "tc.example.com", 443, "/api/queue/v1/task/abd", None));
    assert!(!validates(&auth, &creds, "GET", "other.example.com", 443, "/api/queue/v1/task/abc", None));
    assert!(!validates(&auth, &creds, "GET", "tc.example.com", 8443, "/api/queue/v1/task/abc", None));
    let wrong = Credentials::new("clientId", "otherToken");
    assert!(!validates(&auth, &wrong, "GET", "tc.example.com", 443, "/api/queue/v1/task/abc", None));
}

#[test]
fn signed_body_carries_payload_hash() {
    let creds = Credentials::new("clientId", "accessToken");
    let c = Client::new("http://127.0.0.1:8080", "queue", "v1", Some(creds.clone())).unwrap();
    let body = br#"{"hello":"world"}"#.to_vec();
    let req = c.build_request("POST", "test", None, Some(body.clone())).unwrap();
    assert_eq!(req.content_type.as_deref(), Some("application/json"));
    let auth = req.authorization.unwrap();
    assert!(auth.contains("hash=\""));
    let hash = hawk::PayloadHasher::hash("application/json", hawk::SHA256, &body).unwrap();
    assert!(validates(&auth, &creds, "POST", "127.0.0.1", 8080, "/api/queue/v1/test", Some(&hash)));
    let ctx = signing_context(&Some("h".to_string()), Some(1), "application/json", &Some(body)).unwrap();
    assert_eq!(ctx.payload_hash, Some(hash));
}

#[test]
fn json_body_round_trip() {
    let mut inner = serde_json::Map::new();
    inner.insert("b".to_string(), serde_json::Value::from(vec![1, 2, 3]));
    inner.insert("a".to_string(), serde_json::Value::Null);
    let mut outer = serde_json::Map::new();
    outer.insert("nested".to_string(), serde_json::Value::Object(inner));
    outer.insert("text".to_string(), serde_json::Value::String("é \"q\"".to_string()));
    let value = serde_json::Value::Object(outer);
    let c = Client::new("http://h", "queue", "v1", Some(Credentials::new("i", "k"))).unwrap();
    let req = c.build_request("PUT", "x", None, Some(serde_json::to_vec(&value).unwrap())).unwrap();
    let back: serde_json::Value = serde_json::from_slice(&req.body.unwrap()).unwrap();
    assert_eq!(back, value);
}

#[test]
fn form_encoding_of_special_bytes() {
    let mut out = b"x=".to_vec();
    form_encode_into(&mut out, "a b&c=d/é*-._~".as_bytes());
    assert_eq!(String::from_utf8(out).unwrap(), "x=a+b%26c%3Dd%2F%C3%A9*-._%7E");
}

#[test]
fn query_pairs_round_trip_in_order() {
    let pairs = vec![("k", "v w"), ("k", "x&y=z"), ("", ""), ("ü", "%")];
    let mut out = Vec::new();
    query_string_into(&mut out, &pairs);
    let q = String::from_utf8(out).unwrap();
    assert_eq!(q, "k=v+w&k=x%26y%3Dz&=&%C3%BC=%25");
    let back: Vec<(String, String)> = reqwest::Url::parse(&format!("http://h/?{}", q)).unwrap()
        .query_pairs().map(|(k, v)| (k.into_owned(), v.into_owned())).collect();
    let want: Vec<(String, String)> = pairs.iter().map(|(k, v)| (k.to_string(), v.to_string())).collect();
    assert_eq!(back, want);
}




#[test]
fn classification() {
    assert_eq!(classify(Some(200)), Outcome::Success(200));
    assert_eq!(classify(Some(204)), Outcome::Success(204));
    assert_eq!(classify(Some(404)), Outcome::ClientError(404));
    assert_eq!(classify(Some(302)), Outcome::ClientError(302));
    assert_eq!(classify(Some(500)), Outcome::ServerError(500));
    assert_eq!(classify(Some(503)), Outcome::ServerError(503));
    assert_eq!(classify(None), Outcome::TransportError);
}

#[test]
fn server_error_is_retried_within_budget() {
    assert_eq!(decide(Outcome::ServerError(503), 1000, 5000, Some(500)), Action::Retry(500));
    assert_eq!(decide(Outcome::TransportError, 4500, 5000, Some(500)), Action::Retry(500));
    assert_eq!(decide(Outcome::ServerError(503), 4501, 5000, Some(500)), Action::Finish(Outcome::ServerError(503)));
    assert_eq!(decide(Outcome::ServerError(503), 0, 5000, None), Action::Finish(Outcome::ServerError(503)));
    assert_eq!(decide(Outcome::ServerError(503), u64::MAX, 5000, Some(u64::MAX)), Action::Finish(Outcome::ServerError(503)));
    assert_eq!(final_result(Outcome::ServerError(503)), Err(Error::RetryBudgetExhausted(Some(503))));
    assert_eq!(final_result(Outcome::TransportError), Err(Error::RetryBudgetExhausted(None)));
}

#[test]
fn client_error_is_final_at_once() {
    assert_eq!(decide(Outcome::ClientError(404), 0, 5000, Some(100)), Action::Finish(Outcome::ClientError(404)));
    assert_eq!(final_result(Outcome::ClientError(404)), Err(Error::ClientError(404)));
    let mut r = RetryLoop::new();
    assert_eq!(r.next_action(Some(404), 0), Action::Finish(Outcome::ClientError(404)));
}

#[test]
fn success_is_final_at_once() {
    assert_eq!(decide(Outcome::Success(200), 0, 5000, Some(100)), Action::Finish(Outcome::Success(200)));
    assert_eq!(final_result(Outcome::Success(201)), Ok(201));
    let mut r = RetryLoop::new();
    assert_eq!(r.next_action(Some(200), 0), Action::Finish(Outcome::Success(200)));
}

#[test]
fn retry_loop_respects_budget() {
    let mut r = RetryLoop::new();
    assert_eq!(r.max_elapsed_ms(), MAX_ELAPSED_MS);
    let mut elapsed = 0u64;
    let mut retries = 0;
    loop {
        match r.next_action(Some(503), elapsed) {
            Action::Retry(d) => {
                assert!(elapsed + d <= MAX_ELAPSED_MS);
                elapsed += d;
                retries += 1;
            }
            Action::Finish(o) => {
                assert_eq!(o, Outcome::ServerError(503));
                break;
            }
        }
        assert!(retries < 1000);
    }
    assert!(retries >= 1);
    assert_eq!(r.next_action(Some(503), MAX_ELAPSED_MS + 1), Action::Finish(Outcome::ServerError(503)));
}

#[test]
fn path_segment_encoding() {
    assert_eq!(urlencode("abc-1.2_x~"), b"abc-1.2_x~".to_vec());
    assert_eq!(String::from_utf8(urlencode("a/b c?d#é+")).unwrap(), "a%2Fb%20c%3Fd%23%C3%A9%2B");
    assert_eq!(urlencode(""), Vec::<u8>::new());
    let id = String::from_utf8(urlencode("project/x@y")).unwrap();
    let c = Client::new("http://h", "auth", "v1", None).unwrap();
    assert_eq!(url_of(&c, "GET", &format!("clients/{}", id), None), "http://h/api/auth/v1/clients/project%2Fx%40y");
}

#[test]
fn service_and_version_are_single_segments() {
    assert_eq!(Client::new("http://h", "qu/eue", "v1", None).err(), Some(Error::MalformedPath));
    assert_eq!(Client::new("http://h", "queue", "..", None).err(), Some(Error::MalformedPath));
    assert_eq!(Client::new("http://h", "queue", "v?1", None).err(), Some(Error::MalformedPath));
    assert_eq!(Client::new("http://h", "a#b", "v1", None).err(), Some(Error::MalformedPath));
    assert!(is_valid_segment("v1"));
    assert!(is_valid_segment("a@b"));
    assert!(!is_valid_segment("."));
    assert!(!is_valid_segment("a\\b"));
    let c = Client::new("http://h", "a@b", "v 1", None).unwrap();
    assert_eq!(url_of(&c, "GET", "ping", None), "http://h/api/a@b/v%201/ping");
}

#[test]
fn base_url_keeps_userinfo() {
    let c = Client::new("http://user:pw@h:81/x", "queue", "v1", None).unwrap();
    assert_eq!(url_of(&c, "GET", "ping", None), "http://user:pw@h:81/api/queue/v1/ping");
}

#[test]
fn relative_paths_resolve_as_urls_do() {
    let c = Client::new("http://h", "queue", "v1", None).unwrap();
    assert_eq!(url_of(&c, "GET", "a b/é", None), "http://h/api/queue/v1/a%20b/%C3%A9");
    assert_eq!(url_of(&c, "GET", "../other", None), "http://h/api/queue/other");
    assert_eq!(url_of(&c, "GET", "a/./b", None), "http://h/api/queue/v1/a/b");
    assert_eq!(url_of(&c, "GET", "task?x=1", Some(vec![("y", "2")])), "http://h/api/queue/v1/task?x=1&y=2");
    assert_eq!(url_of(&c, "GET", "task#frag", Some(vec![("y", "2")])), "http://h/api/queue/v1/task?y=2#frag");
}

#[test]
fn paths_that_leave_the_host_are_refused() {
    let c = Client::new("http://h", "queue", "v1", None).unwrap();
    for p in ["http://other/x", "mailto:x", "\\\\other\\x"] {
        assert_eq!(c.build_request("GET", p, None, None).err(), Some(Error::MalformedPath), "{}", p);
    }
    assert!(path_leaves_host("x:y"));
    assert!(!path_leaves_host("a/x:y"));
    assert!(!path_leaves_host("a?x:y"));
}

#[test]
fn signing_without_host_fails() {
    assert!(matches!(signing_context(&None, Some(80), "application/json", &None), Err(Error::SigningError)));
    assert_eq!(sign_request("id", "key", "GET", &None, Some(80), "/x", "application/json", &None), Err(Error::SigningError));
    assert_eq!(sign_request("id", "key", "GET", &Some("h".to_string()), None, "/x", "application/json", &None), Err(Error::SigningError));
    let v = sign_request("id", "secretkey123", "GET", &Some("h".to_string()), Some(80), "/x", "application/json", &None).unwrap();
    assert!(v.starts_with("Hawk id=\"id\""));
    assert!(!v.contains("secretkey123"));
}

#[test]
fn empty_query_leaves_bare_question_mark() {
    let j = JoinedUrl {
        head: "http://h/api/q/v1/x".to_string(),
        path: "/api/q/v1/x".to_string(),
        query: None,
        fragment: None,
        host: Some("h".to_string()),
        port: Some(80),
    };
    assert_eq!(String::from_utf8(compose_request_url(&j, &Some(vec![]))).unwrap(), "http://h/api/q/v1/x?");
    assert_eq!(String::from_utf8(compose_request_url(&j, &None)).unwrap(), "http://h/api/q/v1/x");
    let j = JoinedUrl { query: Some("a=1".to_string()), fragment: Some("f".to_string()), ..j };
    assert_eq!(String::from_utf8(compose_request_url(&j, &Some(vec![("b", "2")]))).unwrap(), "http://h/api/q/v1/x?a=1&b=2#f");
    assert_eq!(String::from_utf8(compose_request_url(&j, &Some(vec![]))).unwrap(), "http://h/api/q/v1/x?a=1#f");
}
