use ileap::client::{
    access_token, auth_failure, basic_authorization, bearer_authorization, discovery_url, request_failure, retry_notice,
    send_failure, token_endpoint, Client, RequestSession, Resource, ResponseAction,
};
use ileap::error::CliError;
use ileap::json::{Json, JsonNumber};

fn to_json(v: &serde_json::Value) -> Json {
    match v {
        serde_json::Value::Null => Json::Null,
        serde_json::Value::Bool(b) => Json::Bool(*b),
        serde_json::Value::Number(n) => {
            if let Some(u) = n.as_u64() {
                Json::Number(JsonNumber::PosInt(u))
            } else if let Some(i) = n.as_i64() {
                Json::Number(JsonNumber::NegInt(i))
            } else {
                Json::Number(JsonNumber::Float(n.to_string()))
            }
        }
        serde_json::Value::String(s) => Json::String(s.clone()),
        serde_json::Value::Array(a) => Json::Array(a.iter().map(to_json).collect()),
        serde_json::Value::Object(o) => {
            Json::Object(o.iter().map(|(k, v)| (k.clone(), to_json(v))).collect())
        }
    }
}

fn to_value(j: &Json) -> serde_json::Value {
    match j {
        Json::Null => serde_json::Value::Null,
        Json::Bool(b) => serde_json::Value::Bool(*b),
        Json::Number(JsonNumber::PosInt(u)) => serde_json::Value::from(*u),
        Json::Number(JsonNumber::NegInt(i)) => serde_json::Value::from(*i),
        Json::Number(JsonNumber::Float(s)) => serde_json::from_str(s).unwrap(),
        Json::String(s) => serde_json::Value::String(s.clone()),
        Json::Array(a) => serde_json::Value::Array(a.iter().map(to_value).collect()),
        Json::Object(m) => {
            let mut map = serde_json::Map::new();
            for (k, v) in m {
                map.insert(k.clone(), to_value(v));
            }
            serde_json::Value::Object(map)
        }
    }
}

fn parse(s: &str) -> Json {
    to_json(&serde_json::from_str(s).unwrap())
}

fn client() -> Client {
    Client::from_token("http://api.test", "test-token".to_string(), None)
}

/// The statuses the server answers, one per attempt, until the session settles.
fn run_session(statuses: &[u16]) -> (Vec<ResponseAction>, usize) {
    let mut session = RequestSession::new();
    let mut actions = vec![];
    let mut sent = 0;
    for &status in statuses {
        sent += 1;
        let a = session.on_response(status, 0);
        let settled = !matches!(a, ResponseAction::Retry { .. });
        actions.push(a);
        if settled {
            break;
        }
    }
    (actions, sent)
}

#[test]
fn retry_on_429_then_succeeds() {
    let (actions, sent) = run_session(&[429, 200]);
    assert_eq!(sent, 2);
    assert_eq!(actions.last(), Some(&ResponseAction::Accept));
}

#[test]
fn retry_on_500_then_succeeds() {
    let (actions, sent) = run_session(&[500, 200]);
    assert_eq!(sent, 2);
    assert_eq!(actions.last(), Some(&ResponseAction::Accept));
}

#[test]
fn no_retry_on_404_returns_exit_code_3() {
    let (actions, sent) = run_session(&[404, 200]);
    assert_eq!(sent, 1, "404 must not be retried");
    assert_eq!(actions.last(), Some(&ResponseAction::Fail));
    let err = request_failure("http://x/2/footprints/nope", 404, "404 Not Found", "\"not found\"");
    assert_eq!(err.exit_code(), 3);
    assert_eq!(err.error_type(), "not_found");
}

#[test]
fn auth_401_returns_exit_code_4() {
    let (actions, _) = run_session(&[401]);
    assert_eq!(actions.last(), Some(&ResponseAction::Fail));
    let err = request_failure("http://x/2/footprints", 401, "401 Unauthorized", "");
    assert_eq!(err.exit_code(), 4);
}

#[test]
fn retries_exhausted_returns_error() {
    let (actions, sent) = run_session(&[503, 503, 503, 503, 503]);
    assert_eq!(sent, 3, "should attempt 1 + 2 retries = 3 total");
    assert_eq!(actions.last(), Some(&ResponseAction::Fail));
}

#[test]
fn retry_delays_back_off_exponentially() {
    let mut session = RequestSession::new();
    assert_eq!(session.on_response(503, 1234), ResponseAction::Retry { delay_ms: 1000 + 234 });
    assert_eq!(session.attempt(), 1);
    assert_eq!(session.on_response(429, 499), ResponseAction::Retry { delay_ms: 2000 + 499 });
    assert_eq!(session.on_response(429, 0), ResponseAction::Fail);
    assert_eq!(session.on_response(204, 0), ResponseAction::Accept);
}

#[test]
fn failure_messages() {
    let e = request_failure("http://x/p", 404, "404 Not Found", "gone");
    assert_eq!(
        e.message(),
        "GET http://x/p failed (404 Not Found) — resource not found, check the ID or filter values: gone"
    );
    let e = request_failure("http://x/p", 403, "403 Forbidden", "");
    assert!(matches!(e, CliError::Auth(_)));
    assert_eq!(e.message(), "GET http://x/p failed (403 Forbidden) — access denied to this resource: ");
    let e = request_failure("http://x/p", 502, "502 Bad Gateway", "b");
    assert_eq!(e.exit_code(), 1);
    assert!(e.message().contains("server error"));
    let e = request_failure("http://x/p", 418, "418 I'm a teapot", "b");
    assert_eq!(e.message(), "GET http://x/p failed (418 I'm a teapot): b");
    assert_eq!(
        send_failure("http://x/p", true).message(),
        "request to http://x/p timed out — increase --timeout if needed"
    );
    assert_eq!(
        retry_notice("503 Service Unavailable", 1234, 0, "busy"),
        "request failed (503 Service Unavailable), retrying in 1234ms (attempt 1/2): busy"
    );
}

#[test]
fn auth_failure_exit_codes() {
    let e = auth_failure(401, "401 Unauthorized", "no");
    assert_eq!(e.exit_code(), 4);
    assert_eq!(
        e.message(),
        "authentication failed (401 Unauthorized) — credentials rejected, check --username and --password: no"
    );
    assert_eq!(auth_failure(403, "403 Forbidden", "").exit_code(), 4);
    let e = auth_failure(500, "500 Internal Server Error", "x");
    assert_eq!(e.exit_code(), 1);
    assert_eq!(e.message(), "authentication failed (500 Internal Server Error): x");
}

#[test]
fn basic_authorization_header() {
    assert_eq!(basic_authorization("hello", "pathfinder"), "Basic aGVsbG86cGF0aGZpbmRlcg==");
    assert_eq!(basic_authorization("a", "b"), "Basic YTpi");
    assert_eq!(basic_authorization("ab", "c"), "Basic YWI6Yw==");
    assert_eq!(basic_authorization("ü", ""), "Basic w7w6");
}

#[test]
fn token_endpoint_discovery() {
    assert_eq!(
        discovery_url("http://s"),
        "http://s/.well-known/openid-configuration"
    );
    let doc = parse(r#"{"token_endpoint":"http://s/oauth/token"}"#);
    assert_eq!(token_endpoint("http://s", Some(&doc)), "http://s/oauth/token");
    let doc = parse(r#"{"token_endpoint":5}"#);
    assert_eq!(token_endpoint("http://s", Some(&doc)), "http://s/auth/token");
    assert_eq!(token_endpoint("http://s", None), "http://s/auth/token");
}

#[test]
fn access_token_extraction() {
    assert_eq!(access_token(&parse(r#"{"access_token":"abc","x":1}"#)), Some("abc".to_string()));
    assert_eq!(access_token(&parse(r#"{"token":"abc"}"#)), None);
    assert_eq!(access_token(&parse(r#"["abc"]"#)), None);
}

#[test]
fn request_construction() {
    let c = client();
    let r = c.footprints(Some(10), 20, &["created lt 'x'".to_string(), "ignored".to_string()]);
    assert_eq!(r.url, "http://api.test/2/footprints");
    assert_eq!(
        r.params,
        vec![
            ("limit".to_string(), "10".to_string()),
            ("offset".to_string(), "20".to_string()),
            ("$filter".to_string(), "created lt 'x'".to_string()),
        ]
    );
    let r = c.shipments(None, 0, &["mode=road".to_string(), "bad".to_string(), "a=b=c".to_string()]);
    assert_eq!(r.url, "http://api.test/v1/ileap/shipments");
    assert_eq!(
        r.params,
        vec![
            ("mode".to_string(), "road".to_string()),
            ("a".to_string(), "b=c".to_string()),
        ]
    );
    let r = c.footprint("abc-123");
    assert_eq!(r.url, "http://api.test/2/footprints/abc-123");
    assert!(r.params.is_empty());
    assert_eq!(c.tocs(None, 0, &[]).url, "http://api.test/v1/ileap/tocs");
    assert_eq!(c.hocs(None, 0, &[]).url, "http://api.test/v1/ileap/hocs");
    assert_eq!(c.tad(None, 0, &[]).url, "http://api.test/v1/ileap/tad");
    assert_eq!(c.aed(None, 0, &[]).url, "http://api.test/v1/ileap/aed");
    assert_eq!(c.resource_list(Resource::Aed, Some(1), 1, &[]).url, "http://api.test/v1/ileap/aed");
    assert_eq!(c.token(), "test-token");
}

#[test]
fn dry_run_returns_request_info_without_hitting_server() {
    let c = Client::from_token("http://dry-run-test.invalid", "tok".to_string(), None);
    let v = to_value(&c.list_dry_run("/v1/ileap/shipments", None, 0, &[]));
    assert_eq!(v["dry_run"], true);
    assert_eq!(v["method"], "GET");
    assert!(v["url"].as_str().unwrap().contains("/v1/ileap/shipments"));
}

#[test]
fn dry_run_footprint_get_returns_request_info() {
    let c = Client::from_token("http://dry-run-test.invalid", "tok".to_string(), None);
    let v = to_value(&c.footprint_dry_run("abc-123"));
    assert_eq!(v["dry_run"], true);
    assert!(v["url"].as_str().unwrap().contains("abc-123"));
}

#[test]
fn dry_run_documents_params() {
    let c = client();
    let v = to_value(&c.footprints_dry_run(Some(5), 0, &["a eq 1".to_string()]));
    assert_eq!(
        v.to_string(),
        r#"{"dry_run":true,"method":"GET","params":{"$filter":"a eq 1","limit":"5"},"url":"http://api.test/2/footprints"}"#
    );
    let v = to_value(&c.list_dry_run("/v1/ileap/tad", None, 3, &["k=v".to_string()]));
    assert_eq!(v["params"]["offset"], "3");
    assert_eq!(v["params"]["k"], "v");
}

#[test]
fn bearer_authorization_header() {
    assert_eq!(bearer_authorization("abc.def"), "Bearer abc.def");
    assert_eq!(bearer_authorization(""), "Bearer ");
}
