use base64::engine::general_purpose::URL_SAFE_NO_PAD;
use base64::Engine;
use ileap::auth::{
    auth_status, cached_token, credential_error, exp_claim, fresh_token, jwt_payload,
    jwt_payload_segment, login_report, saved_token_payload, status_report, sub_claim,
    token_file_name, TokenSource,
};
use ileap::error::CliError;
use ileap::json::{Json, JsonNumber};
use ileap::login::{client_source, needs_cache_probe, ClientSource, Login, LoginAction, LoginEvent};
use ileap::text::trim_str;
use std::time::{SystemTime, UNIX_EPOCH};

fn to_json(v: &serde_json::Value) -> Json {
    match v {
        serde_json::Value::Null => Json::Null,
        serde_json::Value::Bool(b) => Json::Bool(*b),
        serde_json::Value::Number(n) => {
            if let Some(u) = n.as_u64() {
                Json::Number(JsonNumber::PosInt(u))
            } else if let Some(i) = n.as_i64() {
                Json::Number(JsonNumber::NegInt(i))
            } else {
                Json::Number(JsonNumber::Float(n.to_string()))
            }
        }
        serde_json::Value::String(s) => Json::String(s.clone()),
        serde_json::Value::Array(a) => Json::Array(a.iter().map(to_json).collect()),
        serde_json::Value::Object(o) => {
            Json::Object(o.iter().map(|(k, v)| (k.clone(), to_json(v))).collect())
        }
    }
}

fn to_value(j: &Json) -> serde_json::Value {
    match j {
        Json::Null => serde_json::Value::Null,
        Json::Bool(b) => serde_json::Value::Bool(*b),
        Json::Number(JsonNumber::PosInt(u)) => serde_json::Value::from(*u),
        Json::Number(JsonNumber::NegInt(i)) => serde_json::Value::from(*i),
        Json::Number(JsonNumber::Float(s)) => serde_json::from_str(s).unwrap(),
        Json::String(s) => serde_json::Value::String(s.clone()),
        Json::Array(a) => serde_json::Value::Array(a.iter().map(to_value).collect()),
        Json::Object(m) => {
            let mut map = serde_json::Map::new();
            for (k, v) in m {
                map.insert(k.clone(), to_value(v));
            }
            serde_json::Value::Object(map)
        }
    }
}

fn make_jwt(claims: &str) -> String {
    let payload = URL_SAFE_NO_PAD.encode(claims.as_bytes());
    format!("header.{payload}.sig")
}

fn now_secs() -> u64 {
    SystemTime::now()
        .duration_since(UNIX_EPOCH)
        .map(|d| d.as_secs())
        .unwrap_or(0)
}

fn claims(token: &str) -> Option<Json> {
    let bytes = jwt_payload(token)?;
    let v: serde_json::Value = serde_json::from_slice(&bytes).ok()?;
    Some(to_json(&v))
}

fn jwt_exp(token: &str) -> Option<u64> {
    claims(token).and_then(|c| exp_claim(&c))
}

fn jwt_sub(token: &str) -> Option<String> {
    claims(token).and_then(|c| sub_claim(&c))
}

/// What a cache file holding `contents` yields at `now`.
fn cached(contents: &str, now: u64) -> Option<String> {
    let claims = saved_token_payload(contents)
        .and_then(|p| serde_json::from_slice::<serde_json::Value>(&p).ok())
        .map(|v| to_json(&v));
    cached_token(contents, claims.as_ref(), now)
}

// --- token_file ---

#[test]
fn token_file_distinguishes_schemes() {
    let http = token_file_name("http://api.example.com", "alice");
    let https = token_file_name("https://api.example.com", "alice");
    assert_ne!(http, https);
}

#[test]
fn token_file_distinguishes_usernames() {
    let alice = token_file_name("https://api.example.com", "alice");
    let bob = token_file_name("https://api.example.com", "bob");
    assert_ne!(alice, bob);
}

#[test]
fn token_file_no_collision_on_separator_chars() {
    let url = "https://api.example.com";
    assert_ne!(token_file_name(url, "a/b"), token_file_name(url, "a_b"));
}

#[test]
fn token_file_name_is_percent_encoded() {
    assert_eq!(
        token_file_name("https://api.example.com", "alice"),
        "token_https%3A%2F%2Fapi%2Eexample%2Ecom__alice"
    );
    assert_eq!(token_file_name("x", "a_b"), "token_x__a%5Fb");
    assert_eq!(token_file_name("", ""), "token___");
    assert_eq!(token_file_name("ü", "é"), "token_%C3%BC__%C3%A9");
}

#[test]
fn token_file_name_separator_straddle_does_not_collide() {
    assert_ne!(token_file_name("x-", "y"), token_file_name("x", "_y"));
}

// --- jwt_exp ---

#[test]
fn jwt_exp_returns_exp_claim() {
    let token = make_jwt(r#"{"exp":9999999999,"sub":"test"}"#);
    assert_eq!(jwt_exp(&token), Some(9999999999u64));
}

#[test]
fn jwt_exp_no_exp_claim_returns_none() {
    let token = make_jwt(r#"{"sub":"test"}"#);
    assert_eq!(jwt_exp(&token), None);
}

#[test]
fn jwt_exp_malformed_token_returns_none() {
    assert_eq!(jwt_exp("not.a.jwt"), None);
    assert_eq!(jwt_exp("onlyone"), None);
}

#[test]
fn jwt_exp_ignores_non_integer_exp() {
    assert_eq!(jwt_exp(&make_jwt(r#"{"exp":"soon"}"#)), None);
    assert_eq!(jwt_exp(&make_jwt(r#"{"exp":-5}"#)), None);
    assert_eq!(jwt_exp(&make_jwt(r#"[1,2]"#)), None);
}

// --- jwt_sub ---

#[test]
fn jwt_sub_returns_sub_claim() {
    let token = make_jwt(r#"{"sub":"carol","exp":9999999999}"#);
    assert_eq!(jwt_sub(&token), Some("carol".to_string()));
}

#[test]
fn jwt_sub_no_sub_or_malformed_returns_none() {
    let no_sub = make_jwt(r#"{"exp":9999999999}"#);
    assert_eq!(jwt_sub(&no_sub), None);
    assert_eq!(jwt_sub("not.a.jwt"), None);
    assert_eq!(jwt_sub("onlyone"), None);
}

#[test]
fn jwt_payload_segment_is_second_segment() {
    assert_eq!(jwt_payload_segment("a.b.c"), Some("b".to_string()));
    assert_eq!(jwt_payload_segment("a.b"), Some("b".to_string()));
    assert_eq!(jwt_payload_segment("a..c"), Some("".to_string()));
    assert_eq!(jwt_payload_segment("onlyone"), None);
}

#[test]
fn jwt_payload_decodes_url_safe_base64() {
    assert_eq!(jwt_payload("h.aGk.s"), Some(b"hi".to_vec()));
    assert_eq!(jwt_payload("h.aGk=.s"), None);
    assert_eq!(jwt_payload("h.@@.s"), None);
}

// --- credential_error ---

#[test]
fn credential_error_username_only_exit_code_4() {
    let err = credential_error(Some("user"), None);
    assert!(matches!(err, CliError::Auth(_)), "expected Auth variant, got: {err:?}");
    assert_eq!(err.exit_code(), 4);
    let msg = err.message();
    assert!(msg.contains("--password"), "expected --password hint, got: {msg}");
}

#[test]
fn credential_error_password_only_exit_code_4() {
    let err = credential_error(None, Some("pass"));
    assert!(matches!(err, CliError::Auth(_)), "expected Auth variant, got: {err:?}");
    assert_eq!(err.exit_code(), 4);
    let msg = err.message();
    assert!(msg.contains("--username"), "expected --username hint, got: {msg}");
}

#[test]
fn credential_error_neither_exit_code_4() {
    let err = credential_error(None, None);
    assert!(matches!(err, CliError::Auth(_)), "expected Auth variant, got: {err:?}");
    assert_eq!(err.exit_code(), 4);
    let msg = err.message();
    assert!(msg.contains("not authenticated"), "expected 'not authenticated', got: {msg}");
}

#[test]
fn credential_error_exact_messages() {
    assert_eq!(
        credential_error(Some("u"), None).message(),
        "--username provided but --password is missing — provide --password or set ILEAP_PASSWORD"
    );
    assert_eq!(
        credential_error(None, Some("p")).message(),
        "--password provided but --username is missing — provide --username or set ILEAP_USERNAME"
    );
    assert_eq!(
        credential_error(None, None).message(),
        "not authenticated — provide --username and --password (or set ILEAP_USERNAME + ILEAP_PASSWORD)"
    );
}

// --- load_saved_token expiry boundary ---

#[test]
fn load_saved_token_expired_returns_none() {
    let token = make_jwt(r#"{"exp":1,"sub":"test"}"#);
    assert!(cached(&token, now_secs()).is_none());
}

#[test]
fn load_saved_token_within_60s_buffer_returns_none() {
    let now = now_secs();
    let token = make_jwt(&format!(r#"{{"exp":{}}}"#, now + 30));
    assert!(cached(&token, now).is_none());
}

#[test]
fn load_saved_token_valid_returns_token() {
    let now = now_secs();
    let token = make_jwt(&format!(r#"{{"exp":{}}}"#, now + 3600));
    assert_eq!(cached(&token, now), Some(token));
}

#[test]
fn load_saved_token_no_exp_is_trusted() {
    let token = make_jwt(r#"{"sub":"test"}"#);
    assert!(cached(&token, now_secs()).is_some());
}

#[test]
fn cached_token_is_trimmed_and_empty_is_none() {
    let token = make_jwt(r#"{"sub":"test"}"#);
    assert_eq!(cached(&format!("  {token}\n"), 100), Some(token));
    assert_eq!(cached(" \n\t", 100), None);
    assert_eq!(cached("", 100), None);
}

#[test]
fn fresh_token_margin_boundary() {
    assert_eq!(fresh_token("t".to_string(), Some(160), 100), None);
    assert_eq!(fresh_token("t".to_string(), Some(161), 100), Some("t".to_string()));
    assert_eq!(fresh_token("t".to_string(), None, 100), Some("t".to_string()));
    assert_eq!(fresh_token(String::new(), None, 100), None);
}

// --- status and login documents ---

#[test]
fn status_report_documents() {
    assert_eq!(to_value(&status_report(false, None, 10)).to_string(), r#"{"authenticated":false}"#);
    assert_eq!(
        to_value(&status_report(true, Some(110), 10)).to_string(),
        r#"{"authenticated":true,"expires_in":100}"#
    );
    assert_eq!(
        to_value(&status_report(true, Some(5), 10)).to_string(),
        r#"{"authenticated":true,"expires_in":0}"#
    );
    assert_eq!(
        to_value(&status_report(true, None, 10)).to_string(),
        r#"{"authenticated":true,"expires_in":null}"#
    );
}

#[test]
fn login_report_documents() {
    assert_eq!(
        to_value(&login_report(TokenSource::Flag)).to_string(),
        r#"{"authenticated":true,"token_source":"flag"}"#
    );
    assert_eq!(
        to_value(&login_report(TokenSource::Cache)).to_string(),
        r#"{"authenticated":true,"token_source":"cache"}"#
    );
    assert_eq!(
        to_value(&login_report(TokenSource::Credentials)).to_string(),
        r#"{"authenticated":true,"token_source":"credentials"}"#
    );
}

// --- run_auth (the decisions of `auth login`) ---

fn report_of(a: &LoginAction) -> String {
    match a {
        LoginAction::Report(j) => to_value(j).to_string(),
        other => panic!("expected a report, got {other:?}"),
    }
}

#[test]
fn run_auth_login_token_flag_saves_token() {
    let token = make_jwt(r#"{"exp":9999999999}"#);
    let sub = jwt_sub(&token);
    let (mut login, action) =
        Login::start(Some(token.clone()), sub, Some("flaguser".to_string()), None, false);
    match action {
        LoginAction::SaveToken { user, token: t } => {
            assert_eq!(user, "flaguser");
            assert_eq!(t, token);
        }
        other => panic!("expected SaveToken, got {other:?}"),
    }
    let done = login.step(LoginEvent::Saved);
    assert_eq!(report_of(&done), r#"{"authenticated":true,"token_source":"flag"}"#);
}

#[test]
fn run_auth_login_token_flag_keys_by_jwt_sub_without_username() {
    let token = make_jwt(r#"{"exp":9999999999,"sub":"subuser"}"#);
    let sub = jwt_sub(&token);
    let (_, action) = Login::start(Some(token.clone()), sub, None, None, false);
    match action {
        LoginAction::SaveToken { user, token: t } => {
            assert_eq!(user, "subuser");
            assert_eq!(t, token);
        }
        other => panic!("expected SaveToken, got {other:?}"),
    }
}

#[test]
fn run_auth_login_token_flag_no_username_no_sub_errors() {
    let token = make_jwt(r#"{"exp":9999999999}"#);
    let sub = jwt_sub(&token);
    let (_, action) = Login::start(Some(token), sub, None, None, false);
    match action {
        LoginAction::Fail(e) => assert!(e.message().contains("--username")),
        other => panic!("expected failure, got {other:?}"),
    }
}

#[test]
fn run_auth_login_cached_token_succeeds_without_credentials() {
    let (mut login, action) = Login::start(None, None, Some("cacheuser".to_string()), None, false);
    match action {
        LoginAction::ProbeCache { user } => assert_eq!(user, "cacheuser"),
        other => panic!("expected a cache probe, got {other:?}"),
    }
    let done = login.step(LoginEvent::CacheHit);
    assert_eq!(report_of(&done), r#"{"authenticated":true,"token_source":"cache"}"#);
}

#[test]
fn run_auth_login_no_credentials_returns_exit_code_4() {
    let (_, action) = Login::start(None, None, None, None, false);
    match action {
        LoginAction::Fail(ce) => {
            assert!(matches!(ce, CliError::Auth(_)), "expected Auth variant, got: {ce:?}");
            assert_eq!(ce.exit_code(), 4);
        }
        other => panic!("expected failure, got {other:?}"),
    }
}

#[test]
fn run_auth_login_credentials_flow() {
    let (mut login, action) =
        Login::start(None, None, Some("u".to_string()), Some("p".to_string()), false);
    assert!(matches!(action, LoginAction::ProbeCache { .. }));
    match login.step(LoginEvent::CacheMiss) {
        LoginAction::Authenticate { user, password } => {
            assert_eq!(user, "u");
            assert_eq!(password, "p");
        }
        other => panic!("expected Authenticate, got {other:?}"),
    }
    match login.step(LoginEvent::Token("tok".to_string())) {
        LoginAction::SaveToken { user, token } => {
            assert_eq!(user, "u");
            assert_eq!(token, "tok");
        }
        other => panic!("expected SaveToken, got {other:?}"),
    }
    let done = login.step(LoginEvent::Saved);
    assert_eq!(report_of(&done), r#"{"authenticated":true,"token_source":"credentials"}"#);
}

#[test]
fn run_auth_login_prompts_on_terminal() {
    let (mut login, action) = Login::start(None, None, None, None, true);
    assert!(matches!(action, LoginAction::PromptUsername));
    match login.step(LoginEvent::Username("typed".to_string())) {
        LoginAction::ProbeCache { user } => assert_eq!(user, "typed"),
        other => panic!("expected a cache probe, got {other:?}"),
    }
    assert!(matches!(login.step(LoginEvent::CacheMiss), LoginAction::PromptPassword));
    match login.step(LoginEvent::Password("secret".to_string())) {
        LoginAction::Authenticate { user, password } => {
            assert_eq!(user, "typed");
            assert_eq!(password, "secret");
        }
        other => panic!("expected Authenticate, got {other:?}"),
    }
}

#[test]
fn run_auth_login_given_username_prompts_only_for_password() {
    let (mut login, action) = Login::start(None, None, Some("alice".to_string()), None, true);
    match action {
        LoginAction::ProbeCache { user } => assert_eq!(user, "alice"),
        other => panic!("expected a cache probe, got {other:?}"),
    }
    assert!(matches!(login.step(LoginEvent::CacheMiss), LoginAction::PromptPassword));
    match login.step(LoginEvent::Password("secret".to_string())) {
        LoginAction::Authenticate { user, password } => {
            assert_eq!(user, "alice");
            assert_eq!(password, "secret");
        }
        other => panic!("expected Authenticate, got {other:?}"),
    }
}

#[test]
fn run_auth_login_given_password_prompts_only_for_username() {
    let (mut login, action) = Login::start(None, None, None, Some("secret".to_string()), true);
    assert!(matches!(action, LoginAction::PromptUsername));
    match login.step(LoginEvent::Username("bob".to_string())) {
        LoginAction::ProbeCache { user } => assert_eq!(user, "bob"),
        other => panic!("expected a cache probe, got {other:?}"),
    }
    match login.step(LoginEvent::CacheMiss) {
        LoginAction::Authenticate { user, password } => {
            assert_eq!(user, "bob");
            assert_eq!(password, "secret");
        }
        other => panic!("expected Authenticate, got {other:?}"),
    }
}

#[test]
fn run_auth_login_username_only_non_tty_reports_missing_password() {
    let (mut login, _) = Login::start(None, None, Some("alice".to_string()), None, false);
    match login.step(LoginEvent::CacheMiss) {
        LoginAction::Fail(e) => {
            assert_eq!(e.exit_code(), 4);
            assert!(e.message().contains("--password is missing"));
        }
        other => panic!("expected failure, got {other:?}"),
    }
}

// --- credential chain of API commands ---

#[test]
fn no_auth_exits_4() {
    assert!(!needs_cache_probe(None, None));
    match client_source(None, None, None, None) {
        ClientSource::Missing(e) => {
            assert_eq!(e.exit_code(), 4);
            assert_eq!(e.error_type(), "auth_error");
        }
        other => panic!("expected missing credentials, got {other:?}"),
    }
}

#[test]
fn username_without_password_exits_4() {
    assert!(needs_cache_probe(None, Some("user")));
    match client_source(None, Some("user"), None, None) {
        ClientSource::Missing(e) => assert_eq!(e.exit_code(), 4),
        other => panic!("expected missing credentials, got {other:?}"),
    }
}

#[test]
fn credential_chain_order() {
    assert!(matches!(
        client_source(Some("tok"), Some("u"), Some("p"), None),
        ClientSource::Token(t) if t == "tok"
    ));
    assert!(matches!(
        client_source(None, Some("u"), Some("p"), Some("cached".to_string())),
        ClientSource::Cached(t) if t == "cached"
    ));
    assert!(matches!(
        client_source(None, Some("u"), Some("p"), None),
        ClientSource::Credentials { username, password } if username == "u" && password == "p"
    ));
    assert!(matches!(client_source(None, None, Some("p"), None), ClientSource::Missing(_)));
}

#[test]
fn token_file_name_is_one_path_component() {
    for (url, user) in [("https://a.b/../c", ".."), ("http://x/y", "a/b"), ("", ".")] {
        let name = token_file_name(url, user);
        assert!(!name.contains('/') && !name.contains('.'), "{name}");
    }
}

#[test]
fn trim_keeps_characters_outside_white_space() {
    assert_eq!(trim_str("\u{0085}\u{1680}tok\u{200B}"), "tok\u{200B}");
    assert_eq!(trim_str("\u{FEFF}x\u{205F}"), "\u{FEFF}x");
}

#[test]
fn jwt_payload_accepts_only_canonical_unpadded_base64() {
    assert_eq!(jwt_payload("h.Zg.s"), Some(vec![0x66]));
    assert_eq!(jwt_payload("h.Zh.s"), None);
    assert_eq!(jwt_payload("h.Zg==.s"), None);
    assert_eq!(jwt_payload("h.Z.s"), None);
    assert_eq!(jwt_payload("h.-_8.s"), Some(vec![0xfb, 0xff]));
    assert_eq!(jwt_payload("h..s"), Some(vec![]));
}

#[test]
fn cached_token_reads_claims_of_trimmed_contents() {
    let token = make_jwt(r#"{"exp":1000}"#);
    let contents = format!("\n {token} \t");
    let payload = saved_token_payload(&contents).unwrap();
    assert_eq!(payload, br#"{"exp":1000}"#.to_vec());
    assert_eq!(cached(&contents, 939), Some(token.clone()));
    assert_eq!(cached(&contents, 940), None);
    assert_eq!(cached_token(&contents, None, 5000), Some(token));
}

#[test]
fn auth_status_reports_expiry_of_claims() {
    let claims = to_json(&serde_json::from_str(r#"{"exp":110}"#).unwrap());
    let v = to_value(&auth_status(Some("t"), Some(&claims), 10));
    assert_eq!(v.to_string(), r#"{"authenticated":true,"expires_in":100}"#);
    let v = to_value(&auth_status(Some("t"), None, 10));
    assert_eq!(v.to_string(), r#"{"authenticated":true,"expires_in":null}"#);
}

#[test]
fn trim_removes_unicode_white_space() {
    assert_eq!(trim_str("\u{3000}\t tok \u{2003}\n"), "tok");
    assert_eq!(trim_str("a b"), "a b");
    assert_eq!(trim_str(""), "");
}

fn auth_error_json(e: &CliError) -> serde_json::Value {
    let v = to_value(&ileap::error::error_report(e));
    assert_eq!(v["cli_error"]["type"], "auth_error");
    assert!(v["cli_error"]["message"].is_string());
    v
}

#[test]
fn no_auth_compact_error_is_structured_json() {
    match client_source(None, None, None, None) {
        ClientSource::Missing(e) => {
            assert_eq!(e.exit_code(), 4);
            let v = auth_error_json(&e);
            let compact = serde_json::to_string(&v).unwrap();
            let reparsed: serde_json::Value = serde_json::from_str(compact.trim()).unwrap();
            assert_eq!(reparsed, v);
        }
        other => panic!("expected missing credentials, got {other:?}"),
    }
}

#[test]
fn no_auth_pretty_error_is_also_structured_json() {
    match client_source(None, None, None, None) {
        ClientSource::Missing(e) => {
            assert_eq!(e.exit_code(), 4);
            let v = auth_error_json(&e);
            let pretty = serde_json::to_string_pretty(&v).unwrap();
            let reparsed: serde_json::Value = serde_json::from_str(pretty.trim()).unwrap();
            assert_eq!(reparsed, v);
        }
        other => panic!("expected missing credentials, got {other:?}"),
    }
}

#[test]
fn load_saved_token_is_scoped_by_username() {
    let base_url = "http://test-user-scoping.invalid";
    assert_ne!(token_file_name(base_url, "alice"), token_file_name(base_url, "bob"));
    assert_eq!(token_file_name(base_url, "alice"), token_file_name(base_url, "alice"));
}

#[test]
fn run_auth_status_with_valid_token_is_ok() {
    let token = make_jwt(r#"{"exp":9999999999}"#);
    let now = now_secs();
    let found = cached(&token, now);
    assert!(found.is_some());
    let found_claims = found.as_deref().and_then(claims);
    let v = to_value(&auth_status(found.as_deref(), found_claims.as_ref(), now));
    assert_eq!(v["authenticated"], true);
    assert_eq!(v["expires_in"], 9999999999u64 - now);
}

#[test]
fn run_auth_status_without_token_is_ok() {
    let v = to_value(&auth_status(None, None, now_secs()));
    assert_eq!(v.to_string(), r#"{"authenticated":false}"#);
}

#[test]
fn run_auth_status_without_username_reports_unauthenticated() {
    let v = to_value(&auth_status(None, None, 0));
    assert_eq!(v["authenticated"], false);
}
