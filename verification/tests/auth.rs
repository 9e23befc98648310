use mor_lms::auth::oidc::{begin_with, check_state, client_settings, expected_nonce, pkce_secret, redirect_url, session_from};
use mor_lms::auth::{steam, web3, AuthError, FlowState, Provider};
use mor_lms::session::{auth_code_from_request, code_runs_past_request, RauthyAuthProvider};

fn flow() -> FlowState {
    FlowState { pkce_verifier: Some("v".to_string()), csrf_token: Some("csrf".to_string()), nonce: Some("n".to_string()) }
}

#[test]
fn web3_flow() {
    let (c, f) = web3::begin().unwrap();
    assert_eq!(c.url, "Sign this: nonce_999");
    assert_eq!(f.nonce.as_deref(), Some("nonce_999"));
    assert!(f.csrf_token.is_none() && f.pkce_verifier.is_none());
    let s = web3::complete(f, "sig").unwrap();
    assert_eq!(s.user_id, "0xAbCd...");
    assert_eq!(s.provider, "web3");
    assert_eq!(s.expires_at, 2000000000);
}

#[test]
fn steam_is_unavailable() {
    assert_eq!(steam::begin().unwrap_err(), AuthError::NetworkFailure);
    assert_eq!(steam::complete(flow(), "x").unwrap_err(), AuthError::NetworkFailure);
}

#[test]
fn provider_dispatch() {
    let called = std::cell::Cell::new(false);
    let r = Provider::Web3.begin(|| { called.set(true); Err(AuthError::UserCancelled) });
    assert!(r.is_ok() && !called.get());
    let r = Provider::Oidc.begin(|| Err(AuthError::UserCancelled));
    assert_eq!(r.unwrap_err(), AuthError::UserCancelled);
    let r = Provider::Steam.complete(flow(), Some("csrf"), "p", |_, _| Err(AuthError::UserCancelled));
    assert_eq!(r.unwrap_err(), AuthError::NetworkFailure);
    let r = Provider::Oidc.complete(flow(), Some("csrf"), "p", |f, st| {
        Err(if f.csrf_token.is_some() && st == Some("csrf") { AuthError::InvalidSignature } else { AuthError::UserCancelled })
    });
    assert_eq!(r.unwrap_err(), AuthError::InvalidSignature);
    let r = Provider::Oidc.complete(flow(), Some("x"), "p", |_, _| -> Result<_, AuthError> { panic!("no network on a state mismatch") });
    assert_eq!(r.unwrap_err(), AuthError::StateMismatch);
    let mut bare = flow();
    bare.csrf_token = None;
    let r = Provider::Oidc.complete(bare, Some("x"), "p", |_, _| -> Result<_, AuthError> { panic!("no network on a state mismatch") });
    assert_eq!(r.unwrap_err(), AuthError::StateMismatch);
}

#[test]
fn csrf_check() {
    assert!(check_state(&flow(), Some("csrf")).is_ok());
    assert_eq!(check_state(&flow(), Some("other")).unwrap_err(), AuthError::StateMismatch);
    assert_eq!(check_state(&flow(), None).unwrap_err(), AuthError::StateMismatch);
    let mut f = flow();
    f.csrf_token = None;
    assert_eq!(check_state(&f, Some("csrf")).unwrap_err(), AuthError::StateMismatch);
    f.csrf_token = Some(String::new());
    assert!(check_state(&f, None).is_ok());
}

#[test]
fn oidc_pieces() {
    assert_eq!(pkce_secret(&flow()).unwrap(), "v");
    let mut f = flow();
    f.pkce_verifier = None;
    assert_eq!(pkce_secret(&f).unwrap_err(), AuthError::StateMismatch);
    f.nonce = None;
    assert_eq!(expected_nonce(&f), "");
    assert_eq!(redirect_url(), "http://127.0.0.1:8080");
    let (u, c) = client_settings(None, None);
    assert_eq!(u, "http://localhost:8080/auth/v1");
    assert_eq!(c, "moribund_lms");
    let (u, c) = client_settings(Some("https://id".to_string()), Some("me".to_string()));
    assert_eq!((u.as_str(), c.as_str()), ("https://id", "me"));
    let (ch, st) = begin_with("https://a".to_string(), "p".to_string(), "c".to_string(), "n".to_string());
    assert_eq!(ch.url, "https://a");
    assert_eq!(st.csrf_token.as_deref(), Some("c"));
}

#[test]
fn session_expiry() {
    let s = session_from("sub".to_string(), "at".to_string(), None, 1000, None);
    assert_eq!(s.expires_at, 4600);
    assert_eq!(s.provider, "oidc");
    let s = session_from("sub".to_string(), "at".to_string(), Some("rt".to_string()), 1000, Some(60));
    assert_eq!(s.expires_at, 1060);
    assert_eq!(s.refresh_token.as_deref(), Some("rt"));
}

#[test]
fn rauthy_provider() {
    let p = RauthyAuthProvider::new("https://issuer", "client", "http://127.0.0.1:8080");
    assert_eq!(p.issuer_url, "https://issuer");
    let s = p.session_for_token("tok".to_string());
    assert_eq!(s.user_id, "rauthed_user_123");
    assert_eq!(s.email, "scholar@moribund.edu");
    let s2 = p.refresh_session(&s, || Ok("fresh".to_string())).unwrap();
    assert_eq!((s2.user_id.as_str(), s2.email.as_str(), s2.access_token.as_str()), ("rauthed_user_123", "scholar@moribund.edu", "fresh"));
    assert_eq!(p.refresh_session(&s, || Err("login aborted".to_string())).unwrap_err(), "login aborted");
    let mut revoked = None;
    assert!(p.logout(&s, |t| { revoked = Some(t); Ok(()) }).is_ok());
    assert_eq!(revoked.as_deref(), Some("tok"));
    assert_eq!(p.logout(&s, |_| Err("offline".to_string())).unwrap_err(), "offline");
}

#[test]
fn auth_code_extraction() {
    assert_eq!(auth_code_from_request("GET /?code=abc123&state=xyz HTTP/1.1\r\n").as_deref(), Some("abc123&state=xyz"));
    assert_eq!(auth_code_from_request("GET /favicon.ico HTTP/1.1"), None);
    assert_eq!(auth_code_from_request("code=").as_deref(), Some(""));
    assert_eq!(auth_code_from_request("code=xyz").as_deref(), Some("xyz"));
    assert_eq!(auth_code_from_request("GET /?code=\u{e9}t\u{e9} x").as_deref(), Some("\u{e9}t\u{e9}"));
}

#[test]
fn code_running_past_the_request_is_detected() {
    assert!(!code_runs_past_request("GET /?code=abc HTTP/1.1"));
    assert!(!code_runs_past_request("code=abc"));
    assert!(!code_runs_past_request("no key here"));
    assert!(code_runs_past_request("GET /?code=abc"));
}
