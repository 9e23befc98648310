//! The decisions of the OIDC (Rauthy) flow; discovery, the authorization URL
//! and the token exchange run over the network in the caller.
use vstd::prelude::*;

use crate::auth::{str_eq, AuthError, Challenge, FlowState, LocalSession};

verus! {

/// The redirect URL registered with the provider.
pub fn redirect_url() -> (r: String)
    ensures
        r@ == "http://127.0.0.1:8080"@,
{
    String::from_str("http://127.0.0.1:8080")
}

/// The issuer URL and client id: the configured values, else the defaults.
pub fn client_settings(env_url: Option<String>, env_client_id: Option<String>) -> (r: (
    String,
    String,
))
    ensures
        env_url matches Some(u) ==> r.0 == u,
        env_url is None ==> r.0@ == "http://localhost:8080/auth/v1"@,
        env_client_id matches Some(c) ==> r.1 == c,
        env_client_id is None ==> r.1@ == "moribund_lms"@,
{
    let url = match env_url {
        Some(u) => u,
        None => String::from_str("http://localhost:8080/auth/v1"),
    };
    let client = match env_client_id {
        Some(c) => c,
        None => String::from_str("moribund_lms"),
    };
    (url, client)
}

/// The challenge and kept state of a started flow: the authorization URL and
/// the PKCE verifier, CSRF token and nonce that it was built with.
pub fn begin_with(auth_url: String, pkce_verifier: String, csrf_token: String, nonce: String) -> (r: (
    Challenge,
    FlowState,
))
    ensures
        r.0.url == auth_url,
        r.1.pkce_verifier == Some(pkce_verifier),
        r.1.csrf_token == Some(csrf_token),
        r.1.nonce == Some(nonce),
{
    (
        Challenge { url: auth_url },
        FlowState {
            pkce_verifier: Some(pkce_verifier),
            csrf_token: Some(csrf_token),
            nonce: Some(nonce),
        },
    )
}

/// The flow holds a CSRF token equal to the returned state (a missing
/// returned state counts as empty).
pub open spec fn state_matches(flow: FlowState, returned_state: Option<&str>) -> bool {
    flow.csrf_token matches Some(t) && t@ == match returned_state {
        Some(s) => s@,
        None => Seq::<char>::empty(),
    }
}

/// CSRF check: the flow must hold a token, equal to the returned state (a
/// missing returned state counts as empty).
pub fn check_state(flow: &FlowState, returned_state: Option<&str>) -> (r: Result<(), AuthError>)
    ensures
        r is Ok <==> state_matches(*flow, returned_state),
        r is Err ==> r == Err::<(), AuthError>(AuthError::StateMismatch),
{
    let expected = match &flow.csrf_token {
        Some(t) => t,
        None => {
            return Err(AuthError::StateMismatch);
        },
    };
    let returned = match returned_state {
        Some(s) => s,
        None => {
            let e = "";
            proof {
                reveal_strlit("");
            }
            assert(e@ =~= Seq::<char>::empty());
            e
        },
    };
    assert(returned@ == match returned_state {
        Some(s) => s@,
        None => Seq::<char>::empty(),
    });
    if !str_eq(expected.as_str(), returned) {
        return Err(AuthError::StateMismatch);
    }
    Ok(())
}

/// The PKCE verifier the flow kept.
pub fn pkce_secret(flow: &FlowState) -> (r: Result<String, AuthError>)
    ensures
        flow.pkce_verifier matches Some(v) ==> r == Ok::<String, AuthError>(v),
        flow.pkce_verifier is None ==> r == Err::<String, AuthError>(AuthError::StateMismatch),
{
    match &flow.pkce_verifier {
        Some(v) => Ok(v.clone()),
        None => Err(AuthError::StateMismatch),
    }
}

/// The nonce the ID token must carry (empty when the flow kept none).
pub fn expected_nonce(flow: &FlowState) -> (r: String)
    ensures
        flow.nonce matches Some(n) ==> r == n,
        flow.nonce is None ==> r@ == Seq::<char>::empty(),
{
    match &flow.nonce {
        Some(n) => n.clone(),
        None => String::new(),
    }
}

/// The session of a completed flow: the verified subject, the tokens, and an
/// expiry `expires_in` seconds (3600 when the provider gives none) after `now`.
pub fn session_from(
    subject: String,
    access_token: String,
    refresh_token: Option<String>,
    now: u64,
    expires_in: Option<u64>,
) -> (r: LocalSession)
    requires
        now + match expires_in {
            Some(e) => e,
            None => 3600,
        } <= u64::MAX,
    ensures
        r.user_id == subject,
        r.provider@ == "oidc"@,
        r.access_token == Some(access_token),
        r.refresh_token == refresh_token,
        r.expires_at == now + match expires_in {
            Some(e) => e,
            None => 3600,
        },
{
    let e = match expires_in {
        Some(e) => e,
        None => 3600,
    };
    LocalSession {
        user_id: subject,
        provider: String::from_str("oidc"),
        access_token: Some(access_token),
        refresh_token,
        expires_at: now + e,
    }
}

} // verus!
