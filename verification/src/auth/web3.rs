//! Web3 sign-in: sign a fixed nonce.
use vstd::prelude::*;

use crate::auth::{AuthError, Challenge, FlowState, LocalSession};

verus! {

/// The Web3 challenge: sign "nonce_999"; only the nonce is kept.
pub open spec fn is_web3_challenge(r: Result<(Challenge, FlowState), AuthError>) -> bool {
    &&& r is Ok
    &&& r->Ok_0.0.url@ == "Sign this: nonce_999"@
    &&& r->Ok_0.1.pkce_verifier is None
    &&& r->Ok_0.1.csrf_token is None
    &&& r->Ok_0.1.nonce is Some
    &&& r->Ok_0.1.nonce->0@ == "nonce_999"@
}

/// The Web3 session: the fixed address, provider "web3", no tokens.
pub open spec fn is_web3_session(r: Result<LocalSession, AuthError>) -> bool {
    &&& r is Ok
    &&& r->Ok_0.user_id@ == "0xAbCd..."@
    &&& r->Ok_0.provider@ == "web3"@
    &&& r->Ok_0.access_token is None
    &&& r->Ok_0.refresh_token is None
    &&& r->Ok_0.expires_at == 2000000000
}

/// Starts a Web3 flow: a message to sign and the nonce it holds.
pub fn begin() -> (r: Result<(Challenge, FlowState), AuthError>)
    ensures
        is_web3_challenge(r),
{
    Ok(
        (
            Challenge { url: String::from_str("Sign this: nonce_999") },
            FlowState {
                pkce_verifier: None,
                csrf_token: None,
                nonce: Some(String::from_str("nonce_999")),
            },
        ),
    )
}

/// Completes a Web3 flow.
pub fn complete(_flow: FlowState, _proof: &str) -> (r: Result<LocalSession, AuthError>)
    ensures
        is_web3_session(r),
{
    Ok(
        LocalSession {
            user_id: String::from_str("0xAbCd..."),
            provider: String::from_str("web3"),
            access_token: None,
            refresh_token: None,
            expires_at: 2000000000,
        },
    )
}

} // verus!
