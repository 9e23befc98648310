//! Modular authentication: OIDC, Web3 and Steam flows.
use vstd::prelude::*;
use vstd::string::StringSliceAdditionalSpecFns;
use vstd::utf8::encode_utf8_decode_utf8;

pub mod oidc;
pub mod steam;
pub mod web3;

verus! {

/// A session held locally after a successful flow.
#[derive(Clone, Debug)]
pub struct LocalSession {
    pub user_id: String,
    pub provider: String,
    pub access_token: Option<String>,
    pub refresh_token: Option<String>,
    pub expires_at: u64,
}

/// Why a flow failed.
#[derive(Clone, Copy, Debug, PartialEq, Eq)]
pub enum AuthError {
    NetworkFailure,
    InvalidSignature,
    StateMismatch,
    UserCancelled,
}

/// Secrets a flow keeps between its two halves.
#[derive(Clone, Debug)]
pub struct FlowState {
    pub pkce_verifier: Option<String>,
    pub csrf_token: Option<String>,
    pub nonce: Option<String>,
}

/// What the user is sent to (a URL, or a message to sign).
#[derive(Clone, Debug)]
pub struct Challenge {
    pub url: String,
}

/// The available identity providers.
#[derive(Clone, Copy, Debug, PartialEq, Eq)]
pub enum Provider {
    Oidc,
    Web3,
    Steam,
}

/// Byte-wise string equality.
pub fn str_eq(a: &str, b: &str) -> (r: bool)
    ensures
        r == (a@ == b@),
{
    let x = a.as_bytes();
    let y = b.as_bytes();
    proof {
        encode_utf8_decode_utf8(a@);
        encode_utf8_decode_utf8(b@);
    }
    if x.len() != y.len() {
        return false;
    }
    let n = x.len();
    let mut i: usize = 0;
    while i < n
        invariant
            x@ == a.spec_bytes(),
            y@ == b.spec_bytes(),
            a@ == vstd::utf8::decode_utf8(a.spec_bytes()),
            b@ == vstd::utf8::decode_utf8(b.spec_bytes()),
            n == x@.len(),
            n == y@.len(),
            i <= n,
            forall|k: int| 0 <= k < i ==> x@[k] == y@[k],
        decreases n - i,
    {
        if x[i] != y[i] {
            assert(x@ != y@);
            return false;
        }
        i = i + 1;
    }
    assert(x@ =~= y@);
    true
}

impl Provider {
    /// Starts a flow. The OIDC flow needs the network, so its start is run by
    /// the caller-supplied `oidc_begin`, which is called for `Oidc` only.
    pub fn begin<F>(&self, oidc_begin: F) -> (r: Result<(Challenge, FlowState), AuthError>) where
        F: FnOnce() -> Result<(Challenge, FlowState), AuthError>,

        requires
            *self == Provider::Oidc ==> call_requires(oidc_begin, ()),
        ensures
            *self == Provider::Oidc ==> call_ensures(oidc_begin, (), r),
            *self == Provider::Web3 ==> web3::is_web3_challenge(r),
            *self == Provider::Steam ==> r == Err::<(Challenge, FlowState), AuthError>(
                AuthError::NetworkFailure,
            ),
    {
        match self {
            Provider::Oidc => oidc_begin(),
            Provider::Web3 => web3::begin(),
            Provider::Steam => steam::begin(),
        }
    }

    /// Completes a flow with the state kept from `begin`, the state echoed back
    /// by the provider and the proof (authorization code or signature). For
    /// OIDC the CSRF state is checked first, before any network use; the
    /// network half then runs in `oidc_complete`, which gets the kept and the
    /// echoed state.
    pub fn complete<'a, F>(
        &self,
        flow: FlowState,
        returned_state: Option<&'a str>,
        proof: &str,
        oidc_complete: F,
    ) -> (r: Result<LocalSession, AuthError>) where
        F: FnOnce(FlowState, Option<&'a str>) -> Result<LocalSession, AuthError>,

        requires
            *self == Provider::Oidc && oidc::state_matches(flow, returned_state) ==> call_requires(
                oidc_complete,
                (flow, returned_state),
            ),
        ensures
            *self == Provider::Oidc && !oidc::state_matches(flow, returned_state) ==> r == Err::<
                LocalSession,
                AuthError,
            >(AuthError::StateMismatch),
            *self == Provider::Oidc && oidc::state_matches(flow, returned_state) ==> call_ensures(
                oidc_complete,
                (flow, returned_state),
                r,
            ),
            *self == Provider::Web3 ==> web3::is_web3_session(r),
            *self == Provider::Steam ==> r == Err::<LocalSession, AuthError>(
                AuthError::NetworkFailure,
            ),
    {
        match self {
            Provider::Oidc => {
                if oidc::check_state(&flow, returned_state).is_err() {
                    return Err(AuthError::StateMismatch);
                }
                oidc_complete(flow, returned_state)
            },
            Provider::Web3 => web3::complete(flow, proof),
            Provider::Steam => steam::complete(flow, proof),
        }
    }
}

} // verus!
