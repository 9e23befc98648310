//! The authentication interface and the Rauthy (OIDC) adapter's decisions.
use vstd::prelude::*;
use vstd::string::StringSliceAdditionalSpecFns;
use vstd::utf8::{
    encode_utf8, encode_utf8_valid_utf8, is_char_boundary, is_char_boundary_iff_not_is_continuation_byte,
    is_char_boundary_start_end_of_seq, is_continuation_byte, length_of_first_scalar, pop_first_scalar,
    valid_utf8, valid_utf8_split,
};

verus! {

/// An active, authenticated user session.
#[derive(Clone, Debug)]
pub struct UserSession {
    pub user_id: String,
    pub email: String,
    pub access_token: String,
}

/// The authentication interface: adapters implement it to handle logins.
pub trait AuthProvider {
    /// Runs a login flow and returns the active session if it succeeds.
    fn login(&self) -> Result<UserSession, String>;

    /// Refreshes an expired session.
    fn refresh_session(&self, session: &UserSession) -> Result<UserSession, String>;

    /// Ends the session locally and remotely.
    fn logout(&self, session: &UserSession) -> Result<(), String>;
}

/// Settings of the Rauthy OIDC provider.
#[derive(Clone, Debug)]
pub struct RauthyAuthProvider {
    pub issuer_url: String,
    pub client_id: String,
    pub redirect_url: String,
}

impl RauthyAuthProvider {
    /// A provider for the given issuer, client id and redirect URL.
    pub fn new(issuer: &str, client_id: &str, redirect: &str) -> (r: Self)
        ensures
            r.issuer_url@ == issuer@,
            r.client_id@ == client_id@,
            r.redirect_url@ == redirect@,
    {
        RauthyAuthProvider {
            issuer_url: String::from_str(issuer),
            client_id: String::from_str(client_id),
            redirect_url: String::from_str(redirect),
        }
    }

    /// The session a successful login yields for its access token.
    pub fn session_for_token(&self, access_token: String) -> (r: UserSession)
        ensures
            r.user_id@ == "rauthed_user_123"@,
            r.email@ == "scholar@moribund.edu"@,
            r.access_token == access_token,
    {
        UserSession {
            user_id: String::from_str("rauthed_user_123"),
            email: String::from_str("scholar@moribund.edu"),
            access_token,
        }
    }

    /// Refreshes an expired session: a fresh access token is obtained by
    /// `reauthenticate` (the login flow, run again with the provider); the
    /// session keeps its user and email and carries the new token. A failed
    /// re-authentication is the refresh's error.
    pub fn refresh_session<F>(&self, session: &UserSession, reauthenticate: F) -> (r: Result<
        UserSession,
        String,
    >) where F: FnOnce() -> Result<String, String>,

        requires
            call_requires(reauthenticate, ()),
        ensures
            exists|res: Result<String, String>| #[trigger]
                call_ensures(reauthenticate, (), res) && match res {
                    Ok(token) => r matches Ok(s2) && s2.user_id == session.user_id && s2.email
                        == session.email && s2.access_token == token,
                    Err(e) => r == Err::<UserSession, String>(e),
                },
    {
        match reauthenticate() {
            Ok(token) => Ok(
                UserSession {
                    user_id: session.user_id.clone(),
                    email: session.email.clone(),
                    access_token: token,
                },
            ),
            Err(e) => Err(e),
        }
    }

    /// Ends the session remotely: its access token is handed to `revoke`,
    /// which revokes it at the provider; the outcome is the revocation's.
    /// Locally a session is a value of the caller's, which it drops.
    pub fn logout<F>(&self, session: &UserSession, revoke: F) -> (r: Result<(), String>) where
        F: FnOnce(String) -> Result<(), String>,

        requires
            call_requires(revoke, (session.access_token,)),
        ensures
            call_ensures(revoke, (session.access_token,), r),
    {
        revoke(session.access_token.clone())
    }
}

/// "code=", the query key of the authorization code.
pub open spec fn code_key() -> Seq<u8> {
    seq![0x63u8, 0x6fu8, 0x64u8, 0x65u8, 0x3du8]
}

/// "code=" starts at byte `i`.
pub open spec fn code_key_at(b: Seq<u8>, i: int) -> bool {
    0 <= i && i + 5 <= b.len() && b.subrange(i, i + 5) == code_key()
}

/// The first "code=" starts at byte `i`.
pub open spec fn first_code_key_at(b: Seq<u8>, i: int) -> bool {
    code_key_at(b, i) && forall|k: int| 0 <= k < i ==> !#[trigger] code_key_at(b, k)
}

/// Byte `j` is the first space at or after `from`.
pub open spec fn first_space_at(b: Seq<u8>, from: int, j: int) -> bool {
    from <= j < b.len() && b[j] == 0x20u8 && forall|k: int| from <= k < j ==> #[trigger] b[k] != 0x20u8
}

/// No space at or after `from`.
pub open spec fn no_space_from(b: Seq<u8>, from: int) -> bool {
    forall|k: int| from <= k < b.len() ==> #[trigger] b[k] != 0x20u8
}

/// The code spans bytes `s + 5 .. e`: it follows the first "code=" (at `s`)
/// and ends at the next space; with no space, the end is `s` plus the request
/// length.
pub open spec fn code_span(b: Seq<u8>, s: int, e: int) -> bool {
    &&& first_code_key_at(b, s)
    &&& (first_space_at(b, s, e) || (no_space_from(b, s) && e == s + b.len()))
}

proof fn lemma_ascii_then_leading(bytes: Seq<u8>, k: int)
    requires
        valid_utf8(bytes),
        0 < k < bytes.len(),
        bytes[k - 1] <= 0x7f,
    ensures
        !is_continuation_byte(bytes[k]),
    decreases bytes.len(),
{
    let l = length_of_first_scalar(bytes);
    let pop = pop_first_scalar(bytes);
    assert(vstd::utf8::valid_first_scalar(bytes));
    assert(valid_utf8(pop));
    assert(pop.len() == bytes.len() - l);
    if k < l {
        assert(bytes[k - 1] <= 0x7f);
        assert(false);
    } else if k == l {
        assert(pop[0] == bytes[k]);
        assert(pop.len() > 0);
        assert(vstd::utf8::valid_first_scalar(pop));
    } else {
        assert(pop[k - l - 1] == bytes[k - 1]);
        assert(pop[k - l] == bytes[k]);
        lemma_ascii_then_leading(pop, k - l);
    }
}

/// The first "code=" in the bytes, if any.
fn find_code_key(b: &[u8]) -> (r: Option<usize>)
    ensures
        r matches Some(i) ==> first_code_key_at(b@, i as int),
        r is None ==> forall|k: int| !#[trigger] code_key_at(b@, k),
{
    let ghost bs = b@;
    let n = b.len();
    let mut i: usize = 0;
    while n >= 5 && i <= n - 5
        invariant
            bs == b@,
            n == bs.len(),
            i <= n,
            forall|k: int| 0 <= k < i ==> !#[trigger] code_key_at(bs, k),
        decreases n - i,
    {
        if b[i] == 0x63 && b[i + 1] == 0x6f && b[i + 2] == 0x64 && b[i + 3] == 0x65 && b[i + 4] == 0x3d {
            assert(bs.subrange(i as int, i + 5) =~= code_key());
            return Some(i);
        }
        assert(!code_key_at(bs, i as int)) by {
            if code_key_at(bs, i as int) {
                assert(bs.subrange(i as int, i + 5)[0] == bs[i as int]);
                assert(bs.subrange(i as int, i + 5)[4] == bs[i + 4]);
                assert(bs.subrange(i as int, i + 5)[1] == bs[i + 1]);
                assert(bs.subrange(i as int, i + 5)[2] == bs[i + 2]);
                assert(bs.subrange(i as int, i + 5)[3] == bs[i + 3]);
            }
        }
        i = i + 1;
    }
    None
}

/// The first space at or after `from`, if any.
fn find_space(b: &[u8], from: usize) -> (r: Option<usize>)
    requires
        from <= b@.len(),
    ensures
        r matches Some(j) ==> first_space_at(b@, from as int, j as int),
        r is None ==> no_space_from(b@, from as int),
{
    let n = b.len();
    let mut j: usize = from;
    while j < n
        invariant
            n == b@.len(),
            from <= j <= n,
            forall|k: int| from <= k < j ==> #[trigger] b@[k] != 0x20u8,
        decreases n - j,
    {
        if b[j] == 0x20 {
            return Some(j);
        }
        j = j + 1;
    }
    None
}

/// Whether the authorization code would run past the end of the request: a
/// first "code=" after the start with no space behind it. (Reading such a
/// request, the redirect listener slices past the end and panics.)
pub fn code_runs_past_request(request: &str) -> (r: bool)
    ensures
        r == exists|s: int|
            #[trigger] first_code_key_at(request.spec_bytes(), s) && no_space_from(request.spec_bytes(), s)
                && s != 0,
{
    let b = request.as_bytes();
    match find_code_key(b) {
        None => false,
        Some(s) => {
            if s == 0 {
                proof {
                    assert forall|t: int| #[trigger] first_code_key_at(b@, t) implies t == 0 by {
                        if t > 0 {
                            assert(!code_key_at(b@, 0));
                        }
                    }
                }
                return false;
            }
            let sp = find_space(b, s);
            proof {
                assert forall|t: int| #[trigger] first_code_key_at(b@, t) implies t == s by {
                    if t < s {
                        assert(!code_key_at(b@, t));
                    } else if t > s {
                        assert(!code_key_at(b@, s as int));
                    }
                }
                if sp is Some {
                    assert(b@[sp->0 as int] == 0x20u8);
                }
            }
            sp.is_none()
        },
    }
}

/// The authorization code in the redirect request that the browser sends to
/// the local listener: the text after the first "code=" up to the next space.
pub fn auth_code_from_request(request: &str) -> (r: Option<String>)
    requires
        forall|s: int|
            first_code_key_at(request.spec_bytes(), s) && no_space_from(request.spec_bytes(), s)
                ==> s == 0,
    ensures
        r is None <==> forall|i: int| !#[trigger] code_key_at(request.spec_bytes(), i),
        r matches Some(c) ==> exists|s: int, e: int|
            #[trigger] code_span(request.spec_bytes(), s, e) && encode_utf8(c@)
                == request.spec_bytes().subrange(s + 5, e),
{
    let b = request.as_bytes();
    let ghost bs = request.spec_bytes();
    let n = b.len();
    proof {
        encode_utf8_valid_utf8(request@);
    }
    let s = match find_code_key(b) {
        Some(i) => i,
        None => {
            return None;
        },
    };
    assert(bs.subrange(s as int, s + 5) == code_key());
    assert(bs[s + 4] == 0x3du8) by {
        assert(bs.subrange(s as int, s + 5)[4] == bs[s + 4]);
    }
    let found_space = find_space(b, s);
    let space = found_space.is_some();
    let j: usize = match found_space {
        Some(j) => j,
        None => n,
    };
    let e: usize = if space {
        j
    } else {
        if s != 0 {
            // excluded by the precondition: the end would lie past the request
            assert(false);
        }
        n
    };
    assert(code_span(bs, s as int, e as int));
    assert(s + 5 <= e) by {
        if space {
            assert forall|k: int| s <= k < s + 5 implies bs[k] != 0x20u8 by {
                assert(bs.subrange(s as int, s + 5)[k - s] == bs[k]);
            }
        }
    }
    let a = s + 5;
    proof {
        is_char_boundary_start_end_of_seq(bs);
        if a < n {
            lemma_ascii_then_leading(bs, a as int);
            is_char_boundary_iff_not_is_continuation_byte(bs, a as int);
        }
        assert(is_char_boundary(bs, a as int));
        valid_utf8_split(bs, a as int);
    }
    let (_head, rest) = request.split_at(a);
    let ghost rb = rest.spec_bytes();
    assert(rb =~= bs.subrange(a as int, n as int));
    let m = e - a;
    proof {
        is_char_boundary_start_end_of_seq(rb);
        if m < rb.len() {
            assert(rb[m as int] == bs[e as int]);
            is_char_boundary_iff_not_is_continuation_byte(rb, m as int);
        }
        assert(is_char_boundary(rb, m as int));
    }
    let (code, _tail) = rest.split_at(m);
    let c = code.to_owned();
    assert(code.spec_bytes() =~= bs.subrange(a as int, e as int));
    Some(c)
}

} // verus!
