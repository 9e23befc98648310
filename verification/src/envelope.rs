//! Password envelope: Argon2 key derivation + ChaCha20-Poly1305, with a fresh
//! random salt and nonce per envelope.
use argon2::password_hash::SaltString;
use argon2::Argon2;
use chacha20poly1305::aead::Aead;
use chacha20poly1305::{ChaCha20Poly1305, KeyInit, Nonce};
use rand::rngs::OsRng;
use rand::RngCore;
use vstd::prelude::*;
use vstd::string::StringSliceAdditionalSpecFns;
use vstd::utf8::{decode_utf8, encode_utf8, encode_utf8_decode_utf8, encode_utf8_valid_utf8, is_ascii_chars, is_ascii_chars_encode_utf8, valid_utf8};

verus! {

/// The physical format of an encrypted payload: salt and nonce are public,
/// only the ciphertext is secret.
#[derive(Clone, Debug)]
pub struct EncryptedVault {
    pub salt: String,
    pub nonce: Vec<u8>,
    pub ciphertext: Vec<u8>,
}

/// Name for the 32-byte key that `Argon2::default().hash_password_into` derives.
pub uninterp spec fn argon2_key(password: Seq<u8>, salt: Seq<u8>) -> Seq<u8>;

/// Name for the ciphertext (with tag) of ChaCha20-Poly1305 under a key and a 12-byte nonce.
pub uninterp spec fn chacha_seal(key: Seq<u8>, nonce: Seq<u8>, msg: Seq<u8>) -> Seq<u8>;

/// Name for what ChaCha20-Poly1305 decrypts a ciphertext to (`None` when it does not authenticate).
pub uninterp spec fn chacha_open(key: Seq<u8>, nonce: Seq<u8>, ct: Seq<u8>) -> Option<Seq<u8>>;

/// A salt character of the PHC string format: `[a-zA-Z0-9/+.-]`.
pub open spec fn is_salt_char(c: char) -> bool {
    ('a' <= c <= 'z') || ('A' <= c <= 'Z') || ('0' <= c <= '9') || c == '/' || c == '+' || c
        == '.' || c == '-'
}

/// What `SaltString::from_b64` accepts: 4 to 64 salt characters.
pub open spec fn salt_b64_valid(s: Seq<char>) -> bool {
    &&& 4 <= s.len() <= 64
    &&& forall|i: int| 0 <= i < s.len() ==> is_salt_char(#[trigger] s[i])
}

/// What Argon2 accepts: a password of at most `u32::MAX` bytes and a salt of 8 to `u32::MAX` bytes.
pub open spec fn argon2_accepts(password: Seq<u8>, salt: Seq<u8>) -> bool {
    &&& password.len() <= 0xFFFF_FFFF
    &&& 8 <= salt.len() <= 0xFFFF_FFFF
}

/// `env` is the envelope of `plaintext` under `password`, as `seal` makes it.
pub open spec fn envelope_of(env: EncryptedVault, password: Seq<u8>, plaintext: Seq<u8>) -> bool {
    let salt = encode_utf8(env.salt@);
    &&& salt_b64_valid(env.salt@)
    &&& argon2_accepts(password, salt)
    &&& env.nonce@.len() == 12
    &&& env.ciphertext@ == chacha_seal(argon2_key(password, salt), env.nonce@, plaintext)
}

/// `Argon2::default().hash_password_into(password, salt, &mut key)`.
/// Trusted: fails exactly when Argon2's input limits are exceeded, the
/// password checked first, with the text of the argon2 error; otherwise the
/// key is the named Argon2id output.
#[verifier::external_body]
fn derive_key(password: &str, salt_bytes: &[u8]) -> (r: Result<[u8; 32], String>)
    ensures
        r is Ok <==> argon2_accepts(password.spec_bytes(), salt_bytes@),
        r matches Ok(k) ==> k@ == argon2_key(password.spec_bytes(), salt_bytes@),
        password.spec_bytes().len() > 0xFFFF_FFFF ==> r is Err && r->Err_0@
            == "Key derivation failed: password is too long"@,
        password.spec_bytes().len() <= 0xFFFF_FFFF && salt_bytes@.len() < 8 ==> r is Err
            && r->Err_0@ == "Key derivation failed: salt is too short"@,
        password.spec_bytes().len() <= 0xFFFF_FFFF && salt_bytes@.len() > 0xFFFF_FFFF ==> r is Err
            && r->Err_0@ == "Key derivation failed: salt is too long"@,
{
    let mut key = [0u8; 32];
    Argon2::default()
        .hash_password_into(password.as_bytes(), salt_bytes, &mut key)
        .map_err(|e| format!("Key derivation failed: {}", e))?;
    Ok(key)
}

/// `SaltString::generate(&mut OsRng)`, as a string. Trusted: 16 random bytes
/// in B64, i.e. 22 salt characters.
#[verifier::external_body]
fn generate_salt() -> (r: String)
    ensures
        salt_b64_valid(r@),
        r@.len() == 22,
{
    SaltString::generate(&mut OsRng).as_str().to_string()
}

/// `SaltString::from_b64(s)`, as a string. Trusted: accepts exactly
/// `salt_b64_valid` strings, unchanged.
#[verifier::external_body]
fn parse_salt(s: &str) -> (r: Option<String>)
    ensures
        r is Some <==> salt_b64_valid(s@),
        r matches Some(t) ==> t@ == s@,
{
    SaltString::from_b64(s).ok().map(|t| t.as_str().to_string())
}

/// `OsRng.fill_bytes` on a fresh 12-byte nonce.
#[verifier::external_body]
fn random_nonce() -> (r: [u8; 12]) {
    let mut n = [0u8; 12];
    OsRng.fill_bytes(&mut n);
    n
}

/// `ChaCha20Poly1305::new(key).encrypt(Nonce::from_slice(nonce), msg)`.
/// Trusted: the named ciphertext, the message length plus a 16-byte tag;
/// refused only for messages of 2^32 - 1 blocks of 64 bytes or more.
#[verifier::external_body]
fn aead_encrypt(key: &[u8; 32], nonce: &[u8; 12], msg: &[u8]) -> (r: Option<Vec<u8>>)
    ensures
        r is Some <==> msg@.len() / 64 < 0xFFFF_FFFF,
        r matches Some(c) ==> c@ == chacha_seal(key@, nonce@, msg@),
        r matches Some(c) ==> c@.len() == msg@.len() + 16,
{
    ChaCha20Poly1305::new(key.into()).encrypt(Nonce::from_slice(nonce), msg).ok()
}

/// `ChaCha20Poly1305::new(key).decrypt(Nonce::from_slice(nonce), ct)`.
/// Trusted: the named decryption; a ciphertext sealed under the same key and
/// nonce decrypts to its message (AEAD correctness).
#[verifier::external_body]
fn aead_decrypt(key: &[u8; 32], nonce: &[u8], ct: &[u8]) -> (r: Option<Vec<u8>>)
    requires
        nonce@.len() == 12,
    ensures
        r matches Some(p) ==> chacha_open(key@, nonce@, ct@) == Some(p@),
        r is None ==> chacha_open(key@, nonce@, ct@) is None,
        r is None ==> forall|m: Seq<u8>| #[trigger] chacha_seal(key@, nonce@, m) != ct@,
        r matches Some(p) ==> forall|m: Seq<u8>| #[trigger] chacha_seal(key@, nonce@, m) == ct@ ==> p@ == m,
{
    ChaCha20Poly1305::new(key.into()).decrypt(Nonce::from_slice(nonce), ct).ok()
}

/// `String::from_utf8`. Trusted as std documents it: succeeds exactly on
/// valid UTF-8, with the decoded characters.
#[verifier::external_body]
fn utf8_string(bytes: Vec<u8>) -> (r: Option<String>)
    ensures
        r is Some <==> valid_utf8(bytes@),
        r matches Some(s) ==> s@ == decode_utf8(bytes@),
{
    String::from_utf8(bytes).ok()
}

/// A salt string is ASCII: its UTF-8 bytes are as many as its characters.
proof fn lemma_salt_bytes(salt: Seq<char>)
    requires
        salt_b64_valid(salt),
    ensures
        encode_utf8(salt).len() == salt.len(),
{
    assert(is_ascii_chars(salt)) by {
        assert forall|i: int| 0 <= i < salt.len() implies '\0' <= #[trigger] salt[i] <= '\u{7f}' by {
            assert(is_salt_char(salt[i]));
        }
    }
    is_ascii_chars_encode_utf8(salt);
}

/// Encrypts bytes with a password: fresh random salt and nonce, Argon2 key,
/// ChaCha20-Poly1305.
pub fn seal(plaintext: &[u8], password: &str) -> (r: Result<EncryptedVault, String>)
    ensures
        r is Ok <==> password.spec_bytes().len() <= 0xFFFF_FFFF && plaintext@.len() / 64
            < 0xFFFF_FFFF,
        r matches Ok(env) ==> envelope_of(env, password.spec_bytes(), plaintext@),
        r matches Ok(env) ==> env.salt@.len() == 22 && env.ciphertext@.len() == plaintext@.len() + 16,
        password.spec_bytes().len() > 0xFFFF_FFFF ==> (r matches Err(e) && e@
            == "Key derivation failed: password is too long"@),
        password.spec_bytes().len() <= 0xFFFF_FFFF && !(plaintext@.len() / 64 < 0xFFFF_FFFF) ==> (
        r matches Err(e) && e@ == "Encryption failed"@),
{
    let salt = generate_salt();
    let nonce = random_nonce();
    proof {
        lemma_salt_bytes(salt@);
    }
    seal_with(plaintext, password, salt, nonce)
}

/// Encrypts bytes with a password under exactly the given salt and nonce (as
/// `seal` draws them): Argon2 key from the password and the salt,
/// ChaCha20-Poly1305 under that key and the nonce.
pub fn seal_with(plaintext: &[u8], password: &str, salt: String, nonce: [u8; 12]) -> (r: Result<
    EncryptedVault,
    String,
>)
    requires
        salt_b64_valid(salt@),
    ensures
        r is Ok <==> argon2_accepts(password.spec_bytes(), encode_utf8(salt@)) && plaintext@.len() / 64
            < 0xFFFF_FFFF,
        r matches Ok(env) ==> env.salt == salt && env.nonce@ == nonce@ && envelope_of(
            env,
            password.spec_bytes(),
            plaintext@,
        ),
        r matches Ok(env) ==> env.ciphertext@.len() == plaintext@.len() + 16,
        password.spec_bytes().len() > 0xFFFF_FFFF ==> (r matches Err(e) && e@
            == "Key derivation failed: password is too long"@),
        password.spec_bytes().len() <= 0xFFFF_FFFF && salt@.len() < 8 ==> (r matches Err(e) && e@
            == "Key derivation failed: salt is too short"@),
        argon2_accepts(password.spec_bytes(), encode_utf8(salt@)) && !(plaintext@.len() / 64
            < 0xFFFF_FFFF) ==> (r matches Err(e) && e@ == "Encryption failed"@),
{
    proof {
        lemma_salt_bytes(salt@);
    }
    let key = derive_key(password, salt.as_str().as_bytes())?;
    let ciphertext = match aead_encrypt(&key, &nonce, plaintext) {
        Some(c) => c,
        None => {
            return Err(String::from_str("Encryption failed"));
        },
    };
    let nonce_vec = nonce_to_vec(&nonce);
    Ok(EncryptedVault { salt, nonce: nonce_vec, ciphertext })
}

fn nonce_to_vec(n: &[u8; 12]) -> (r: Vec<u8>)
    ensures
        r@ == n@,
{
    let mut v: Vec<u8> = Vec::new();
    let mut i: usize = 0;
    while i < 12
        invariant
            i <= 12,
            v@ == n@.take(i as int),
        decreases 12 - i,
    {
        v.push(n[i]);
        i = i + 1;
        assert(v@ =~= n@.take(i as int));
    }
    assert(n@.take(12) =~= n@);
    v
}

/// Opening the envelope with the password gets as far as the cipher: the
/// salt parses and Argon2 accepts the password and the salt. Only then is
/// the nonce used.
pub open spec fn reaches_cipher(env: EncryptedVault, password: Seq<u8>) -> bool {
    salt_b64_valid(env.salt@) && argon2_accepts(password, encode_utf8(env.salt@))
}

/// Whether opening the envelope with the password gets as far as the cipher,
/// where the nonce must be 12 bytes.
pub fn open_reaches_cipher(env: &EncryptedVault, password: &str) -> (r: bool)
    ensures
        r == reaches_cipher(*env, password.spec_bytes()),
{
    let salt = match parse_salt(env.salt.as_str()) {
        Some(s) => s,
        None => {
            return false;
        },
    };
    proof {
        lemma_salt_bytes(salt@);
    }
    let n = salt.as_str().as_bytes().len();
    let p = password.as_bytes().len();
    (p as u64) <= 0xFFFF_FFFFu64 && 8 <= n && (n as u64) <= 0xFFFF_FFFFu64
}

/// What opening an envelope with a password gives, once the salt has parsed.
pub open spec fn opened_envelope(env: EncryptedVault, password: Seq<u8>) -> Option<Seq<u8>> {
    chacha_open(argon2_key(password, encode_utf8(env.salt@)), env.nonce@, env.ciphertext@)
}

/// Decrypts an envelope produced by `seal`.
pub fn open(env: &EncryptedVault, password: &str) -> (r: Result<Vec<u8>, String>)
    requires
        reaches_cipher(*env, password.spec_bytes()) ==> env.nonce@.len() == 12,
    ensures
        !salt_b64_valid(env.salt@) ==> (r matches Err(e) && e@ == "Invalid salt format"@),
        salt_b64_valid(env.salt@) ==> (r is Ok <==> argon2_accepts(
            password.spec_bytes(),
            encode_utf8(env.salt@),
        ) && opened_envelope(*env, password.spec_bytes()) is Some),
        r matches Ok(p) ==> opened_envelope(*env, password.spec_bytes()) == Some(p@),
        salt_b64_valid(env.salt@) && password.spec_bytes().len() > 0xFFFF_FFFF ==> (r matches Err(e)
            && e@ == "Key derivation failed: password is too long"@),
        salt_b64_valid(env.salt@) && password.spec_bytes().len() <= 0xFFFF_FFFF && env.salt@.len()
            < 8 ==> (r matches Err(e) && e@ == "Key derivation failed: salt is too short"@),
        salt_b64_valid(env.salt@) && argon2_accepts(password.spec_bytes(), encode_utf8(env.salt@))
            && opened_envelope(*env, password.spec_bytes()) is None ==> (r matches Err(e) && e@
            == "Wrong password or corrupted data"@),
        forall|m: Seq<u8>| #[trigger] envelope_of(*env, password.spec_bytes(), m) ==> (r matches Ok(p) && p@ == m),
{
    let salt = match parse_salt(env.salt.as_str()) {
        Some(s) => s,
        None => {
            return Err(String::from_str("Invalid salt format"));
        },
    };
    proof {
        lemma_salt_bytes(salt@);
    }
    let key = derive_key(password, salt.as_str().as_bytes())?;
    match aead_decrypt(&key, env.nonce.as_slice(), env.ciphertext.as_slice()) {
        Some(p) => Ok(p),
        None => Err(String::from_str("Wrong password or corrupted data")),
    }
}

/// Encrypts a JSON string with a password into a self-contained envelope.
pub fn encrypt_vault(json_data: &str, password: &str) -> (r: Result<EncryptedVault, String>)
    ensures
        r is Ok <==> password.spec_bytes().len() <= 0xFFFF_FFFF && json_data.spec_bytes().len()
            / 64 < 0xFFFF_FFFF,
        r matches Ok(env) ==> envelope_of(env, password.spec_bytes(), json_data.spec_bytes()),
        r matches Ok(env) ==> env.salt@.len() == 22 && env.ciphertext@.len() == json_data.spec_bytes().len()
            + 16,
{
    seal(json_data.as_bytes(), password)
}

/// The JSON string an envelope opens to under a password, if it opens: the
/// salt parses, Argon2 accepts the inputs, the ciphertext authenticates and
/// the plaintext is UTF-8.
pub open spec fn vault_json(env: EncryptedVault, password: Seq<u8>) -> Option<Seq<char>> {
    if salt_b64_valid(env.salt@) && argon2_accepts(password, encode_utf8(env.salt@))
        && opened_envelope(env, password) is Some && valid_utf8(opened_envelope(env, password)->0) {
        Some(decode_utf8(opened_envelope(env, password)->0))
    } else {
        None
    }
}

/// Decrypts an envelope produced by `encrypt_vault` back into its JSON string.
pub fn decrypt_vault(env: &EncryptedVault, password: &str) -> (r: Result<String, String>)
    requires
        reaches_cipher(*env, password.spec_bytes()) ==> env.nonce@.len() == 12,
    ensures
        !salt_b64_valid(env.salt@) ==> (r matches Err(e) && e@ == "Invalid salt format"@),
        r matches Ok(s) ==> opened_envelope(*env, password.spec_bytes()) == Some(encode_utf8(s@)),
        salt_b64_valid(env.salt@) ==> (r is Ok <==> argon2_accepts(
            password.spec_bytes(),
            encode_utf8(env.salt@),
        ) && opened_envelope(*env, password.spec_bytes()) is Some && valid_utf8(
            opened_envelope(*env, password.spec_bytes())->0,
        )),
        salt_b64_valid(env.salt@) && argon2_accepts(password.spec_bytes(), encode_utf8(env.salt@))
            && opened_envelope(*env, password.spec_bytes()) is Some && !valid_utf8(
            opened_envelope(*env, password.spec_bytes())->0,
        ) ==> (
        r matches Err(e) && e@ == "Invalid UTF-8 after decryption"@),
        salt_b64_valid(env.salt@) && password.spec_bytes().len() > 0xFFFF_FFFF ==> (r matches Err(e)
            && e@ == "Key derivation failed: password is too long"@),
        salt_b64_valid(env.salt@) && password.spec_bytes().len() <= 0xFFFF_FFFF && env.salt@.len()
            < 8 ==> (r matches Err(e) && e@ == "Key derivation failed: salt is too short"@),
        r is Ok <==> vault_json(*env, password.spec_bytes()) is Some,
        r matches Ok(s) ==> vault_json(*env, password.spec_bytes()) == Some(s@),
        forall|s: Seq<char>|
            #[trigger] envelope_of(*env, password.spec_bytes(), encode_utf8(s)) ==> (r matches Ok(t)
                && t@ == s),
{
    let plaintext = open(env, password)?;
    let ghost bytes = plaintext@;
    proof {
        assert forall|s: Seq<char>| #[trigger]
            envelope_of(*env, password.spec_bytes(), encode_utf8(s)) implies bytes == encode_utf8(s)
            && valid_utf8(bytes) && decode_utf8(bytes) == s by {
            encode_utf8_valid_utf8(s);
            encode_utf8_decode_utf8(s);
        }
    }
    match utf8_string(plaintext) {
        Some(s) => {
            proof {
                vstd::utf8::decode_utf8_encode_utf8(bytes);
            }
            assert(vault_json(*env, password.spec_bytes()) == Some(s@));
            Ok(s)
        },
        None => Err(String::from_str("Invalid UTF-8 after decryption")),
    }
}

/// The local file-system cryptography provider: the path of the encrypted
/// vault file and, during a session, the password that unlocked it.
pub struct LocalCryptoProvider {
    pub path: String,
    pub session_password: Option<String>,
}

impl LocalCryptoProvider {
    /// A provider for the vault file at `path`, with no active session.
    pub fn new(path: String) -> (r: Self)
        ensures
            r.path == path,
            r.session_password is None,
    {
        LocalCryptoProvider { path, session_password: None }
    }

    /// Starts a session. With no vault file yet (`stored` is `None`) the
    /// password becomes the new vault's and `Ok(None)` says to start from an
    /// empty vault; otherwise the stored envelope is decrypted to its JSON, and
    /// the password is kept only if that succeeds.
    pub fn authenticate(&mut self, stored: Option<&EncryptedVault>, credentials: &str) -> (r: Result<
        Option<String>,
        String,
    >)
        requires
            stored matches Some(env) ==> (reaches_cipher(*env, credentials.spec_bytes()) ==> env.nonce@.len() == 12),
        ensures
            final(self).path == old(self).path,
            stored is None ==> r == Ok::<Option<String>, String>(None),
            stored matches Some(env) ==> (r is Ok <==> vault_json(*env, credentials.spec_bytes()) is Some),
            stored matches Some(env) ==> (r matches Ok(j) ==> (j matches Some(s) && vault_json(
                *env,
                credentials.spec_bytes(),
            ) == Some(s@))),
            stored matches Some(env) ==> forall|s: Seq<char>|
                #[trigger] envelope_of(*env, credentials.spec_bytes(), encode_utf8(s)) ==> (r matches Ok(
                    j,
                ) && j matches Some(t) && t@ == s),
            r is Ok ==> (final(self).session_password matches Some(p) && p@ == credentials@),
            r is Err ==> final(self).session_password == old(self).session_password,
    {
        match stored {
            None => {
                self.session_password = Some(String::from_str(credentials));
                Ok(None)
            },
            Some(env) => {
                let json = decrypt_vault(env, credentials)?;
                self.session_password = Some(String::from_str(credentials));
                Ok(Some(json))
            },
        }
    }

    /// Seals the vault's JSON for saving under the session's password; without
    /// a session there is nothing to seal with.
    pub fn seal_for_save(&self, json: &str) -> (r: Result<EncryptedVault, String>)
        ensures
            self.session_password is None ==> (r matches Err(e) && e@
                == "No active session. Please authenticate first."@),
            self.session_password matches Some(pw) ==> (r is Ok <==> encode_utf8(pw@).len()
                <= 0xFFFF_FFFF && json.spec_bytes().len() / 64 < 0xFFFF_FFFF),
            self.session_password matches Some(pw) ==> (r matches Ok(env) ==> envelope_of(
                env,
                encode_utf8(pw@),
                json.spec_bytes(),
            )),
    {
        match &self.session_password {
            None => Err(String::from_str("No active session. Please authenticate first.")),
            Some(pw) => encrypt_vault(json, pw.as_str()),
        }
    }
}

} // verus!
