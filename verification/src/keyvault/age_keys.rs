//! Keyslots: the DEK manifest wrapped with age, either to X25519 device
//! recipients (`.keys.devices`) or to a scrypt passphrase (`.keys.passphrase`).
use std::io::{Read, Write};

use age::secrecy::{ExposeSecret, SecretString};
use age::x25519;
use rand::RngCore;
use vstd::prelude::*;

use crate::keyvault::format::VaultError;

verus! {

/// A key that can try to open a keyslot file.
#[derive(Clone, Debug)]
pub enum UnlockKey {
    /// An age X25519 identity in its `AGE-SECRET-KEY-1...` encoding.
    Device(String),
    /// An age scrypt passphrase.
    Passphrase(String),
}

/// Name for the `age1...` encoding of the public recipient of an age X25519
/// identity string (`None` when the string does not parse as an identity).
pub uninterp spec fn age_x25519_public(identity: Seq<char>) -> Option<Seq<char>>;

/// Name for whether a string parses as an age X25519 recipient.
pub uninterp spec fn age_x25519_recipient_valid(recipient: Seq<char>) -> bool;

/// Name for what age decrypts an age file to with a list of X25519
/// identities (`None` when the file does not open with them).
pub uninterp spec fn age_x25519_open(identities: Seq<Seq<char>>, file: Seq<u8>) -> Option<Seq<u8>>;

/// Name for what an age file decrypts to under a scrypt passphrase, as far
/// as the passphrase and the file decide it (`None` when the file does not
/// open under the passphrase). Whether a given machine completes the
/// decryption also depends on the scrypt work factor it accepts; when it
/// does, the plaintext is this one.
pub uninterp spec fn age_scrypt_open(passphrase: Seq<char>, file: Seq<u8>) -> Option<Seq<u8>>;

/// The passphrase of a key list that is one passphrase key.
pub open spec fn single_passphrase(keys: Seq<UnlockKey>) -> Option<Seq<char>> {
    if keys.len() == 1 && keys[0] is Passphrase {
        Some(keys[0]->Passphrase_0@)
    } else {
        None
    }
}

/// Every key is a device identity that parses.
pub open spec fn valid_device_keys(keys: Seq<UnlockKey>) -> bool {
    forall|i: int|
        0 <= i < keys.len() ==> (#[trigger] keys[i] matches UnlockKey::Device(s)
            && age_x25519_public(s@) is Some)
}

/// The identity strings of a list of device keys.
pub open spec fn device_secrets(keys: Seq<UnlockKey>) -> Seq<Seq<char>> {
    keys.map_values(
        |k: UnlockKey|
            match k {
                UnlockKey::Device(s) => s@,
                UnlockKey::Passphrase(p) => p@,
            },
    )
}

/// Some key is a device identity that does not parse.
pub open spec fn has_invalid_device_key(keys: Seq<UnlockKey>) -> bool {
    exists|i: int|
        0 <= i < keys.len() && (#[trigger] keys[i] matches UnlockKey::Device(s)
            && age_x25519_public(s@) is None)
}

/// All identities parse and one of them is the identity of one of the recipients.
pub open spec fn unlocks(identities: Seq<Seq<char>>, recipients: Seq<Seq<char>>) -> bool {
    &&& forall|i: int| 0 <= i < identities.len() ==> (#[trigger] age_x25519_public(identities[i])) is Some
    &&& exists|i: int, j: int|
        0 <= i < identities.len() && 0 <= j < recipients.len() && #[trigger] age_x25519_public(
            identities[i],
        ) == Some(#[trigger] recipients[j])
}

/// The views of a list of recipient strings.
pub open spec fn strings_view(v: Seq<String>) -> Seq<Seq<char>> {
    v.map_values(|s: String| s@)
}

/// Every recipient string parses.
pub open spec fn all_recipients_valid(recipients: Seq<Seq<char>>) -> bool {
    forall|i: int| 0 <= i < recipients.len() ==> age_x25519_recipient_valid(#[trigger] recipients[i])
}

/// `x25519::Identity::from_str` followed by `to_public().to_string()`.
/// Trusted: the result is the named public recipient of the identity, and
/// that recipient string parses as a recipient again.
#[verifier::external_body]
pub(crate) fn age_public_of(identity: &str) -> (r: Option<String>)
    ensures
        r is Some <==> age_x25519_public(identity@) is Some,
        r matches Some(p) ==> age_x25519_public(identity@) == Some(p@),
        r matches Some(p) ==> age_x25519_recipient_valid(p@),
{
    identity.parse::<x25519::Identity>().ok().map(|id| id.to_public().to_string())
}

/// `x25519::Identity::generate().to_string()`: a fresh random device identity.
/// Trusted: the string parses as an identity again.
#[verifier::external_body]
pub(crate) fn age_generate_identity() -> (r: String)
    ensures
        age_x25519_public(r@) is Some,
{
    x25519::Identity::generate().to_string().expose_secret().to_string()
}

/// The 52 bech32 data characters (before the checksum) of the X25519
/// public keys of small order: u = 0, 1, the two points of order 8, p - 1,
/// p and p + 1, each also with the ignored top bit set. A key agreement with
/// any of them gives the all-zero shared secret; with any other key it does
/// not.
pub open spec fn low_order_data() -> Seq<Seq<char>> {
    seq![
        "qqqqqqqqqqqqqqqqqqqqqqqqqqqqqqqqqqqqqqqqqqqqqqqqqqqq"@,
        "qqqqqqqqqqqqqqqqqqqqqqqqqqqqqqqqqqqqqqqqqqqqqqqqqzqq"@,
        "qyqqqqqqqqqqqqqqqqqqqqqqqqqqqqqqqqqqqqqqqqqqqqqqqqqq"@,
        "qyqqqqqqqqqqqqqqqqqqqqqqqqqqqqqqqqqqqqqqqqqqqqqqqzqq"@,
        "ur4h5lpmgxu2u9jku0a0r87ydtdqnr0tnsetrlvxvgz3vh6fhqqq"@,
        "ur4h5lpmgxu2u9jku0a0r87ydtdqnr0tnsetrlvxvgz3vh6fhzqq"@,
        "t7wft09r2zxzfvwsk92eeql0tvzyghxytqwgapkcyf8dm5ylz9ts"@,
        "t7wft09r2zxzfvwsk92eeql0tvzyghxytqwgapkcyf8dm5ylz8ts"@,
        "anlllllllllllllllllllllllllllllllllllllllllllllllals"@,
        "anllllllllllllllllllllllllllllllllllllllllllllllllls"@,
        "ahlllllllllllllllllllllllllllllllllllllllllllllllals"@,
        "ahllllllllllllllllllllllllllllllllllllllllllllllllls"@,
        "amlllllllllllllllllllllllllllllllllllllllllllllllals"@,
        "amllllllllllllllllllllllllllllllllllllllllllllllllls"@
    ]
}

/// `c` with ASCII upper case folded to lower case.
pub open spec fn ascii_lower(c: char) -> char {
    if 'A' <= c <= 'Z' {
        ((c as u8) + 32) as char
    } else {
        c
    }
}

/// A recipient string whose key is one of the small-order points: an
/// `age1` string of 62 characters whose data characters are, case folded,
/// one of `low_order_data()`.
pub open spec fn is_low_order_recipient(s: Seq<char>) -> bool {
    s.len() == 62 && low_order_data().contains(s.subrange(4, 56).map_values(|c: char| ascii_lower(c)))
}

/// No recipient is a small-order point.
pub open spec fn no_low_order(recipients: Seq<Seq<char>>) -> bool {
    forall|i: int| 0 <= i < recipients.len() ==> !is_low_order_recipient(#[trigger] recipients[i])
}

fn fold_char(c: char) -> (r: char)
    ensures
        r == ascii_lower(c),
{
    if 'A' <= c && c <= 'Z' {
        ((c as u8) + 32) as char
    } else {
        c
    }
}

/// The data characters of `s` (from position 4) are, case folded, `t`.
fn data_is(s: &str, t: &str) -> (r: bool)
    requires
        s@.len() == 62,
    ensures
        r == (s@.subrange(4, 56).map_values(|c: char| ascii_lower(c)) == t@),
{
    let ghost folded = s@.subrange(4, 56).map_values(|c: char| ascii_lower(c));
    if t.unicode_len() != 52 {
        return false;
    }
    let mut k: usize = 0;
    while k < 52
        invariant
            s@.len() == 62,
            t@.len() == 52,
            folded == s@.subrange(4, 56).map_values(|c: char| ascii_lower(c)),
            k <= 52,
            forall|j: int| 0 <= j < k ==> folded[j] == t@[j],
        decreases 52 - k,
    {
        if fold_char(s.get_char(k + 4)) != t.get_char(k) {
            assert(folded[k as int] != t@[k as int]);
            return false;
        }
        k = k + 1;
    }
    assert(folded =~= t@);
    true
}

/// Whether a recipient string's key is a small-order point.
pub fn low_order_recipient(s: &str) -> (r: bool)
    ensures
        r == is_low_order_recipient(s@),
{
    if s.unicode_len() != 62 {
        return false;
    }
    let mut v: Vec<&str> = Vec::new();
    v.push("qqqqqqqqqqqqqqqqqqqqqqqqqqqqqqqqqqqqqqqqqqqqqqqqqqqq");
    v.push("qqqqqqqqqqqqqqqqqqqqqqqqqqqqqqqqqqqqqqqqqqqqqqqqqzqq");
    v.push("qyqqqqqqqqqqqqqqqqqqqqqqqqqqqqqqqqqqqqqqqqqqqqqqqqqq");
    v.push("qyqqqqqqqqqqqqqqqqqqqqqqqqqqqqqqqqqqqqqqqqqqqqqqqzqq");
    v.push("ur4h5lpmgxu2u9jku0a0r87ydtdqnr0tnsetrlvxvgz3vh6fhqqq");
    v.push("ur4h5lpmgxu2u9jku0a0r87ydtdqnr0tnsetrlvxvgz3vh6fhzqq");
    v.push("t7wft09r2zxzfvwsk92eeql0tvzyghxytqwgapkcyf8dm5ylz9ts");
    v.push("t7wft09r2zxzfvwsk92eeql0tvzyghxytqwgapkcyf8dm5ylz8ts");
    v.push("anlllllllllllllllllllllllllllllllllllllllllllllllals");
    v.push("anllllllllllllllllllllllllllllllllllllllllllllllllls");
    v.push("ahlllllllllllllllllllllllllllllllllllllllllllllllals");
    v.push("ahllllllllllllllllllllllllllllllllllllllllllllllllls");
    v.push("amlllllllllllllllllllllllllllllllllllllllllllllllals");
    v.push("amllllllllllllllllllllllllllllllllllllllllllllllllls");
    assert(v@.map_values(|t: &str| t@) =~= low_order_data());
    let ghost folded = s@.subrange(4, 56).map_values(|c: char| ascii_lower(c));
    let mut j: usize = 0;
    while j < v.len()
        invariant
            s@.len() == 62,
            v@.map_values(|t: &str| t@) == low_order_data(),
            folded == s@.subrange(4, 56).map_values(|c: char| ascii_lower(c)),
            j <= v@.len(),
            forall|i: int| 0 <= i < j ==> low_order_data()[i] != folded,
        decreases v@.len() - j,
    {
        if data_is(s, v[j]) {
            assert(low_order_data()[j as int] == folded);
            return true;
        }
        j = j + 1;
    }
    assert(!low_order_data().contains(folded)) by {
        if low_order_data().contains(folded) {
            let i = choose|i: int| 0 <= i < low_order_data().len() && low_order_data()[i] == folded;
            assert(low_order_data()[i] != folded);
        }
    }
    false
}

/// `s.parse::<x25519::Recipient>().is_ok()`. Trusted: the named validity.
#[verifier::external_body]
pub(crate) fn age_recipient_valid(s: &str) -> (r: bool)
    ensures
        r == age_x25519_recipient_valid(s@),
{
    s.parse::<x25519::Recipient>().is_ok()
}

/// `age::Encryptor::with_recipients` over the parsed X25519 recipients,
/// writing `msg` into a fresh age file. Trusted: with at least one recipient,
/// all parsing, none of small order (age panics when a key agreement gives
/// the all-zero secret), the call succeeds; the file opens, to `msg`, with
/// any list of identities that holds the identity of one of the recipients,
/// and under no passphrase (it holds no scrypt stanza, and a scrypt identity
/// leaves other stanzas alone).
#[verifier::external_body]
fn age_encrypt_to_devices(msg: &[u8], recipients: &[String]) -> (r: Vec<u8>)
    requires
        recipients@.len() > 0,
        all_recipients_valid(strings_view(recipients@)),
        no_low_order(strings_view(recipients@)),
    ensures
        forall|ids: Seq<Seq<char>>|
            #[trigger] unlocks(ids, strings_view(recipients@)) ==> age_x25519_open(ids, r@) == Some(
                msg@,
            ),
        forall|pw: Seq<char>| #[trigger] age_scrypt_open(pw, r@) is None,
{
    let rs: Vec<x25519::Recipient> = recipients.iter().map(|s| s.parse().expect("checked")).collect();
    let enc = age::Encryptor::with_recipients(rs.iter().map(|r| r as &dyn age::Recipient)).expect("checked");
    let mut out = Vec::new();
    let mut w = enc.wrap_output(&mut out).expect("writing to a Vec");
    w.write_all(msg).expect("writing to a Vec");
    w.finish().expect("writing to a Vec");
    out
}

/// The recipients can wrap a keyslot: at least one, all parsing, none of
/// small order.
pub open spec fn recipients_usable(recipients: Seq<Seq<char>>) -> bool {
    recipients.len() > 0 && all_recipients_valid(recipients) && no_low_order(recipients)
}

/// Wraps `msg` into an age file for the device recipients. Refuses a
/// recipient that does not parse, then an empty list, then a recipient of
/// small order.
pub(crate) fn encrypt_to_devices(msg: &[u8], recipients: &[String]) -> (r: Result<Vec<u8>, VaultError>)
    ensures
        !all_recipients_valid(strings_view(recipients@)) ==> r matches Err(VaultError::InvalidRecipient),
        all_recipients_valid(strings_view(recipients@)) && recipients@.len() == 0 ==> r matches Err(
            VaultError::NoRecipients,
        ),
        all_recipients_valid(strings_view(recipients@)) && recipients@.len() > 0 && !no_low_order(
            strings_view(recipients@),
        ) ==> r matches Err(VaultError::LowOrderRecipient),
        recipients_usable(strings_view(recipients@)) ==> r is Ok,
        r matches Ok(f) ==> recipients_usable(strings_view(recipients@)) && forall|ids: Seq<Seq<char>>|
            #[trigger] unlocks(ids, strings_view(recipients@)) ==> age_x25519_open(ids, f@) == Some(
                msg@,
            ),
        r matches Ok(f) ==> forall|pw: Seq<char>| #[trigger] age_scrypt_open(pw, f@) is None,
{
    let n = recipients.len();
    let mut i: usize = 0;
    while i < n
        invariant
            n == recipients@.len(),
            i <= n,
            forall|k: int| 0 <= k < i ==> age_x25519_recipient_valid(#[trigger] strings_view(recipients@)[k]),
        decreases n - i,
    {
        if !age_recipient_valid(recipients[i].as_str()) {
            assert(!age_x25519_recipient_valid(strings_view(recipients@)[i as int]));
            return Err(VaultError::InvalidRecipient);
        }
        i = i + 1;
    }
    assert(all_recipients_valid(strings_view(recipients@)));
    if n == 0 {
        return Err(VaultError::NoRecipients);
    }
    let mut i: usize = 0;
    while i < n
        invariant
            n == recipients@.len(),
            i <= n,
            n > 0,
            all_recipients_valid(strings_view(recipients@)),
            forall|k: int| 0 <= k < i ==> !is_low_order_recipient(#[trigger] strings_view(recipients@)[k]),
        decreases n - i,
    {
        if low_order_recipient(recipients[i].as_str()) {
            assert(is_low_order_recipient(strings_view(recipients@)[i as int]));
            return Err(VaultError::LowOrderRecipient);
        }
        i = i + 1;
    }
    Ok(age_encrypt_to_devices(msg, recipients))
}

/// `age::Encryptor::with_user_passphrase` writing `msg` into a fresh age
/// file. Trusted: the file opens under the passphrase to `msg`. (Its scrypt
/// work factor is calibrated against the speed of the machine that writes
/// it; whether another run completes the decryption is not stated.)
#[verifier::external_body]
pub(crate) fn age_encrypt_to_passphrase(msg: &[u8], passphrase: &str) -> (r: Vec<u8>)
    ensures
        age_scrypt_open(passphrase@, r@) == Some(msg@),
{
    let enc = age::Encryptor::with_user_passphrase(SecretString::from(passphrase.to_string()));
    let mut out = Vec::new();
    let mut w = enc.wrap_output(&mut out).expect("writing to a Vec");
    w.write_all(msg).expect("writing to a Vec");
    w.finish().expect("writing to a Vec");
    out
}

/// `age::Decryptor::new(file)` then `decrypt` with the keys as age
/// identities and `read_to_end`. Trusted: a device key that does not parse
/// is refused first; with device keys only, the result is the named
/// decryption. With one passphrase key, whether it succeeds also depends on
/// the scrypt work factor this machine accepts; when it succeeds, the
/// plaintext is the named passphrase decryption.
#[verifier::external_body]
pub(crate) fn age_decrypt(file: &[u8], keys: &[UnlockKey]) -> (r: Result<Vec<u8>, VaultError>)
    ensures
        has_invalid_device_key(keys@) ==> r matches Err(VaultError::InvalidIdentity),
        !has_invalid_device_key(keys@) && r is Err ==> r matches Err(VaultError::Unwrap),
        valid_device_keys(keys@) ==> (r is Ok <==> age_x25519_open(device_secrets(keys@), file@) is Some),
        valid_device_keys(keys@) ==> (r matches Ok(p) ==> age_x25519_open(device_secrets(keys@), file@)
            == Some(p@)),
        single_passphrase(keys@) is Some ==> (r matches Ok(p) ==> age_scrypt_open(
            single_passphrase(keys@)->0,
            file@,
        ) == Some(p@)),
{
    let mut ids: Vec<Box<dyn age::Identity>> = Vec::new();
    for k in keys {
        match k {
            UnlockKey::Device(s) => ids.push(Box::new(s.parse::<x25519::Identity>().map_err(|_| VaultError::InvalidIdentity)?)),
            UnlockKey::Passphrase(p) => ids.push(Box::new(age::scrypt::Identity::new(p.clone().into()))),
        }
    }
    let mut out = Vec::new();
    let mut reader = age::Decryptor::new(file).and_then(|d| d.decrypt(ids.iter().map(|i| i.as_ref()))).map_err(|_| VaultError::Unwrap)?;
    reader.read_to_end(&mut out).map_err(|_| VaultError::Unwrap)?;
    Ok(out)
}

/// `rand::thread_rng().fill_bytes(buf)`: fills `buf` with random bytes.
#[verifier::external_body]
pub(crate) fn fill_random(buf: &mut [u8])
    ensures
        final(buf)@.len() == old(buf)@.len(),
{
    rand::thread_rng().fill_bytes(buf)
}

} // verus!
