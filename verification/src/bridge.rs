//! The native-messaging host's decisions: message size limits, command
//! dispatch, and the replies to `unlock`, `save_vault` and `fetch_feed`. The
//! host itself reads and writes the frames, the state file, the keyring and
//! the vault files.
use vstd::prelude::*;
use vstd::utf8::encode_utf8;

use crate::keyvault::age_keys::{
    age_x25519_public, age_x25519_recipient_valid, all_recipients_valid, device_secrets,
    is_low_order_recipient, no_low_order, strings_view, unlocks, valid_device_keys, UnlockKey,
};
use crate::keyvault::bulk::{is_sealing_of, sealable};
use crate::keyvault::format::{DekManifest, EncHeader, VaultError};
use crate::keyvault::vault::{
    first_matching, lemma_vault_opens, opened_vault, opt_view, vault_holds, Vault, VaultFiles,
};

verus! {

/// The largest incoming message the host reads (64 MiB).
pub const MAX_INCOMING: usize = 67108864;

/// The largest reply the host sends (1 MiB).
pub const MAX_OUTGOING: usize = 1048576;

/// The commands of the host.
#[derive(Clone, Copy, Debug, PartialEq, Eq)]
pub enum Command {
    FetchFeed,
    SaveVault,
    Unlock,
    Unknown,
}

/// A reply of the host, before it is serialised.
#[derive(Clone, Debug, PartialEq, Eq)]
pub enum Reply {
    /// `{"status": "unlocked", "pubkey": ..}`: the device was provisioned before.
    Unlocked(String),
    /// `{"status": "provisioned", "pubkey": ..}`: the device was provisioned now.
    Provisioned(String),
    /// `{"status": "vault_secured"}`
    VaultSecured,
    /// `{"error": ..}`
    Error(String),
}

/// The command a message names: "fetch_feed", "save_vault", "unlock"; any
/// other name is unknown.
pub fn parse_command(name: &str) -> (r: Command)
    ensures
        name@ == "fetch_feed"@ ==> r == Command::FetchFeed,
        name@ == "save_vault"@ ==> r == Command::SaveVault,
        name@ == "unlock"@ ==> r == Command::Unlock,
        name@ != "fetch_feed"@ && name@ != "save_vault"@ && name@ != "unlock"@ ==> r
            == Command::Unknown,
{
    proof {
        reveal_strlit("fetch_feed");
        reveal_strlit("save_vault");
        reveal_strlit("unlock");
        assert("fetch_feed"@[0] != "save_vault"@[0]);
        assert("fetch_feed"@[0] != "unlock"@[0]);
        assert("save_vault"@[0] != "unlock"@[0]);
    }
    if crate::auth::str_eq(name, "fetch_feed") {
        Command::FetchFeed
    } else if crate::auth::str_eq(name, "save_vault") {
        Command::SaveVault
    } else if crate::auth::str_eq(name, "unlock") {
        Command::Unlock
    } else {
        Command::Unknown
    }
}

/// The reply to an unknown command.
pub fn unknown_command() -> (r: Reply)
    ensures
        r matches Reply::Error(m) && m@ == "Unknown command"@,
{
    Reply::Error(String::from_str("Unknown command"))
}

/// Whether the host reads an incoming message of `len` bytes; a longer one
/// ends the session.
pub fn accepts_incoming(len: usize) -> (r: bool)
    ensures
        r == (len <= MAX_INCOMING),
{
    len <= MAX_INCOMING
}

/// The body sent for a serialised reply: the reply itself if it fits,
/// otherwise the too-large error.
pub fn outgoing_body(body: String) -> (r: String)
    ensures
        encode_utf8(body@).len() <= MAX_OUTGOING ==> r == body,
        encode_utf8(body@).len() > MAX_OUTGOING ==> r@ == "{\"error\":\"response_too_large\"}"@,
{
    let n = body.as_str().as_bytes().len();
    if n > MAX_OUTGOING {
        String::from_str("{\"error\":\"response_too_large\"}")
    } else {
        body
    }
}

/// `unlock`: a device provisioned before (its public key `stored_pubkey` is
/// on file) is reported unlocked; otherwise a device key is provisioned in
/// the keyring by `provision`, which gives its public key, and that key is
/// put on file by `persist`. Provisioning happens only when nothing is on
/// file, so an existing vault is never orphaned.
pub fn unlock<P, W>(stored_pubkey: Option<String>, provision: P, persist: W) -> (r: Reply) where
    P: FnOnce() -> Result<String, String>,
    W: FnOnce(String) -> Result<(), String>,

    requires
        stored_pubkey is None ==> call_requires(provision, ()),
        stored_pubkey is None ==> forall|pk: String| call_requires(persist, (pk,)),
    ensures
        stored_pubkey matches Some(pk) ==> r == Reply::Unlocked(pk),
        stored_pubkey is None ==> exists|res: Result<String, String>| #[trigger]
            call_ensures(provision, (), res) && match res {
                Err(e) => r matches Reply::Error(m) && m@ == "Keyring failed: "@ + e@,
                Ok(pk) => exists|w: Result<(), String>| #[trigger]
                    call_ensures(persist, (pk,), w) && match w {
                        Err(e) => r matches Reply::Error(m) && m@ == "Failed to persist state: "@ + e@,
                        Ok(_) => r == Reply::Provisioned(pk),
                    },
            },
{
    match stored_pubkey {
        Some(pk) => Reply::Unlocked(pk),
        None => {
            let res = provision();
            match res {
                Err(e) => Reply::Error(String::from_str("Keyring failed: ").concat(e.as_str())),
                Ok(pk) => {
                    let kept = pk.clone();
                    let w = persist(kept);
                    match w {
                        Err(e) => Reply::Error(
                            String::from_str("Failed to persist state: ").concat(e.as_str()),
                        ),
                        Ok(_) => Reply::Provisioned(pk),
                    }
                },
            }
        },
    }
}

/// `save_vault`: the payload (the vault's serialised JSON) is sealed in a new
/// vault whose devices keyslot opens for this device alone, with no
/// passphrase keyslot. A payload and a device key on file are required, and
/// the key must be an age X25519 recipient that is not a small-order point.
/// The caller writes the files.
pub fn save_vault(payload: Option<String>, stored_pubkey: Option<String>) -> (r: Result<VaultFiles, Reply>)
    ensures
        payload is None ==> (r matches Err(Reply::Error(m)) && m@ == "No payload provided"@),
        payload is Some && stored_pubkey is None ==> (r matches Err(Reply::Error(m)) && m@
            == "Vault not initialized; send `unlock` first"@),
        payload is Some && stored_pubkey is Some && (!age_x25519_recipient_valid(stored_pubkey->0@)
            || is_low_order_recipient(stored_pubkey->0@)) ==> (r matches Err(Reply::Error(m)) && m@
            == "Invalid device public key"@),
        payload is Some && stored_pubkey is Some && age_x25519_recipient_valid(stored_pubkey->0@)
            && !is_low_order_recipient(stored_pubkey->0@) ==> (r is Ok <==> sealable(
            encode_utf8(payload->0@),
        )),
        payload is Some && stored_pubkey is Some && age_x25519_recipient_valid(stored_pubkey->0@)
            && !is_low_order_recipient(stored_pubkey->0@) && !sealable(encode_utf8(payload->0@)) ==> (r matches Err(Reply::Error(m)) && m@
            == "Encryption failed: chunk encryption failed"@),
        r matches Ok(files) ==> files.keys_passphrase is Untouched,
        r matches Ok(files) ==> (payload is Some && stored_pubkey is Some && exists|
            m: DekManifest,
            h: EncHeader,
        |
            #[trigger] vault_holds(files, m, h, seq![stored_pubkey->0@], encode_utf8(payload->0@))
                && m.dek_version == 1),
{
    let p = match payload {
        Some(p) => p,
        None => {
            return Err(Reply::Error(String::from_str("No payload provided")));
        },
    };
    let pk = match stored_pubkey {
        Some(pk) => pk,
        None => {
            return Err(Reply::Error(String::from_str("Vault not initialized; send `unlock` first")));
        },
    };
    let ghost pk_view = pk@;
    let mut devices: Vec<String> = Vec::new();
    devices.push(pk);
    assert(strings_view(devices@) =~= seq![pk_view]);
    assert(all_recipients_valid(seq![pk_view]) <==> age_x25519_recipient_valid(pk_view)) by {
        if age_x25519_recipient_valid(pk_view) {
            assert forall|i: int| 0 <= i < 1 implies age_x25519_recipient_valid(#[trigger] seq![pk_view][i]) by {}
        } else {
            assert(!age_x25519_recipient_valid(seq![pk_view][0]));
        }
    }
    assert(no_low_order(seq![pk_view]) <==> !is_low_order_recipient(pk_view)) by {
        if !is_low_order_recipient(pk_view) {
            assert forall|i: int| 0 <= i < 1 implies !is_low_order_recipient(#[trigger] seq![pk_view][i]) by {}
        } else {
            assert(is_low_order_recipient(seq![pk_view][0]));
        }
    }
    match Vault::init(devices.as_slice(), None, p.as_str().as_bytes()) {
        Ok(files) => Ok(files),
        Err(VaultError::InvalidRecipient) => Err(Reply::Error(String::from_str("Invalid device public key"))),
        Err(VaultError::LowOrderRecipient) => Err(Reply::Error(String::from_str("Invalid device public key"))),
        Err(e) => {
            proof {
                reveal_strlit("Encryption failed: ");
                reveal_strlit("chunk encryption failed");
                reveal_strlit("Encryption failed: chunk encryption failed");
                assert("Encryption failed: "@ + "chunk encryption failed"@ =~= "Encryption failed: chunk encryption failed"@);
            }
            Err(Reply::Error(String::from_str("Encryption failed: ").concat(e.describe())))
        },
    }
}

/// `fetch_feed`: the plaintext of the vault, opened with the device keys;
/// `None` (an empty feed) when there is no `.enc` file or it does not open.
pub fn feed_plaintext(
    enc: Option<&[u8]>,
    keys_devices: Option<&[u8]>,
    keys_passphrase: Option<&[u8]>,
    keys: &[UnlockKey],
) -> (r: Option<Vec<u8>>)
    ensures
        enc is None ==> r is None,
        enc is Some && valid_device_keys(keys@) ==> match opened_vault(
            device_secrets(keys@),
            opt_view(keys_devices),
            opt_view(keys_passphrase),
            enc->0@,
        ) {
            Ok(pt) => r matches Some(b) && b@ == pt,
            Err(_) => r is None,
        },
        enc is Some && valid_device_keys(keys@) ==> forall|m: DekManifest, h: EncHeader, pt: Seq<u8>|
            #![trigger is_sealing_of(m.dek@, h, pt, enc->0@)]
            first_matching(device_secrets(keys@), opt_view(keys_devices), opt_view(keys_passphrase))
                == Ok::<DekManifest, VaultError>(m) && is_sealing_of(m.dek@, h, pt, enc->0@)
                && h.vault_uuid == m.vault_uuid && h.dek_version == m.dek_version ==> (r matches Some(
                b,
            ) && b@ == pt),
{
    match enc {
        None => None,
        Some(e) => match Vault::open_to(keys_devices, keys_passphrase, e, keys) {
            Ok(pt) => Some(pt),
            Err(_) => None,
        },
    }
}

/// Law (what `save_vault` seals, `fetch_feed` gives back): files that hold
/// a payload for one device key open, whatever passphrase keyslot lies
/// beside them, with that device's identity through the devices keyslot to a
/// sealing of exactly the payload — the premise under which
/// `feed_plaintext` returns the payload.
pub proof fn lemma_saved_vault_feeds(
    files: VaultFiles,
    m: DekManifest,
    h: EncHeader,
    pubkey: Seq<char>,
    secret: Seq<char>,
    payload: Seq<u8>,
    passphrase_file: Option<Seq<u8>>,
)
    requires
        vault_holds(files, m, h, seq![pubkey], payload),
        age_x25519_public(secret) == Some(pubkey),
    ensures
        first_matching(seq![secret], Some(files.keys_devices@), passphrase_file) == Ok::<
            DekManifest,
            VaultError,
        >(m),
        is_sealing_of(m.dek@, h, payload, files.enc@),
        h.vault_uuid == m.vault_uuid,
        h.dek_version == m.dek_version,
{
    let ids = seq![secret];
    let devices = seq![pubkey];
    assert(age_x25519_public(ids[0]) == Some(devices[0]));
    assert(unlocks(ids, devices));
    lemma_vault_opens(files, m, h, devices, payload, ids, passphrase_file);
}

} // verus!
