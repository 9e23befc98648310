//! The vault orchestrator: creation, unlocking, device enrolment and DEK
//! rotation, computed on file contents (the caller reads and writes files).
use vstd::prelude::*;

use crate::keyvault::age_keys::{
    age_decrypt, encrypt_to_devices, age_encrypt_to_passphrase, no_low_order, recipients_usable, age_generate_identity,
    age_public_of, age_x25519_recipient_valid,
    age_scrypt_open, age_x25519_open, age_x25519_public, single_passphrase, all_recipients_valid, device_secrets, fill_random,
    has_invalid_device_key, strings_view, unlocks, valid_device_keys, UnlockKey,
};
use crate::keyvault::bulk::{is_sealing_of, open_bulk, opened_file, seal_bulk, sealable};
use crate::keyvault::format::{
    key_magic, lemma_manifest_bytes, manifest_bytes, manifest_fields_of, DekManifest,
    EncHeader, VaultError, CHUNK_SIZE, MANIFEST_LEN,
};

verus! {

/// What becomes of the passphrase keyslot file.
#[derive(Debug)]
pub enum KeySlotUpdate {
    /// Left as it is (or absent, as it was).
    Untouched,
    /// Written with these contents.
    Write(Vec<u8>),
    /// Removed: a keyslot that would still hold a retired DEK.
    Remove,
}

/// Contents of the three sibling files of a vault, and what becomes of the
/// passphrase keyslot.
#[derive(Debug)]
pub struct VaultFiles {
    pub enc: Vec<u8>,
    pub keys_devices: Vec<u8>,
    pub keys_passphrase: KeySlotUpdate,
}

/// The vault operations.
pub struct Vault;

/// A freshly generated device identity: the secret goes to the OS keyring,
/// the public recipient is registered with the vault.
#[derive(Debug)]
pub struct DeviceIdentity {
    pub secret: String,
    pub recipient: String,
}

/// Generates a device identity and its public recipient.
pub fn provision_identity() -> (r: DeviceIdentity)
    ensures
        age_x25519_public(r.secret@) == Some(r.recipient@),
        age_x25519_recipient_valid(r.recipient@),
{
    let secret = age_generate_identity();
    let recipient = match age_public_of(secret.as_str()) {
        Some(p) => p,
        None => {
            // unreachable: a generated identity always parses
            assert(false);
            String::new()
        },
    };
    DeviceIdentity { secret, recipient }
}

/// Law: a provisioned device, once among the vault's devices, unlocks the
/// devices keyslot on its own.
pub proof fn lemma_provisioned_device_unlocks(d: DeviceIdentity, devices: Seq<Seq<char>>, j: int)
    requires
        age_x25519_public(d.secret@) == Some(d.recipient@),
        0 <= j < devices.len(),
        devices[j] == d.recipient@,
    ensures
        unlocks(seq![d.secret@], devices),
{
    let ids = seq![d.secret@];
    assert(age_x25519_public(ids[0]) == Some(devices[j]));
}

/// What `DekManifest::from_bytes` makes of the plaintext of a keyslot file.
pub open spec fn manifest_of(b: Seq<u8>) -> Result<DekManifest, VaultError> {
    if b.len() != MANIFEST_LEN {
        Err(VaultError::ManifestLength)
    } else if b.subrange(0, 4) != key_magic() {
        Err(VaultError::ManifestMagic)
    } else {
        Ok(choose|m: DekManifest| manifest_fields_of(m, b))
    }
}

/// What a keyslot file yields for a list of device identities.
pub open spec fn keyfile_manifest(ids: Seq<Seq<char>>, file: Seq<u8>) -> Result<DekManifest, VaultError> {
    match age_x25519_open(ids, file) {
        None => Err(VaultError::Unwrap),
        Some(b) => manifest_of(b),
    }
}

/// Devices keyslot first, passphrase keyslot second, as `open_first_matching_keyfile` tries them.
pub open spec fn first_matching(
    ids: Seq<Seq<char>>,
    devices: Option<Seq<u8>>,
    passphrase: Option<Seq<u8>>,
) -> Result<DekManifest, VaultError> {
    if devices is Some && keyfile_manifest(ids, devices->0) is Ok {
        keyfile_manifest(ids, devices->0)
    } else {
        match passphrase {
            Some(f) => keyfile_manifest(ids, f),
            None => Err(VaultError::NoUsableKeyFile),
        }
    }
}

/// The view of an optional file.
pub open spec fn opt_view(f: Option<&[u8]>) -> Option<Seq<u8>> {
    match f {
        Some(b) => Some(b@),
        None => None,
    }
}

/// What a keyslot file yields under a passphrase, when it opens.
pub open spec fn passphrase_keyfile_manifest(passphrase: Seq<char>, file: Seq<u8>) -> Result<
    DekManifest,
    VaultError,
> {
    match age_scrypt_open(passphrase, file) {
        None => Err(VaultError::Unwrap),
        Some(b) => manifest_of(b),
    }
}

/// One of the keyslot files present opens under the passphrase to `m`.
pub open spec fn opened_by_passphrase(
    passphrase: Seq<char>,
    devices: Option<Seq<u8>>,
    passphrase_file: Option<Seq<u8>>,
    m: DekManifest,
) -> bool {
    ||| (devices is Some && passphrase_keyfile_manifest(passphrase, devices->0) == Ok::<
        DekManifest,
        VaultError,
    >(m))
    ||| (passphrase_file is Some && passphrase_keyfile_manifest(passphrase, passphrase_file->0)
        == Ok::<DekManifest, VaultError>(m))
}

/// Every keyslot file present that opens under the passphrase gives `m`.
pub open spec fn passphrase_gives_only(
    passphrase: Seq<char>,
    devices: Option<Seq<u8>>,
    passphrase_file: Option<Seq<u8>>,
    m: DekManifest,
) -> bool {
    forall|m2: DekManifest|
        #[trigger] opened_by_passphrase(passphrase, devices, passphrase_file, m2) ==> m2 == m
}

/// The passphrase keyslot is written, and opens under `passphrase` to `m`.
pub open spec fn passphrase_slot_holds(slot: KeySlotUpdate, m: DekManifest, passphrase: Seq<char>) -> bool {
    slot is Write && age_scrypt_open(passphrase, slot->Write_0@) == Some(manifest_bytes(m))
}

/// The view of an optional string.
pub open spec fn opt_string_view(s: Option<String>) -> Option<Seq<char>> {
    match s {
        Some(p) => Some(p@),
        None => None,
    }
}

/// `files` is the rotation of a vault held under `old` with plaintext `pt`:
/// a vault for `pt` under a new manifest that keeps `old`'s uuid and bumps
/// its version, whose passphrase keyslot, when a passphrase is given, opens
/// under it to the new manifest.
pub open spec fn rotated_from(
    files: VaultFiles,
    old: DekManifest,
    devices: Seq<Seq<char>>,
    pt: Seq<u8>,
    passphrase: Option<Seq<char>>,
) -> bool {
    exists|m: DekManifest, h: EncHeader|
        #[trigger] vault_holds(files, m, h, devices, pt) && m.vault_uuid == old.vault_uuid
            && m.dek_version == old.dek_version + 1 && (passphrase is Some ==> passphrase_slot_holds(
            files.keys_passphrase,
            m,
            passphrase->0,
        ))
}

/// `files` is a vault for plaintext `pt` under manifest `m`: the bulk file is
/// `pt` sealed under `m`'s DEK with a header naming `m`'s vault and version,
/// and the devices keyslot opens to `m` for any identity of one of `devices`
/// and under no passphrase.
pub open spec fn vault_holds(
    files: VaultFiles,
    m: DekManifest,
    h: EncHeader,
    devices: Seq<Seq<char>>,
    pt: Seq<u8>,
) -> bool {
    &&& h.vault_uuid == m.vault_uuid
    &&& h.dek_version == m.dek_version
    &&& is_sealing_of(m.dek@, h, pt, files.enc@)
    &&& forall|ids: Seq<Seq<char>>|
        #[trigger] unlocks(ids, devices) ==> age_x25519_open(ids, files.keys_devices@) == Some(
            manifest_bytes(m),
        )
    &&& forall|pw: Seq<char>| #[trigger] age_scrypt_open(pw, files.keys_devices@) is None
}

/// What unlocking gives with device keys: the first keyslot that opens, then the bulk file.
pub open spec fn opened_vault(
    ids: Seq<Seq<char>>,
    devices: Option<Seq<u8>>,
    passphrase: Option<Seq<u8>>,
    enc: Seq<u8>,
) -> Result<Seq<u8>, VaultError> {
    match first_matching(ids, devices, passphrase) {
        Ok(m) => opened_file(m.dek@, m.vault_uuid@, m.dek_version, enc),
        Err(e) => Err(e),
    }
}

/// How a rotation with device keys ends: unlocking errors first, then a
/// version overflow, then the recipients, then the STREAM counter.
pub open spec fn rotation_outcome(
    ids: Seq<Seq<char>>,
    devices_file: Option<Seq<u8>>,
    passphrase_file: Option<Seq<u8>>,
    enc: Seq<u8>,
    devices: Seq<Seq<char>>,
) -> Result<(), VaultError> {
    match opened_vault(ids, devices_file, passphrase_file, enc) {
        Err(e) => Err(e),
        Ok(pt) => if first_matching(ids, devices_file, passphrase_file)->Ok_0.dek_version
            == u32::MAX {
            Err(VaultError::VersionOverflow)
        } else if devices.len() == 0 {
            Err(VaultError::NoRecipients)
        } else if !all_recipients_valid(devices) {
            Err(VaultError::InvalidRecipient)
        } else if !no_low_order(devices) {
            Err(VaultError::LowOrderRecipient)
        } else if !sealable(pt) {
            Err(VaultError::EncryptChunk)
        } else {
            Ok(())
        },
    }
}

/// Law (a rotation that can go through does): when the keys find a manifest
/// `old` below the last version, the bulk file opens under it to `pt`, the
/// recipients are usable and `pt` has at most `u32::MAX` full 64 KiB chunks,
/// the rotation succeeds — whatever the size of the plaintext.
pub proof fn lemma_rotation_goes_through(
    ids: Seq<Seq<char>>,
    devices_file: Option<Seq<u8>>,
    passphrase_file: Option<Seq<u8>>,
    enc: Seq<u8>,
    devices: Seq<Seq<char>>,
    old: DekManifest,
    pt: Seq<u8>,
)
    requires
        first_matching(ids, devices_file, passphrase_file) == Ok::<DekManifest, VaultError>(old),
        opened_file(old.dek@, old.vault_uuid@, old.dek_version, enc) == Ok::<Seq<u8>, VaultError>(pt),
        old.dek_version < u32::MAX,
        devices.len() > 0,
        all_recipients_valid(devices),
        no_low_order(devices),
        pt.len() / 65536 <= u32::MAX,
    ensures
        rotation_outcome(ids, devices_file, passphrase_file, enc, devices) == Ok::<(), VaultError>(()),
{
}

proof fn lemma_manifest_unique(m1: DekManifest, m2: DekManifest, b: Seq<u8>)
    requires
        manifest_fields_of(m1, b),
        manifest_fields_of(m2, b),
    ensures
        m1 == m2,
{
    assert(m1.vault_uuid =~= m2.vault_uuid);
    assert(m1.dek =~= m2.dek);
}

/// Law: a manifest read back from its own bytes is the manifest.
pub proof fn lemma_manifest_of_bytes(m: DekManifest)
    ensures
        manifest_of(manifest_bytes(m)) == Ok::<DekManifest, VaultError>(m),
{
    lemma_manifest_bytes(m);
    let b = manifest_bytes(m);
    let c = choose|x: DekManifest| manifest_fields_of(x, b);
    lemma_manifest_unique(c, m, b);
}

/// Refuses a list of keys that holds a device identity that does not parse.
fn check_keys(keys: &[UnlockKey]) -> (r: Result<(), VaultError>)
    ensures
        r is Err <==> has_invalid_device_key(keys@),
        r is Err ==> r == Err::<(), VaultError>(VaultError::InvalidIdentity),
{
    let n = keys.len();
    let mut i: usize = 0;
    while i < n
        invariant
            n == keys@.len(),
            i <= n,
            forall|k: int|
                0 <= k < i ==> !(#[trigger] keys@[k] matches UnlockKey::Device(s)
                    && age_x25519_public(s@) is None),
        decreases n - i,
    {
        match &keys[i] {
            UnlockKey::Device(s) => {
                if age_public_of(s.as_str()).is_none() {
                    assert(keys@[i as int] matches UnlockKey::Device(s) && age_x25519_public(s@) is None);
                    return Err(VaultError::InvalidIdentity);
                }
            },
            UnlockKey::Passphrase(_) => {},
        }
        i = i + 1;
    }
    Ok(())
}

/// Decrypts a keyslot file with the keys and reads the manifest it holds.
fn unwrap_manifest_from(file: &[u8], keys: &[UnlockKey]) -> (r: Result<DekManifest, VaultError>)
    ensures
        valid_device_keys(keys@) ==> r == keyfile_manifest(device_secrets(keys@), file@),
        single_passphrase(keys@) is Some ==> (r matches Ok(m) ==> passphrase_keyfile_manifest(
            single_passphrase(keys@)->0,
            file@,
        ) == Ok::<DekManifest, VaultError>(m)),
        r matches Ok(m) ==> exists|b: Seq<u8>| manifest_of(b) == Ok::<DekManifest, VaultError>(m),
{
    let plain = age_decrypt(file, keys)?;
    let m = DekManifest::from_bytes(plain.as_slice());
    proof {
        let b = plain@;
        if b.len() == MANIFEST_LEN && b.subrange(0, 4) == key_magic() {
            let c = choose|x: DekManifest| manifest_fields_of(x, b);
            lemma_manifest_unique(c, m->Ok_0, b);
        }
        assert(manifest_of(b) == m);
    }
    m
}

/// Tries `.keys.devices`, then `.keys.passphrase`, each only if present.
fn open_first_matching_keyfile(
    devices: Option<&[u8]>,
    passphrase: Option<&[u8]>,
    keys: &[UnlockKey],
) -> (r: Result<DekManifest, VaultError>)
    ensures
        valid_device_keys(keys@) ==> r == first_matching(
            device_secrets(keys@),
            opt_view(devices),
            opt_view(passphrase),
        ),
        single_passphrase(keys@) is Some ==> (r matches Ok(m) ==> opened_by_passphrase(
            single_passphrase(keys@)->0,
            opt_view(devices),
            opt_view(passphrase),
            m,
        )),
        r matches Ok(m) ==> exists|b: Seq<u8>| manifest_of(b) == Ok::<DekManifest, VaultError>(m),
{
    if let Some(f) = devices {
        if let Ok(m) = unwrap_manifest_from(f, keys) {
            return Ok(m);
        }
    }
    if let Some(f) = passphrase {
        return unwrap_manifest_from(f, keys);
    }
    Err(VaultError::NoUsableKeyFile)
}

/// The `.enc` header for manifest `m` and nonce prefix `np`.
pub open spec fn manifest_header(m: DekManifest, np: [u8; 7]) -> EncHeader {
    EncHeader { vault_uuid: m.vault_uuid, dek_version: m.dek_version, chunk_size: 65536, nonce_prefix: np }
}

/// The vault files for plaintext `pt` under exactly manifest `m` and nonce
/// prefix `np`: the devices keyslot wraps `m`, the passphrase keyslot (when a
/// passphrase is given) opens under it to `m`, and `.enc` is `pt` sealed
/// under `m`'s DEK behind the header for `m` and `np`.
pub open spec fn sealed_vault(
    files: VaultFiles,
    m: DekManifest,
    np: [u8; 7],
    devices: Seq<Seq<char>>,
    passphrase: Option<Seq<char>>,
    pt: Seq<u8>,
) -> bool {
    &&& vault_holds(files, m, manifest_header(m, np), devices, pt)
    &&& (passphrase is Some ==> passphrase_slot_holds(files.keys_passphrase, m, passphrase->0))
}

/// Wraps `m` to the devices (and the passphrase), seals `plaintext` under it;
/// with no passphrase the passphrase keyslot is removed or left untouched.
fn seal_under(
    m: &DekManifest,
    np: [u8; 7],
    devices: &[String],
    passphrase: Option<String>,
    remove_passphrase_slot: bool,
    plaintext: &[u8],
) -> (r: Result<VaultFiles, VaultError>)
    ensures
        !all_recipients_valid(strings_view(devices@)) ==> r == Err::<VaultFiles, VaultError>(
            VaultError::InvalidRecipient,
        ),
        devices@.len() == 0 ==> r == Err::<VaultFiles, VaultError>(VaultError::NoRecipients),
        devices@.len() > 0 && all_recipients_valid(strings_view(devices@)) && !no_low_order(
            strings_view(devices@),
        ) ==> r == Err::<VaultFiles, VaultError>(VaultError::LowOrderRecipient),
        recipients_usable(strings_view(devices@)) ==> (r is Ok <==> sealable(plaintext@)),
        recipients_usable(strings_view(devices@)) && !sealable(plaintext@) ==> r == Err::<
            VaultFiles,
            VaultError,
        >(VaultError::EncryptChunk),
        r matches Ok(files) ==> sealed_vault(
            files,
            *m,
            np,
            strings_view(devices@),
            opt_string_view(passphrase),
            plaintext@,
        ),
        r matches Ok(files) ==> (files.keys_passphrase is Write <==> passphrase is Some),
        r is Ok && passphrase is None && remove_passphrase_slot ==> r->Ok_0.keys_passphrase is Remove,
        r is Ok && passphrase is None && !remove_passphrase_slot ==> r->Ok_0.keys_passphrase is Untouched,
{
    let mbytes = m.to_bytes();
    let keys_devices = encrypt_to_devices(mbytes.as_slice(), devices)?;
    let keys_passphrase = match passphrase {
        Some(pw) => KeySlotUpdate::Write(age_encrypt_to_passphrase(mbytes.as_slice(), pw.as_str())),
        None => if remove_passphrase_slot {
            KeySlotUpdate::Remove
        } else {
            KeySlotUpdate::Untouched
        },
    };
    let header = EncHeader {
        vault_uuid: m.vault_uuid,
        dek_version: m.dek_version,
        chunk_size: 65536u32,
        nonce_prefix: np,
    };
    let enc = seal_bulk(&m.dek, &header, plaintext)?;
    let files = VaultFiles { enc, keys_devices, keys_passphrase };
    assert(header == manifest_header(*m, np));
    assert(vault_holds(files, *m, header, strings_view(devices@), plaintext@));
    Ok(files)
}

/// A new vault under exactly the given DEK, vault uuid and nonce prefix (as
/// `Vault::init` draws them): manifest version 1, wrapped to the devices and,
/// if given, to the passphrase; `plaintext` sealed under the DEK.
pub fn init_with(
    dek: [u8; 32],
    vault_uuid: [u8; 16],
    nonce_prefix: [u8; 7],
    devices: &[String],
    passphrase: Option<String>,
    plaintext: &[u8],
) -> (r: Result<VaultFiles, VaultError>)
    ensures
        !all_recipients_valid(strings_view(devices@)) ==> r == Err::<VaultFiles, VaultError>(
            VaultError::InvalidRecipient,
        ),
        devices@.len() == 0 ==> r == Err::<VaultFiles, VaultError>(VaultError::NoRecipients),
        devices@.len() > 0 && all_recipients_valid(strings_view(devices@)) && !no_low_order(
            strings_view(devices@),
        ) ==> r == Err::<VaultFiles, VaultError>(VaultError::LowOrderRecipient),
        recipients_usable(strings_view(devices@)) ==> (r is Ok <==> sealable(plaintext@)),
        recipients_usable(strings_view(devices@)) && !sealable(plaintext@) ==> r == Err::<
            VaultFiles,
            VaultError,
        >(VaultError::EncryptChunk),
        r matches Ok(files) ==> sealed_vault(
            files,
            DekManifest { vault_uuid: vault_uuid, dek_version: 1, dek: dek },
            nonce_prefix,
            strings_view(devices@),
            opt_string_view(passphrase),
            plaintext@,
        ),
        r matches Ok(files) ==> (files.keys_passphrase is Write <==> passphrase is Some),
        r matches Ok(files) ==> (files.keys_passphrase is Untouched <==> passphrase is None),
{
    let manifest = DekManifest { vault_uuid, dek_version: 1, dek };
    seal_under(&manifest, nonce_prefix, devices, passphrase, false, plaintext)
}

/// The rotation of a vault opened under `old` to plaintext `pt`, to exactly
/// the given new DEK and nonce prefix (as `Vault::rotate_dek` draws them):
/// the manifest keeps `old`'s uuid and bumps its version; the plaintext is
/// resealed; the keyslots are rewritten, and without a passphrase the
/// passphrase keyslot, which would hold the retired DEK, is removed.
pub fn rotate_with(
    old: &DekManifest,
    pt: &[u8],
    new_dek: [u8; 32],
    new_np: [u8; 7],
    devices: &[String],
    passphrase: Option<String>,
) -> (r: Result<VaultFiles, VaultError>)
    ensures
        old.dek_version == u32::MAX ==> r == Err::<VaultFiles, VaultError>(VaultError::VersionOverflow),
        old.dek_version < u32::MAX && !all_recipients_valid(strings_view(devices@)) ==> r == Err::<
            VaultFiles,
            VaultError,
        >(VaultError::InvalidRecipient),
        old.dek_version < u32::MAX && devices@.len() == 0 ==> r == Err::<VaultFiles, VaultError>(
            VaultError::NoRecipients,
        ),
        old.dek_version < u32::MAX && devices@.len() > 0 && all_recipients_valid(strings_view(devices@))
            && !no_low_order(strings_view(devices@)) ==> r == Err::<VaultFiles, VaultError>(
            VaultError::LowOrderRecipient,
        ),
        old.dek_version < u32::MAX && recipients_usable(strings_view(devices@)) ==> (r is Ok
            <==> sealable(pt@)),
        old.dek_version < u32::MAX && recipients_usable(strings_view(devices@)) && !sealable(pt@)
            ==> r == Err::<VaultFiles, VaultError>(VaultError::EncryptChunk),
        r matches Ok(files) ==> sealed_vault(
            files,
            DekManifest {
                vault_uuid: old.vault_uuid,
                dek_version: (old.dek_version + 1) as u32,
                dek: new_dek,
            },
            new_np,
            strings_view(devices@),
            opt_string_view(passphrase),
            pt@,
        ),
        r matches Ok(files) ==> (files.keys_passphrase is Write <==> passphrase is Some),
        r matches Ok(files) ==> (files.keys_passphrase is Remove <==> passphrase is None),
{
    let version = match old.dek_version.checked_add(1) {
        Some(v) => v,
        None => {
            return Err(VaultError::VersionOverflow);
        },
    };
    let manifest = DekManifest { vault_uuid: old.vault_uuid, dek_version: version, dek: new_dek };
    seal_under(&manifest, new_np, devices, passphrase, true, pt)
}

impl Vault {
    /// First-time creation: fresh random DEK, vault uuid and nonce prefix; the
    /// manifest (version 1) is wrapped to the device recipients and, if given,
    /// to the passphrase; the plaintext is sealed under the DEK.
    pub fn init(devices: &[String], passphrase: Option<String>, plaintext: &[u8]) -> (r: Result<
        VaultFiles,
        VaultError,
    >)
        ensures
            devices@.len() == 0 ==> r == Err::<VaultFiles, VaultError>(VaultError::NoRecipients),
            devices@.len() > 0 && !all_recipients_valid(strings_view(devices@)) ==> r == Err::<
                VaultFiles,
                VaultError,
            >(VaultError::InvalidRecipient),
            devices@.len() > 0 && all_recipients_valid(strings_view(devices@)) && !no_low_order(
                strings_view(devices@),
            ) ==> r == Err::<VaultFiles, VaultError>(VaultError::LowOrderRecipient),
            recipients_usable(strings_view(devices@)) ==> (r is Ok <==> sealable(plaintext@)),
            recipients_usable(strings_view(devices@)) && !sealable(plaintext@) ==> r == Err::<
                VaultFiles,
                VaultError,
            >(VaultError::EncryptChunk),
            r is Err ==> r == Err::<VaultFiles, VaultError>(VaultError::NoRecipients) || r == Err::<
                VaultFiles,
                VaultError,
            >(VaultError::InvalidRecipient) || r == Err::<VaultFiles, VaultError>(
                VaultError::LowOrderRecipient,
            ) || r == Err::<VaultFiles, VaultError>(VaultError::EncryptChunk),
            r matches Ok(files) ==> (files.keys_passphrase is Write <==> passphrase is Some),
            r matches Ok(files) ==> (files.keys_passphrase is Untouched <==> passphrase is None),
            r matches Ok(files) ==> exists|m: DekManifest, h: EncHeader|
                #[trigger] vault_holds(files, m, h, strings_view(devices@), plaintext@)
                    && m.dek_version == 1 && (passphrase is Some ==> passphrase_slot_holds(
                    files.keys_passphrase,
                    m,
                    passphrase->0@,
                )),
    {
        let mut dek = [0u8; 32];
        fill_random(&mut dek);
        let mut vault_uuid = [0u8; 16];
        fill_random(&mut vault_uuid);
        let mut nonce_prefix = [0u8; 7];
        fill_random(&mut nonce_prefix);
        let r = init_with(dek, vault_uuid, nonce_prefix, devices, passphrase, plaintext);
        proof {
            if r is Ok {
                let m = DekManifest { vault_uuid: vault_uuid, dek_version: 1, dek: dek };
                assert(vault_holds(r->Ok_0, m, manifest_header(m, nonce_prefix), strings_view(devices@), plaintext@));
            }
        }
        r
    }

    /// Unlocks the vault with the keys and returns its plaintext.
    pub fn open_to(
        keys_devices: Option<&[u8]>,
        keys_passphrase: Option<&[u8]>,
        enc: &[u8],
        keys: &[UnlockKey],
    ) -> (r: Result<Vec<u8>, VaultError>)
        ensures
            has_invalid_device_key(keys@) ==> r == Err::<Vec<u8>, VaultError>(
                VaultError::InvalidIdentity,
            ),
            valid_device_keys(keys@) ==> match r {
                Ok(p) => opened_vault(
                    device_secrets(keys@),
                    opt_view(keys_devices),
                    opt_view(keys_passphrase),
                    enc@,
                ) == Ok::<Seq<u8>, VaultError>(p@),
                Err(e) => opened_vault(
                    device_secrets(keys@),
                    opt_view(keys_devices),
                    opt_view(keys_passphrase),
                    enc@,
                ) == Err::<Seq<u8>, VaultError>(e),
            },
            valid_device_keys(keys@) ==> forall|m: DekManifest, h: EncHeader, pt: Seq<u8>|
                #![trigger is_sealing_of(m.dek@, h, pt, enc@)]
                first_matching(device_secrets(keys@), opt_view(keys_devices), opt_view(keys_passphrase))
                    == Ok::<DekManifest, VaultError>(m) && is_sealing_of(m.dek@, h, pt, enc@)
                    && h.vault_uuid == m.vault_uuid && h.dek_version == m.dek_version ==> (r matches Ok(
                    p,
                ) && p@ == pt),
            r matches Ok(p) ==> exists|m: DekManifest|
                opened_file(m.dek@, m.vault_uuid@, m.dek_version, enc@) == Ok::<Seq<u8>, VaultError>(
                    p@,
                ),
            single_passphrase(keys@) is Some ==> (r matches Ok(p) ==> exists|m: DekManifest|
                #[trigger] opened_by_passphrase(
                    single_passphrase(keys@)->0,
                    opt_view(keys_devices),
                    opt_view(keys_passphrase),
                    m,
                ) && opened_file(m.dek@, m.vault_uuid@, m.dek_version, enc@) == Ok::<
                    Seq<u8>,
                    VaultError,
                >(p@)),
            single_passphrase(keys@) is Some ==> forall|m: DekManifest, h: EncHeader, pt: Seq<u8>|
                #![trigger is_sealing_of(m.dek@, h, pt, enc@)]
                passphrase_gives_only(
                    single_passphrase(keys@)->0,
                    opt_view(keys_devices),
                    opt_view(keys_passphrase),
                    m,
                ) && is_sealing_of(m.dek@, h, pt, enc@) && h.vault_uuid == m.vault_uuid
                    && h.dek_version == m.dek_version ==> (r matches Ok(p) ==> p@ == pt),
    {
        check_keys(keys)?;
        let manifest = open_first_matching_keyfile(keys_devices, keys_passphrase, keys)?;
        let r = open_bulk(&manifest.dek, &manifest.vault_uuid, manifest.dek_version, enc);
        proof {
            assert forall|m: DekManifest, h: EncHeader, pt: Seq<u8>|
                #![trigger is_sealing_of(m.dek@, h, pt, enc@)]
                valid_device_keys(keys@) && first_matching(
                    device_secrets(keys@),
                    opt_view(keys_devices),
                    opt_view(keys_passphrase),
                ) == Ok::<DekManifest, VaultError>(m) && is_sealing_of(m.dek@, h, pt, enc@)
                    && h.vault_uuid == m.vault_uuid && h.dek_version == m.dek_version implies (r matches Ok(
                    p,
                ) && p@ == pt) by {
                assert(m == manifest);
                assert(is_sealing_of(manifest.dek@, h, pt, enc@));
            }
            if single_passphrase(keys@) is Some {
                let pw = single_passphrase(keys@)->0;
                assert(opened_by_passphrase(pw, opt_view(keys_devices), opt_view(keys_passphrase), manifest));
                assert forall|m: DekManifest, h: EncHeader, pt: Seq<u8>|
                    #![trigger is_sealing_of(m.dek@, h, pt, enc@)]
                    passphrase_gives_only(pw, opt_view(keys_devices), opt_view(keys_passphrase), m)
                        && is_sealing_of(m.dek@, h, pt, enc@) && h.vault_uuid == m.vault_uuid
                        && h.dek_version == m.dek_version implies (r matches Ok(p) ==> p@ == pt) by {
                    assert(m == manifest);
                    assert(is_sealing_of(manifest.dek@, h, pt, enc@));
                }
            }
        }
        r
    }

    /// Enrols a new device: the devices keyslot is opened with the keys and its
    /// manifest rewrapped to the current devices plus the new one. Returns the
    /// new devices keyslot; the bulk file is untouched.
    pub fn enroll_device(
        keys_devices: &[u8],
        existing: &[UnlockKey],
        current_devices: &[String],
        new_device: String,
    ) -> (r: Result<Vec<u8>, VaultError>)
        ensures
            has_invalid_device_key(existing@) ==> r == Err::<Vec<u8>, VaultError>(
                VaultError::InvalidIdentity,
            ),
            valid_device_keys(existing@) ==> (r is Ok <==> keyfile_manifest(
                device_secrets(existing@),
                keys_devices@,
            ) is Ok && recipients_usable(strings_view(current_devices@).push(new_device@))),
            valid_device_keys(existing@) ==> (r matches Ok(f) ==> forall|ids: Seq<Seq<char>>|
                #[trigger] unlocks(ids, strings_view(current_devices@).push(new_device@))
                    ==> age_x25519_open(ids, f@) == Some(
                    manifest_bytes(keyfile_manifest(device_secrets(existing@), keys_devices@)->Ok_0),
                )),
            r matches Ok(f) ==> forall|pw: Seq<char>| #[trigger] age_scrypt_open(pw, f@) is None,
            single_passphrase(existing@) is Some ==> (r matches Ok(f) ==> passphrase_keyfile_manifest(
                single_passphrase(existing@)->0,
                keys_devices@,
            ) is Ok && forall|ids: Seq<Seq<char>>|
                #[trigger] unlocks(ids, strings_view(current_devices@).push(new_device@))
                    ==> age_x25519_open(ids, f@) == Some(
                    manifest_bytes(
                        passphrase_keyfile_manifest(single_passphrase(existing@)->0, keys_devices@)->Ok_0,
                    ),
                )),
    {
        check_keys(existing)?;
        let manifest = unwrap_manifest_from(keys_devices, existing)?;
        let mbytes = manifest.to_bytes();
        let mut all: Vec<String> = Vec::new();
        let n = current_devices.len();
        let mut i: usize = 0;
        while i < n
            invariant
                n == current_devices@.len(),
                i <= n,
                all@ == current_devices@.take(i as int),
            decreases n - i,
        {
            all.push(current_devices[i].clone());
            i = i + 1;
            assert(all@ =~= current_devices@.take(i as int));
        }
        all.push(new_device);
        assert(strings_view(all@) =~= strings_view(current_devices@).push(new_device@)) by {
            assert(current_devices@.take(n as int) =~= current_devices@);
        }
        encrypt_to_devices(mbytes.as_slice(), all.as_slice())
    }

    /// Rotation: unlocks with the keys, generates a new DEK and nonce prefix,
    /// bumps the DEK version (keeping the vault uuid), reseals the plaintext and
    /// rewraps the devices keyslot (and the passphrase keyslot if a passphrase
    /// is given).
    pub fn rotate_dek(
        keys_devices: Option<&[u8]>,
        keys_passphrase: Option<&[u8]>,
        enc: &[u8],
        existing: &[UnlockKey],
        devices: &[String],
        passphrase: Option<String>,
    ) -> (r: Result<VaultFiles, VaultError>)
        ensures
            has_invalid_device_key(existing@) ==> r == Err::<VaultFiles, VaultError>(
                VaultError::InvalidIdentity,
            ),
            r matches Ok(files) ==> (files.keys_passphrase is Write <==> passphrase is Some),
            r matches Ok(files) ==> (files.keys_passphrase is Remove <==> passphrase is None),
            valid_device_keys(existing@) ==> (r matches Ok(files) ==> exists|
                old: DekManifest,
                pt: Seq<u8>,
            |
                #[trigger] rotated_from(files, old, strings_view(devices@), pt, opt_string_view(passphrase))
                    && first_matching(
                    device_secrets(existing@),
                    opt_view(keys_devices),
                    opt_view(keys_passphrase),
                ) == Ok::<DekManifest, VaultError>(old) && opened_file(
                    old.dek@,
                    old.vault_uuid@,
                    old.dek_version,
                    enc@,
                ) == Ok::<Seq<u8>, VaultError>(pt)),
            valid_device_keys(existing@) ==> forall|old: DekManifest, h0: EncHeader, pt0: Seq<u8>|
                #![trigger is_sealing_of(old.dek@, h0, pt0, enc@)]
                first_matching(device_secrets(existing@), opt_view(keys_devices), opt_view(keys_passphrase))
                    == Ok::<DekManifest, VaultError>(old) && is_sealing_of(old.dek@, h0, pt0, enc@)
                    && h0.vault_uuid == old.vault_uuid && h0.dek_version == old.dek_version ==> (
                r matches Ok(files) ==> rotated_from(
                    files,
                    old,
                    strings_view(devices@),
                    pt0,
                    opt_string_view(passphrase),
                )),
            single_passphrase(existing@) is Some ==> (r matches Ok(files) ==> exists|
                old: DekManifest,
                pt: Seq<u8>,
            |
                #[trigger] rotated_from(files, old, strings_view(devices@), pt, opt_string_view(passphrase))
                    && opened_by_passphrase(
                    single_passphrase(existing@)->0,
                    opt_view(keys_devices),
                    opt_view(keys_passphrase),
                    old,
                ) && opened_file(old.dek@, old.vault_uuid@, old.dek_version, enc@) == Ok::<
                    Seq<u8>,
                    VaultError,
                >(pt)),
            single_passphrase(existing@) is Some ==> forall|
                old: DekManifest,
                h0: EncHeader,
                pt0: Seq<u8>,
            |
                #![trigger is_sealing_of(old.dek@, h0, pt0, enc@)]
                passphrase_gives_only(
                    single_passphrase(existing@)->0,
                    opt_view(keys_devices),
                    opt_view(keys_passphrase),
                    old,
                ) && is_sealing_of(old.dek@, h0, pt0, enc@) && h0.vault_uuid == old.vault_uuid
                    && h0.dek_version == old.dek_version ==> (r matches Ok(files) ==> rotated_from(
                    files,
                    old,
                    strings_view(devices@),
                    pt0,
                    opt_string_view(passphrase),
                )),
            valid_device_keys(existing@) && first_matching(
                device_secrets(existing@),
                opt_view(keys_devices),
                opt_view(keys_passphrase),
            ) is Ok && opened_file(
                first_matching(device_secrets(existing@), opt_view(keys_devices), opt_view(keys_passphrase))->Ok_0.dek@,
                first_matching(device_secrets(existing@), opt_view(keys_devices), opt_view(keys_passphrase))->Ok_0.vault_uuid@,
                first_matching(device_secrets(existing@), opt_view(keys_devices), opt_view(keys_passphrase))->Ok_0.dek_version,
                enc@,
            ) is Ok && first_matching(
                device_secrets(existing@),
                opt_view(keys_devices),
                opt_view(keys_passphrase),
            )->Ok_0.dek_version < u32::MAX && devices@.len() > 0 && all_recipients_valid(
                strings_view(devices@),
            ) && no_low_order(strings_view(devices@)) && opened_file(
                first_matching(device_secrets(existing@), opt_view(keys_devices), opt_view(keys_passphrase))->Ok_0.dek@,
                first_matching(device_secrets(existing@), opt_view(keys_devices), opt_view(keys_passphrase))->Ok_0.vault_uuid@,
                first_matching(device_secrets(existing@), opt_view(keys_devices), opt_view(keys_passphrase))->Ok_0.dek_version,
                enc@,
            )->Ok_0.len() / 65536 <= u32::MAX ==> r is Ok,
            valid_device_keys(existing@) ==> (r is Ok <==> rotation_outcome(
                device_secrets(existing@),
                opt_view(keys_devices),
                opt_view(keys_passphrase),
                enc@,
                strings_view(devices@),
            ) is Ok),
            valid_device_keys(existing@) ==> (r matches Err(e) ==> rotation_outcome(
                device_secrets(existing@),
                opt_view(keys_devices),
                opt_view(keys_passphrase),
                enc@,
                strings_view(devices@),
            ) == Err::<(), VaultError>(e)),
    {
        check_keys(existing)?;
        let old = open_first_matching_keyfile(keys_devices, keys_passphrase, existing)?;
        let pt = open_bulk(&old.dek, &old.vault_uuid, old.dek_version, enc)?;
        let mut new_dek = [0u8; 32];
        fill_random(&mut new_dek);
        let mut new_np = [0u8; 7];
        fill_random(&mut new_np);
        let r = rotate_with(&old, pt.as_slice(), new_dek, new_np, devices, passphrase);
        proof {
            if r is Ok {
                let files = r->Ok_0;
                let m = DekManifest {
                    vault_uuid: old.vault_uuid,
                    dek_version: (old.dek_version + 1) as u32,
                    dek: new_dek,
                };
                let pp = opt_string_view(passphrase);
                assert(vault_holds(files, m, manifest_header(m, new_np), strings_view(devices@), pt@));
                assert(rotated_from(files, old, strings_view(devices@), pt@, pp));
                if single_passphrase(existing@) is Some {
                    let pw = single_passphrase(existing@)->0;
                    assert(opened_by_passphrase(pw, opt_view(keys_devices), opt_view(keys_passphrase), old));
                }
            }
        }
        r
    }
}

/// Law (either keyslot alone unlocks; what `init`, `enroll_device` and
/// `rotate_dek` write opens): a vault held under `m` opens, for any identity
/// of one of its devices and whatever passphrase keyslot lies beside it, to
/// its plaintext — the premise of the opening law stated by `Vault::open_to`
/// holds.
pub proof fn lemma_vault_opens(
    files: VaultFiles,
    m: DekManifest,
    h: EncHeader,
    devices: Seq<Seq<char>>,
    pt: Seq<u8>,
    ids: Seq<Seq<char>>,
    passphrase_file: Option<Seq<u8>>,
)
    requires
        vault_holds(files, m, h, devices, pt),
        unlocks(ids, devices),
    ensures
        first_matching(ids, Some(files.keys_devices@), passphrase_file) == Ok::<DekManifest, VaultError>(m),
        is_sealing_of(m.dek@, h, pt, files.enc@),
        h.vault_uuid == m.vault_uuid,
        h.dek_version == m.dek_version,
{
    lemma_manifest_of_bytes(m);
}

/// Law (the passphrase keyslot alone unlocks too; both keyslots wrap one
/// manifest): in a vault held under `m` whose passphrase keyslot holds `m`
/// for `pw`, every keyslot that opens under `pw` gives `m` — with the devices
/// keyslot beside it or without — so the premise of the passphrase opening
/// law of `Vault::open_to` holds: if the opening completes, it gives `pt`.
pub proof fn lemma_passphrase_slot_opens(
    files: VaultFiles,
    m: DekManifest,
    h: EncHeader,
    devices: Seq<Seq<char>>,
    pt: Seq<u8>,
    pw: Seq<char>,
)
    requires
        vault_holds(files, m, h, devices, pt),
        passphrase_slot_holds(files.keys_passphrase, m, pw),
    ensures
        passphrase_gives_only(pw, Some(files.keys_devices@), Some(files.keys_passphrase->Write_0@), m),
        passphrase_gives_only(pw, None, Some(files.keys_passphrase->Write_0@), m),
        opened_by_passphrase(pw, Some(files.keys_devices@), Some(files.keys_passphrase->Write_0@), m),
        is_sealing_of(m.dek@, h, pt, files.enc@),
        h.vault_uuid == m.vault_uuid,
        h.dek_version == m.dek_version,
{
    lemma_manifest_of_bytes(m);
    let f = files.keys_passphrase->Write_0@;
    assert(age_scrypt_open(pw, files.keys_devices@) is None);
    assert(passphrase_keyfile_manifest(pw, f) == Ok::<DekManifest, VaultError>(m));
}

/// Law (a wrapped manifest unwraps to itself): a keyslot file that opens, for
/// device identities or under a passphrase, to the bytes of `m` yields `m`.
pub proof fn lemma_keyslot_unwraps(ids: Seq<Seq<char>>, pw: Seq<char>, file: Seq<u8>, m: DekManifest)
    ensures
        age_x25519_open(ids, file) == Some(manifest_bytes(m)) ==> keyfile_manifest(ids, file) == Ok::<
            DekManifest,
            VaultError,
        >(m),
        age_scrypt_open(pw, file) == Some(manifest_bytes(m)) ==> passphrase_keyfile_manifest(pw, file)
            == Ok::<DekManifest, VaultError>(m),
{
    lemma_manifest_of_bytes(m);
}

/// Law (device churn rewraps the manifest and leaves the bulk file alone):
/// the devices keyslot that `enroll_device` returns, put in place of the old
/// one, keeps the vault whole for the current devices plus the new one.
pub proof fn lemma_enrolled_vault_holds(
    files: VaultFiles,
    m: DekManifest,
    h: EncHeader,
    devices: Seq<Seq<char>>,
    pt: Seq<u8>,
    existing: Seq<Seq<char>>,
    new_devices: Seq<Seq<char>>,
    new_keys: Vec<u8>,
)
    requires
        vault_holds(files, m, h, devices, pt),
        unlocks(existing, devices),
        forall|ids: Seq<Seq<char>>|
            #[trigger] unlocks(ids, new_devices) ==> age_x25519_open(ids, new_keys@) == Some(
                manifest_bytes(keyfile_manifest(existing, files.keys_devices@)->Ok_0),
            ),
        forall|pw: Seq<char>| #[trigger] age_scrypt_open(pw, new_keys@) is None,
    ensures
        vault_holds(
            (VaultFiles { enc: files.enc, keys_devices: new_keys, keys_passphrase: files.keys_passphrase }),
            m,
            h,
            new_devices,
            pt,
        ),
{
    lemma_manifest_of_bytes(m);
    assert(keyfile_manifest(existing, files.keys_devices@) == Ok::<DekManifest, VaultError>(m));
}

} // verus!
