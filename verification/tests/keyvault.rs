use mor_lms::keyvault::age_keys::UnlockKey;
use mor_lms::keyvault::bulk::{open_bulk, seal_bulk};
use mor_lms::keyvault::format::{DekManifest, EncHeader, VaultError};
use mor_lms::keyvault::paths::{with_suffix, VaultPaths};
use mor_lms::keyvault::vault::{init_with, provision_identity, rotate_with, KeySlotUpdate, Vault};

fn header(version: u32) -> EncHeader {
    EncHeader { vault_uuid: [7u8; 16], dek_version: version, chunk_size: 65536, nonce_prefix: [3u8; 7] }
}

#[test]
fn header_layout_is_fixed() {
    let h = EncHeader { vault_uuid: [1u8; 16], dek_version: 0x01020304, chunk_size: 65536, nonce_prefix: [9u8; 7] };
    let b = h.to_bytes();
    assert_eq!(&b[0..8], b"MORBRN01");
    assert_eq!(&b[8..24], &[1u8; 16]);
    assert_eq!(&b[24..28], &[4, 3, 2, 1]);
    assert_eq!(&b[28..32], &[0, 0, 1, 0]);
    assert_eq!(&b[32..39], &[9u8; 7]);
    assert_eq!(&b[39..44], &[0u8; 5]);
}

#[test]
fn header_roundtrip() {
    let h = header(5);
    let back = EncHeader::from_bytes(&h.to_bytes()).unwrap();
    assert_eq!(back.vault_uuid, h.vault_uuid);
    assert_eq!(back.dek_version, 5);
    assert_eq!(back.chunk_size, 65536);
    assert_eq!(back.nonce_prefix, h.nonce_prefix);
}

#[test]
fn header_errors() {
    let b = header(1).to_bytes();
    assert_eq!(EncHeader::from_bytes(&b[..43]).unwrap_err(), VaultError::HeaderLength);
    let mut bad = b;
    bad[0] = b'X';
    assert_eq!(EncHeader::from_bytes(&bad).unwrap_err(), VaultError::HeaderMagic);
}

#[test]
fn manifest_roundtrip_and_errors() {
    let m = DekManifest { vault_uuid: [2u8; 16], dek_version: 3, dek: [5u8; 32] };
    let b = m.to_bytes();
    assert_eq!(&b[0..4], b"MKEY");
    assert_eq!(&b[56..60], &[0u8; 4]);
    let back = DekManifest::from_bytes(&b).unwrap();
    assert_eq!(back.vault_uuid, m.vault_uuid);
    assert_eq!(back.dek_version, 3);
    assert_eq!(back.dek, m.dek);
    assert_eq!(DekManifest::from_bytes(&b[..59]).unwrap_err(), VaultError::ManifestLength);
    let mut bad = b;
    bad[3] = b'Z';
    assert_eq!(DekManifest::from_bytes(&bad).unwrap_err(), VaultError::ManifestMagic);
}

#[test]
fn bulk_roundtrip_various_sizes() {
    let dek = [11u8; 32];
    let h = header(1);
    for len in [0usize, 1, 65535, 65536, 65537, 2 * 65536 + 5] {
        let pt: Vec<u8> = (0..len).map(|i| (i % 251) as u8).collect();
        let ct = seal_bulk(&dek, &h, &pt).unwrap();
        let full = len / 65536;
        assert_eq!(ct.len(), 44 + full * 65552 + (len % 65536) + 16);
        let back = open_bulk(&dek, &h.vault_uuid, 1, &ct).unwrap();
        assert_eq!(back, pt);
    }
}

#[test]
fn bulk_rejections() {
    let dek = [11u8; 32];
    let h = header(1);
    let ct = seal_bulk(&dek, &h, b"hello vault").unwrap();
    assert_eq!(open_bulk(&dek, &[0u8; 16], 1, &ct).unwrap_err(), VaultError::UuidMismatch);
    assert_eq!(open_bulk(&dek, &h.vault_uuid, 2, &ct).unwrap_err(), VaultError::VersionMismatch);
    assert_eq!(open_bulk(&dek, &h.vault_uuid, 1, &ct[..20]).unwrap_err(), VaultError::TruncatedHeader);
    assert_eq!(open_bulk(&dek, &h.vault_uuid, 1, &ct[..50]).unwrap_err(), VaultError::TruncatedChunk);
    assert_eq!(open_bulk(&[12u8; 32], &h.vault_uuid, 1, &ct).unwrap_err(), VaultError::DecryptChunk);
    let mut tampered = ct.clone();
    let last = tampered.len() - 1;
    tampered[last] ^= 1;
    assert_eq!(open_bulk(&dek, &h.vault_uuid, 1, &tampered).unwrap_err(), VaultError::DecryptChunk);
    let odd = EncHeader { chunk_size: 4096, ..h };
    let ct2 = seal_bulk(&dek, &odd, b"x").unwrap();
    assert_eq!(open_bulk(&dek, &h.vault_uuid, 1, &ct2).unwrap_err(), VaultError::UnsupportedChunkSize(4096));
}

#[test]
fn init_then_open_with_device() {
    let d = provision_identity();
    assert!(d.recipient.starts_with("age1"));
    let files = Vault::init(&[d.recipient.clone()], None, b"my brain").unwrap();
    assert!(matches!(files.keys_passphrase, KeySlotUpdate::Untouched));
    assert_eq!(&files.enc[0..8], b"MORBRN01");
    let pt = Vault::open_to(Some(&files.keys_devices), None, &files.enc, &[UnlockKey::Device(d.secret.clone())]).unwrap();
    assert_eq!(pt, b"my brain");
}

#[test]
fn init_errors() {
    assert_eq!(Vault::init(&[], None, b"x").err().unwrap(), VaultError::NoRecipients);
    assert_eq!(Vault::init(&["not a key".to_string()], None, b"x").err().unwrap(), VaultError::InvalidRecipient);
    // The all-zero public key and the order-8 point u = e0eb7a7c..., both valid age recipients.
    let zero = "age1qqqqqqqqqqqqqqqqqqqqqqqqqqqqqqqqqqqqqqqqqqqqqqqqqqqq5cu47z".to_string();
    let order8 = "age1ur4h5lpmgxu2u9jku0a0r87ydtdqnr0tnsetrlvxvgz3vh6fhqqqzyt4v9".to_string();
    assert!(zero.parse::<age::x25519::Recipient>().is_ok() && order8.parse::<age::x25519::Recipient>().is_ok());
    let d = provision_identity();
    assert_eq!(Vault::init(&[d.recipient.clone(), zero.clone()], None, b"x").err().unwrap(), VaultError::LowOrderRecipient);
    assert_eq!(Vault::init(&[order8.to_uppercase()], None, b"x").err().unwrap(), VaultError::LowOrderRecipient);
    assert_eq!(Vault::init(&[zero, "not a key".to_string()], None, b"x").err().unwrap(), VaultError::InvalidRecipient);
}

#[test]
fn open_with_wrong_or_invalid_key() {
    let d = provision_identity();
    let other = provision_identity();
    let files = Vault::init(&[d.recipient.clone()], None, b"secret").unwrap();
    assert_eq!(
        Vault::open_to(Some(&files.keys_devices), None, &files.enc, &[UnlockKey::Device(other.secret.clone())]).unwrap_err(),
        VaultError::NoUsableKeyFile
    );
    assert_eq!(
        Vault::open_to(Some(&files.keys_devices), None, &files.enc, &[UnlockKey::Device("garbage".to_string())]).unwrap_err(),
        VaultError::InvalidIdentity
    );
    assert_eq!(Vault::open_to(None, None, &files.enc, &[UnlockKey::Device(d.secret.clone())]).unwrap_err(), VaultError::NoUsableKeyFile);
}

#[test]
fn passphrase_keyslot_unlocks_alone() {
    let d = provision_identity();
    let files = Vault::init(&[d.recipient.clone()], Some("hunter2".to_string()), b"either one").unwrap();
    let pass = match &files.keys_passphrase {
        KeySlotUpdate::Write(p) => p.clone(),
        other => panic!("passphrase keyslot not written: {:?}", other),
    };
    let pt = Vault::open_to(None, Some(&pass), &files.enc, &[UnlockKey::Passphrase("hunter2".to_string())]).unwrap();
    assert_eq!(pt, b"either one");
}

#[test]
fn enroll_lets_new_device_in() {
    let d1 = provision_identity();
    let d2 = provision_identity();
    let files = Vault::init(&[d1.recipient.clone()], None, b"shared").unwrap();
    let new_keys = Vault::enroll_device(&files.keys_devices, &[UnlockKey::Device(d1.secret.clone())], &[d1.recipient.clone()], d2.recipient.clone()).unwrap();
    for d in [&d1, &d2] {
        let pt = Vault::open_to(Some(&new_keys), None, &files.enc, &[UnlockKey::Device(d.secret.clone())]).unwrap();
        assert_eq!(pt, b"shared");
    }
}

#[test]
fn rotate_keeps_plaintext_and_bumps_version() {
    let d = provision_identity();
    let files = Vault::init(&[d.recipient.clone()], None, b"rotate me").unwrap();
    let key = [UnlockKey::Device(d.secret.clone())];
    let rotated = Vault::rotate_dek(Some(&files.keys_devices), None, &files.enc, &key, &[d.recipient.clone()], None).unwrap();
    // Without a passphrase the old passphrase keyslot, holding the old DEK, is removed.
    assert!(matches!(rotated.keys_passphrase, KeySlotUpdate::Remove));
    let h = EncHeader::from_bytes(&rotated.enc[..44]).unwrap();
    let h0 = EncHeader::from_bytes(&files.enc[..44]).unwrap();
    assert_eq!(h.dek_version, 2);
    assert_eq!(h.vault_uuid, h0.vault_uuid);
    let pt = Vault::open_to(Some(&rotated.keys_devices), None, &rotated.enc, &key).unwrap();
    assert_eq!(pt, b"rotate me");
    // The old keyslot names the old version: a stale keyfile.
    assert_eq!(Vault::open_to(Some(&files.keys_devices), None, &rotated.enc, &key).unwrap_err(), VaultError::VersionMismatch);
}

#[test]
fn paths_from_base() {
    let p = VaultPaths::from_base("/data/my_brain");
    assert_eq!(p.enc, "/data/my_brain.enc");
    assert_eq!(p.keys_devices, "/data/my_brain.keys.devices");
    assert_eq!(p.keys_passphrase, "/data/my_brain.keys.passphrase");
    let q = VaultPaths::from_base("my_brain");
    assert_eq!(q.enc, "my_brain.enc");
    assert_eq!(with_suffix("/x/my_brain.enc", ".tmp"), "/x/my_brain.enc.tmp");
}

#[test]
fn rotate_rewrites_passphrase_keyslot() {
    let d = provision_identity();
    let files = Vault::init(&[d.recipient.clone()], Some("pw".to_string()), b"both slots").unwrap();
    let key = [UnlockKey::Device(d.secret.clone())];
    let rotated = Vault::rotate_dek(Some(&files.keys_devices), None, &files.enc, &key, &[d.recipient.clone()], Some("pw".to_string())).unwrap();
    let pass = match &rotated.keys_passphrase {
        KeySlotUpdate::Write(p) => p.clone(),
        other => panic!("passphrase keyslot not rewritten: {:?}", other),
    };
    let pt = Vault::open_to(None, Some(&pass), &rotated.enc, &[UnlockKey::Passphrase("pw".to_string())]).unwrap();
    assert_eq!(pt, b"both slots");
}

#[test]
fn passphrase_key_opens_and_rotates_with_both_slots_present() {
    let d = provision_identity();
    let files = Vault::init(&[d.recipient.clone()], Some("pw".to_string()), b"two slots").unwrap();
    let pass = match &files.keys_passphrase {
        KeySlotUpdate::Write(p) => p.clone(),
        other => panic!("passphrase keyslot not written: {:?}", other),
    };
    let pw = [UnlockKey::Passphrase("pw".to_string())];
    let pt = Vault::open_to(Some(&files.keys_devices), Some(&pass), &files.enc, &pw).unwrap();
    assert_eq!(pt, b"two slots");
    assert!(Vault::open_to(Some(&files.keys_devices), Some(&pass), &files.enc, &[UnlockKey::Passphrase("wrong".to_string())]).is_err());
    let rotated = Vault::rotate_dek(Some(&files.keys_devices), Some(&pass), &files.enc, &pw, &[d.recipient.clone()], Some("pw".to_string())).unwrap();
    let new_pass = match &rotated.keys_passphrase {
        KeySlotUpdate::Write(p) => p.clone(),
        other => panic!("passphrase keyslot not rewritten: {:?}", other),
    };
    assert_eq!(Vault::open_to(None, Some(&new_pass), &rotated.enc, &pw).unwrap(), b"two slots");
    assert_eq!(Vault::open_to(Some(&rotated.keys_devices), None, &rotated.enc, &[UnlockKey::Device(d.secret.clone())]).unwrap(), b"two slots");
}

#[test]
fn init_with_and_rotate_with_use_the_given_key_material() {
    let d = provision_identity();
    let dek = [5u8; 32];
    let uuid = [6u8; 16];
    let np = [7u8; 7];
    let files = init_with(dek, uuid, np, &[d.recipient.clone()], None, b"exact").unwrap();
    let h = EncHeader { vault_uuid: uuid, dek_version: 1, chunk_size: 65536, nonce_prefix: np };
    assert_eq!(files.enc, seal_bulk(&dek, &h, b"exact").unwrap());
    assert_eq!(Vault::open_to(Some(&files.keys_devices), None, &files.enc, &[UnlockKey::Device(d.secret.clone())]).unwrap(), b"exact");

    let old = DekManifest { vault_uuid: uuid, dek_version: 1, dek };
    let new_dek = [8u8; 32];
    let new_np = [9u8; 7];
    let rotated = rotate_with(&old, b"exact", new_dek, new_np, &[d.recipient.clone()], None).unwrap();
    let h2 = EncHeader { vault_uuid: uuid, dek_version: 2, chunk_size: 65536, nonce_prefix: new_np };
    assert_eq!(rotated.enc, seal_bulk(&new_dek, &h2, b"exact").unwrap());
    assert!(matches!(rotated.keys_passphrase, KeySlotUpdate::Remove));
    let maxed = DekManifest { dek_version: u32::MAX, ..old };
    assert_eq!(rotate_with(&maxed, b"x", new_dek, new_np, &[d.recipient.clone()], None).err().unwrap(), VaultError::VersionOverflow);
}
