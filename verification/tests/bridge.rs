use mor_lms::bridge::{
    accepts_incoming, feed_plaintext, outgoing_body, parse_command, save_vault, unknown_command, unlock,
    Command, Reply, MAX_INCOMING, MAX_OUTGOING,
};
use mor_lms::keyvault::age_keys::UnlockKey;
use mor_lms::keyvault::vault::{provision_identity, KeySlotUpdate, Vault};

#[test]
fn bridge_commands_and_limits() {
    assert_eq!(parse_command("fetch_feed"), Command::FetchFeed);
    assert_eq!(parse_command("save_vault"), Command::SaveVault);
    assert_eq!(parse_command("unlock"), Command::Unlock);
    assert_eq!(parse_command("delete_all"), Command::Unknown);
    assert_eq!(unknown_command(), Reply::Error("Unknown command".to_string()));
    assert!(accepts_incoming(MAX_INCOMING));
    assert!(!accepts_incoming(MAX_INCOMING + 1));
    assert_eq!(outgoing_body("{\"status\":\"ok\"}".to_string()), "{\"status\":\"ok\"}");
    let big = "x".repeat(MAX_OUTGOING + 1);
    assert_eq!(outgoing_body(big), "{\"error\":\"response_too_large\"}");
    assert_eq!(outgoing_body("y".repeat(MAX_OUTGOING)).len(), MAX_OUTGOING);
}

#[test]
fn bridge_unlock_provisions_once() {
    let r = unlock(
        Some("age1stored".to_string()),
        || -> Result<String, String> { panic!("no provisioning when a key is on file") },
        |_pk: String| -> Result<(), String> { panic!("nothing to persist") },
    );
    assert_eq!(r, Reply::Unlocked("age1stored".to_string()));
    let mut persisted = None;
    let r = unlock(None, || Ok("age1new".to_string()), |pk: String| {
        persisted = Some(pk);
        Ok(())
    });
    assert_eq!(r, Reply::Provisioned("age1new".to_string()));
    assert_eq!(persisted.as_deref(), Some("age1new"));
    let r = unlock(None, || Err("locked".to_string()), |_pk: String| Ok(()));
    assert_eq!(r, Reply::Error("Keyring failed: locked".to_string()));
    let r = unlock(None, || Ok("age1new".to_string()), |_pk: String| Err("disk full".to_string()));
    assert_eq!(r, Reply::Error("Failed to persist state: disk full".to_string()));
}

#[test]
fn bridge_save_requires_payload_state_and_key() {
    assert_eq!(save_vault(None, Some("age1x".to_string())).unwrap_err(), Reply::Error("No payload provided".to_string()));
    assert_eq!(
        save_vault(Some("[]".to_string()), None).unwrap_err(),
        Reply::Error("Vault not initialized; send `unlock` first".to_string())
    );
    assert_eq!(
        save_vault(Some("[]".to_string()), Some("not-a-key".to_string())).unwrap_err(),
        Reply::Error("Invalid device public key".to_string())
    );
    assert_eq!(
        save_vault(Some("[]".to_string()), Some("age1qqqqqqqqqqqqqqqqqqqqqqqqqqqqqqqqqqqqqqqqqqqqqqqqqqqq5cu47z".to_string())).unwrap_err(),
        Reply::Error("Invalid device public key".to_string())
    );
}

#[test]
fn bridge_save_then_fetch_roundtrip() {
    let device = provision_identity();
    let payload = "[{\"id\":\"a\"}]".to_string();
    let files = save_vault(Some(payload.clone()), Some(device.recipient.clone())).unwrap();
    assert!(matches!(files.keys_passphrase, KeySlotUpdate::Untouched));
    let keys = vec![UnlockKey::Device(device.secret.clone())];
    let pt = feed_plaintext(Some(&files.enc), Some(&files.keys_devices), None, &keys).unwrap();
    assert_eq!(pt, payload.as_bytes());
    assert_eq!(Vault::open_to(Some(&files.keys_devices), None, &files.enc, &keys).unwrap(), payload.as_bytes());
    assert!(feed_plaintext(None, Some(&files.keys_devices), None, &keys).is_none());
    let stranger = provision_identity();
    assert!(feed_plaintext(Some(&files.enc), Some(&files.keys_devices), None, &[UnlockKey::Device(stranger.secret)]).is_none());
}
