use sidestep::models::sync::{verify_signature_with_key, SyncError};
use sidestep::models::sync::{last_sync_text, device_subpath, is_due, parse_last_sync, tarball_url, signature_url, user_data_dir, verify_signature};

#[test]
fn maps_device_files_and_ignores_others() {
    // Maintainer bundle: entries rooted directly at data/devices.
    assert_eq!(
        device_subpath("data/devices/google/sargo/info.yml"),
        Some("google/sargo/info.yml".to_string())
    );
    // GitHub-style archive with a top-level wrapper dir also works.
    assert_eq!(
        device_subpath("Sidestep-main/data/devices/google/sargo/info.yml"),
        Some("google/sargo/info.yml".to_string())
    );
    // Non-device paths and the bare prefix are ignored.
    assert_eq!(device_subpath("Sidestep-main/README.md"), None);
    assert_eq!(device_subpath("data/devices"), None);
    assert_eq!(device_subpath("Sidestep-main/src/main.rs"), None);
}

#[test]
fn rejects_path_traversal() {
    // A crafted tarball must not escape the target directory.
    assert_eq!(device_subpath("data/devices/../../../.bashrc"), None);
    assert_eq!(
        device_subpath("Sidestep-0.3.0/data/devices/a/../../../etc/passwd"),
        None
    );
    // A normal nested path still maps through.
    assert_eq!(
        device_subpath("data/devices/google/sargo/info.yml"),
        Some("google/sargo/info.yml".to_string())
    );
}

#[test]
fn device_subpath_normalises_separators_and_dots() {
    assert_eq!(device_subpath("data//devices/./google/sargo"), Some("google/sargo".to_string()));
    assert_eq!(device_subpath("/data/devices/google"), Some("google".to_string()));
    assert_eq!(device_subpath("top/data/devices/"), None);
}

#[test]
fn sync_is_due_when_never_synced_or_interval_passed() {
    assert!(is_due(None, 0, 24));
    assert!(!is_due(Some(1000), 1000 + 3599, 1));
    assert!(is_due(Some(1000), 1000 + 3600, 1));
    // An interval below one hour counts as one hour.
    assert!(!is_due(Some(0), 3599, 0));
    assert!(is_due(Some(0), 3600, -5));
    // A clock behind the last sync counts as no time passed.
    assert!(!is_due(Some(5000), 10, 1));
    assert!(is_due(Some(0), 24 * 3600, 24));
}

#[test]
fn last_sync_file_is_trimmed_and_parsed() {
    assert_eq!(parse_last_sync("1700000000\n"), Some(1700000000));
    assert_eq!(parse_last_sync("  42  "), Some(42));
    assert_eq!(parse_last_sync("+7"), Some(7));
    assert_eq!(parse_last_sync(""), None);
    assert_eq!(parse_last_sync("12a"), None);
    assert_eq!(parse_last_sync("-1"), None);
    assert_eq!(parse_last_sync("18446744073709551615"), Some(u64::MAX));
    assert_eq!(parse_last_sync("18446744073709551616"), None);
}

#[test]
fn sync_urls_and_data_dir() {
    assert_eq!(
        tarball_url(),
        "https://github.com/tobagin/Sidestep/releases/download/v0.3.0/devices.tar.gz"
    );
    assert_eq!(
        signature_url(),
        "https://github.com/tobagin/Sidestep/releases/download/v0.3.0/devices.tar.gz.minisig"
    );
    assert_eq!(user_data_dir(Some("/home/u/.local/share")), "/home/u/.local/share/sidestep");
    assert_eq!(user_data_dir(Some("/data/")), "/data/sidestep");
    assert_eq!(user_data_dir(None), "/tmp/sidestep");
}

#[test]
fn unsigned_bundle_accepted_while_no_key_is_configured() {
    assert!(verify_signature(b"bundle", None).is_ok());
}

#[test]
fn configured_key_requires_a_decodable_signature() {
    assert_eq!(verify_signature_with_key("  ", b"bundle", None), Ok(()));
    assert_eq!(verify_signature_with_key("RWQkey", b"bundle", None), Err(SyncError::MissingSignature));
    assert_eq!(
        verify_signature_with_key("not a key", b"bundle", Some("not a signature")),
        Err(SyncError::InvalidPublicKey)
    );
}

const SIGNING_KEY: &str = "RWQf6LRCGA9i53mlYecO4IzT51TGPpvWucNSCh1CBM0QTaLn73Y7GFO3";
const SIGNATURE_OF_TEST: &str = "untrusted comment: signature from minisign secret key
RUQf6LRCGA9i559r3g7V1qNyJDApGip8MfqcadIgT9CuhV3EMhHoN1mGTkUidF/z7SrlQgXdy8ofjb7bNJJylDOocrCo8KLzZwo=
trusted comment: timestamp:1556193335\tfile:test
y/rUw2y8/hOUYjZU71eHp/Wo1KZ40fGy2VJEDl34XMJM+TX48Ss/17u3IvIfbVR1FkZZSNCisQbuQY+bHwhEBg==";

#[test]
fn signed_bundle_verifies_and_altered_bundle_is_refused() {
    assert_eq!(verify_signature_with_key(SIGNING_KEY, b"test", Some(SIGNATURE_OF_TEST)), Ok(()));
    assert_eq!(
        verify_signature_with_key(&format!("  {SIGNING_KEY}\n"), b"test", Some(SIGNATURE_OF_TEST)),
        Ok(())
    );
    assert_eq!(
        verify_signature_with_key(SIGNING_KEY, b"Test", Some(SIGNATURE_OF_TEST)),
        Err(SyncError::VerificationFailed)
    );
    assert_eq!(
        verify_signature_with_key(SIGNING_KEY, b"test", Some("not a signature")),
        Err(SyncError::MalformedSignature)
    );
}

#[test]
fn last_sync_reads_as_a_relative_time() {
    assert_eq!(last_sync_text(None, 100), "Never");
    assert_eq!(last_sync_text(Some(100), 159), "Just now");
    assert_eq!(last_sync_text(Some(200), 100), "Just now");
    assert_eq!(last_sync_text(Some(0), 60), "1 minutes ago");
    assert_eq!(last_sync_text(Some(0), 3599), "59 minutes ago");
    assert_eq!(last_sync_text(Some(0), 7200), "2 hours ago");
    assert_eq!(last_sync_text(Some(0), 86400 * 3 + 5), "3 days ago");
}
