use sidestep::flashing::progress::{Action, InstallProgress};
use sidestep::flashing::ubports::{bootstrap_label, escape_quotes, SystemFile, UbportsError, UbportsInstaller};
use sidestep::models::installer::{BootstrapStep, FirmwareImage};
use sidestep::models::system_image::{SystemImageEntry, SystemImageFile, SystemImageIndex};

fn installer(firmware: usize, bootstrap: Vec<BootstrapStep>) -> UbportsInstaller {
    UbportsInstaller::new(
        "S".into(),
        "ubports-touch/20.04/stable/sargo".into(),
        (0..firmware)
            .map(|i| FirmwareImage {
                url: format!("https://f/{i}.img"),
                filename: format!("{i}.img"),
                partition: "boot".into(),
                sha256: "h".into(),
                flags: vec![],
            })
            .collect(),
        vec![],
        bootstrap,
        "/c",
    )
}

fn file(path: &str, sum: &str, size: u64) -> SystemImageFile {
    SystemImageFile {
        path: path.into(),
        checksum: sum.into(),
        order: 0,
        size,
        signature: format!("{path}.asc"),
    }
}

#[test]
fn ubports_needs_firmware_or_a_bootstrap() {
    assert_eq!(installer(0, vec![]).check(), Err(UbportsError::NoFirmware));
    assert!(installer(1, vec![]).check().is_ok());
    let boot = installer(0, vec![BootstrapStep::Reboot]);
    assert!(boot.check().is_ok());
    assert!(boot.use_bootstrap());
    assert!(!boot.heimdall_boot());
    assert!(!installer(1, vec![]).use_bootstrap());
    let odin = installer(0, vec![BootstrapStep::Wait, BootstrapStep::HeimdallFlash { partition: "BOOT".into(), file: "b.img".into() }]);
    assert!(odin.heimdall_boot());
    assert_eq!(boot.index_url(), "https://system-image.ubports.com/ubports-touch/20.04/stable/sargo/index.json");
    assert_eq!(boot.resolve_file("unpacked/boot.img"), "/c/ubports/unpacked/boot.img");
}

#[test]
fn bootstrap_steps_are_labelled() {
    assert_eq!(
        bootstrap_label(&BootstrapStep::Flash { partition: "boot".into(), file: "b".into(), flags: vec![] }),
        "Flashing boot..."
    );
    assert_eq!(bootstrap_label(&BootstrapStep::SetActive { slot: "a".into() }), "Setting active slot a...");
    assert_eq!(bootstrap_label(&BootstrapStep::RebootFastboot), "Rebooting to fastbootd...");
    assert_eq!(
        bootstrap_label(&BootstrapStep::HeimdallFlash { partition: "BOOT".into(), file: "b".into() }),
        "Flashing BOOT (Odin)..."
    );
    assert_eq!(
        bootstrap_label(&BootstrapStep::AssertVar { variable: "unlocked".into(), value: "yes".into() }),
        "Checking unlocked..."
    );
}

#[test]
fn preconditions_compare_the_trimmed_value() {
    assert_eq!(UbportsInstaller::precondition_failure("unlocked", " yes\n", "yes"), None);
    assert_eq!(
        UbportsInstaller::precondition_failure("unlocked", "no ", "yes"),
        Some("Device precondition failed: unlocked is 'no', expected 'yes'".to_string())
    );
}

#[test]
fn system_image_downloads_and_files() {
    let entry = SystemImageEntry {
        image_type: "full".into(),
        version: 12,
        files: vec![file("/pool/ubports-a.tar.xz", "aa", 10), file("/pool/device-b.tar.xz", "bb", 32)],
    };
    let items = UbportsInstaller::system_items(&entry);
    assert_eq!(items.len(), 4);
    assert_eq!(items[0].url, "https://system-image.ubports.com/pool/ubports-a.tar.xz");
    assert_eq!(items[0].file_name, "ubports-a.tar.xz");
    assert_eq!(items[0].checksum.as_deref(), Some("aa"));
    assert_eq!(items[1].file_name, "ubports-a.tar.xz.asc");
    assert_eq!(items[1].checksum, None);
    assert_eq!(UbportsInstaller::total_size(&entry), Some(42));
    let huge = SystemImageEntry {
        image_type: "full".into(),
        version: 1,
        files: vec![file("/a", "a", u64::MAX), file("/b", "b", 1)],
    };
    assert_eq!(UbportsInstaller::total_size(&huge), None);

    let inst = installer(1, vec![]);
    let files = inst.system_files(&entry).unwrap();
    assert_eq!(files.len(), 4);
    assert_eq!(files[0].local_path, "/c/ubports/ubports-a.tar.xz");
    assert_eq!(files[0].remote_name, "ubports-a.tar.xz");
    assert_eq!(files[0].checksum, "aa");
    assert_eq!(files[1].local_path, "/c/ubports/ubports-a.tar.xz.asc");
    assert_eq!(files[1].remote_name, "ubports-a.tar.xz.asc");
    assert_eq!(files[1].checksum, "");
    assert_eq!(files[2].checksum, "bb");
    let bad = SystemImageEntry { image_type: "full".into(), version: 1, files: vec![file("/pool/..", "x", 1)] };
    assert!(inst.system_files(&bad).is_err());

    let plan = UbportsInstaller::system_image_plan(&entry);
    assert_eq!(plan.len(), 4);
    match (&plan[0], &plan[1]) {
        (
            Action::Download { url, file_name, sha256, context, .. },
            Action::Download { url: sig_url, sha256: sig_sha, context: sig_ctx, .. },
        ) => {
            assert_eq!(url, "https://system-image.ubports.com/pool/ubports-a.tar.xz");
            assert_eq!(file_name, "ubports-a.tar.xz");
            assert_eq!(sha256.as_deref(), Some("aa"));
            assert_eq!(context, "Failed to download ubports-a.tar.xz");
            assert_eq!(sig_url, "https://system-image.ubports.com/pool/ubports-a.tar.xz.asc");
            assert_eq!(sig_sha, &None);
            assert_eq!(sig_ctx, "Failed to download signature ubports-a.tar.xz.asc");
        }
        other => panic!("unexpected {other:?}"),
    }
    let keys = UbportsInstaller::keyrings_plan();
    assert_eq!(keys.len(), 8);
    match (&keys[0], &keys[1]) {
        (Action::Report(InstallProgress::StatusChanged(s)), Action::Download { url, context, .. }) => {
            assert_eq!(s, "Downloading image-master.tar.xz...");
            assert_eq!(url, "https://system-image.ubports.com/gpg/image-master.tar.xz");
            assert_eq!(context, "Failed to download GPG keyring image-master.tar.xz");
        }
        other => panic!("unexpected {other:?}"),
    }

    let keyrings = UbportsInstaller::keyring_items();
    assert_eq!(keyrings[0].url, "https://system-image.ubports.com/gpg/image-master.tar.xz");
    assert_eq!(keyrings[3].file_name, "image-signing.tar.xz.asc");
}

#[test]
fn ubuntu_command_updates_each_tarball() {
    let files = vec![
        SystemFile { local_path: "/c/a.tar.xz".into(), remote_name: "a.tar.xz".into(), checksum: "x".into() },
        SystemFile { local_path: "/c/v.json".into(), remote_name: "v.json".into(), checksum: "y".into() },
    ];
    assert_eq!(
        UbportsInstaller::ubuntu_command(&files),
        "echo 'format system\nload_keyring image-master.tar.xz image-master.tar.xz.asc\nload_keyring image-signing.tar.xz image-signing.tar.xz.asc\nmount system\nformat data\nupdate a.tar.xz a.tar.xz.asc\nunmount system' > /cache/recovery/ubuntu_command"
    );
    assert_eq!(escape_quotes("it's"), "it'\\''s");
}

#[test]
fn latest_full_image_is_chosen() {
    let e = |t: &str, v: u32| SystemImageEntry { image_type: t.into(), version: v, files: vec![] };
    let index = SystemImageIndex { images: vec![e("full", 3), e("delta", 9), e("full", 7), e("full", 5)] };
    assert_eq!(index.latest_full().map(|x| x.version), Some(7));
    let none = SystemImageIndex { images: vec![e("delta", 1)] };
    assert!(none.latest_full().is_none());
}

#[test]
fn legacy_firmware_is_downloaded_with_its_checksum() {
    let plan = installer(2, vec![]).firmware_downloads_plan();
    assert_eq!(plan.len(), 2);
    match &plan[1] {
        Action::Download { url, file_name, sha256, label, context } => {
            assert_eq!(url, "https://f/1.img");
            assert_eq!(file_name, "1.img");
            assert_eq!(sha256.as_deref(), Some("h"));
            assert_eq!(label, "1.img");
            assert_eq!(context, "Failed to download 1.img");
        }
        other => panic!("unexpected {other:?}"),
    }
    assert!(installer(0, vec![]).firmware_downloads_plan().is_empty());
}
