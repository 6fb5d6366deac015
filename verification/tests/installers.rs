use sidestep::flashing::eos::{EosError, EosInstaller};
use sidestep::flashing::grapheneos::{GrapheneosError, GrapheneosInstaller};
use sidestep::flashing::lineageos::{LineageError, LineageFile, LineageosInstaller};
use sidestep::flashing::mobian::{MobianError, MobianInstaller};
use sidestep::flashing::postmarketos::{PmosError, PostmarketosInstaller};
use sidestep::flashing::progress::{advance, first_step, script_line, Action, InstallProgress, Next, Outcome};
use sidestep::hardware::adb::Adb;
use sidestep::hardware::fastboot::Fastboot;
use sidestep::models::installer::{BootstrapStep, FlashOperation};
use sidestep::flashing::ubports::{bootstrap_label, UbportsInstaller};
use sidestep::hardware::heimdall::Heimdall;

fn pmos() -> PostmarketosInstaller {
    PostmarketosInstaller::new(
        "S".into(),
        "https://images.postmarketos.org/bpo/".into(),
        "v24.06".into(),
        "phosh".into(),
        "google-sargo".into(),
        vec![
            FlashOperation::Flash { partition: "boot".into(), source: "boot".into(), flags: vec![] },
            FlashOperation::Erase { partition: "dtbo".into() },
            FlashOperation::Oem { args: vec!["uart".into(), "enable".into()] },
        ],
        "/cache",
    )
}

const HASH_A: &str = "aaaaaaaaaaaaaaaaaaaaaaaaaaaaaaaaaaaaaaaaaaaaaaaaaaaaaaaaaaaaaaaa";
const HASH_B: &str = "bbbbbbbbbbbbbbbbbbbbbbbbbbbbbbbbbbbbbbbbbbbbbbbbbbbbbbbbbbbbbbbb";

#[test]
fn postmarketos_finds_the_latest_build_and_its_images() {
    let p = pmos();
    assert_eq!(p.listing_url(), "https://images.postmarketos.org/bpo/v24.06/google-sargo/phosh/");
    let listing = "<a href=\"20240101-0102/\">x</a>\n<a href=\"20240315-1200/\">y</a>\n<a href=\"latest/\">z</a>\n<a href=\"2024031-1200x/\">w</a>";
    assert_eq!(p.discover_latest_build(listing), Ok("20240315-1200".to_string()));
    assert_eq!(p.discover_latest_build("<a href=\"README\">r</a>"), Err(PmosError::NoBuilds));
    assert_eq!(PostmarketosInstaller::build_url("L/", "20240315-1200"), "L/20240315-1200/");
    let dir = format!(
        "<a href=\"x-boot.img.xz\">b</a>\n<a href=\"x-boot.img.xz.sha256\">sha256</a>: {}\n<a href=\"x.img.xz\">r</a>\n<a href=\"x.img.xz.sha256\">s</a>\n<td>sha256</a>: {}</td>\n",
        HASH_A, HASH_B
    );
    assert_eq!(
        p.discover_images(&dir),
        Ok(("x-boot.img.xz".to_string(), HASH_A.to_string(), "x.img.xz".to_string(), HASH_B.to_string()))
    );
    assert_eq!(p.discover_images("<a href=\"x.img.xz\">r</a>"), Err(PmosError::NoBootImage));
    assert_eq!(p.discover_images("<a href=\"x-boot.img.xz\">r</a>"), Err(PmosError::NoRootfsImage));
    assert_eq!(
        PostmarketosInstaller::extract_sha256("a.img.xz.sha256\nsha256</a>: short\n", "a.img.xz"),
        Err(PmosError::NoHash("a.img.xz".to_string()))
    );
    assert_eq!(p.resolve_source("rootfs", "/b", "/r"), "/r");
    assert_eq!(p.resolve_source("other.img", "/b", "/r"), "other.img");
    assert!(p.check().is_ok());
}

#[test]
fn postmarketos_plan_flashes_decompressed_images_then_reboots() {
    let p = pmos();
    let plan = p.plan(&Adb::new(None), &Fastboot::new(None), "B/", "x-boot.img.xz", HASH_A, "x.img.xz", HASH_B);
    // 17 preparation steps, a report and a command per flash operation, then reboot and completion.
    assert_eq!(plan.len(), 17 + 6 + 3);
    match &plan[18] {
        Action::Run { command, .. } => {
            assert_eq!(command.args, vec!["-s", "S", "flash", "boot", "/cache/postmarketos/x-boot.img"]);
        },
        other => panic!("unexpected {other:?}"),
    }
    match &plan[24] {
        Action::Run { command, .. } => assert_eq!(command.args, vec!["-s", "S", "reboot"]),
        other => panic!("unexpected {other:?}"),
    }
    assert!(matches!(plan.last(), Some(Action::Report(InstallProgress::Complete))));
    // An unsafe file name stops the plan at its download.
    let cut = p.plan(&Adb::new(None), &Fastboot::new(None), "B/", "../boot.img.xz", HASH_A, "x.img.xz", HASH_B);
    assert_eq!(cut.len(), 2);
}

#[test]
fn failures_stop_the_installation() {
    let plan = vec![
        Action::Report(InstallProgress::StatusChanged("a".into())),
        Action::Run { command: Adb::new(None).devices(), context: None, tolerant: true },
        Action::Verify { path: "p".into(), sha256: "h".into(), mismatch: "Checksum mismatch for p".into() },
        Action::Download {
            url: "u".into(),
            file_name: "f".into(),
            sha256: None,
            label: "l".into(),
            context: "Failed to download f".into(),
        },
    ];
    assert!(matches!(first_step(&plan), Next::Perform(0)));
    assert!(matches!(advance(&plan, 0, Outcome::Done), Next::Perform(1)));
    // A tolerant command's failure is only logged.
    assert!(matches!(advance(&plan, 1, Outcome::Failed("x".into())), Next::Perform(2)));
    match advance(&plan, 2, Outcome::Mismatch) {
        Next::Fail(m) => assert_eq!(m, "Checksum mismatch for p"),
        _ => panic!(),
    }
    match advance(&plan, 3, Outcome::Failed("timeout".into())) {
        Next::Fail(m) => assert_eq!(m, "Failed to download f: timeout"),
        _ => panic!(),
    }
    assert!(matches!(advance(&plan, 3, Outcome::Done), Next::Finish));
}

#[test]
fn mobian_picks_the_newest_image() {
    let m = MobianInstaller::new("S".into(), "https://images.mobian.org/qcom/".into(), "phosh".into(), "qcom".into(), "sargo".into(), vec![], "/c");
    assert_eq!(m.check(), Err(MobianError::NoFlashOperations));
    let listing = "<a href=\"mobian-qcom-phosh-20240101.tar.xz\">a</a>\n<a href=\"mobian-qcom-phosh-20240301.tar.xz\">b</a>\n<a href=\"mobian-qcom-plasma-20250101.tar.xz\">c</a>\n<a href=\"mobian-qcom-phosh-2024.tar.xz\">d</a>";
    assert_eq!(
        m.discover_latest_image(listing),
        Ok((
            "mobian-qcom-phosh-20240301.tar.xz".to_string(),
            "https://images.mobian.org/qcom/mobian-qcom-phosh-20240301.tar.xz".to_string()
        ))
    );
    assert_eq!(m.discover_latest_image(""), Err(MobianError::NoImage));
    assert_eq!(m.boot_pattern(), "*.boot-sargo.img");
    assert_eq!(m.checksums_url("img.tar.xz"), "https://images.mobian.org/qcom/img.tar.xz.sha256sums");
    let files = vec![
        ("/x/a.rootfs.img".to_string(), "a.rootfs.img".to_string()),
        ("/x/a.boot-sargo.img".to_string(), "a.boot-sargo.img".to_string()),
    ];
    assert_eq!(MobianInstaller::find_extracted_file(&files, "*.boot-sargo.img"), Ok("/x/a.boot-sargo.img".to_string()));
    assert_eq!(
        MobianInstaller::find_extracted_file(&files, "*.dtb"),
        Err(MobianError::NoFileMatching("*.dtb".to_string()))
    );
    let prep = m.prepare_plan("img.tar.xz", "U", Some("h"));
    assert_eq!(prep.len(), 7);
    assert_eq!(m.prepare_plan("img.tar.xz", "U", None).len(), 4);
}

fn lfile(name: &str, size: u64) -> LineageFile {
    LineageFile { filename: name.into(), url: format!("https://dl/{name}"), sha256: "h".into(), size }
}

#[test]
fn lineage_chooses_the_rom_zip() {
    let files = vec![lfile("boot.img", 1), lfile("lineage-21.0-sargo-signed.zip", 900), lfile("other.zip", 1000)];
    assert_eq!(LineageosInstaller::rom_zip(&files), Ok(1));
    assert_eq!(LineageosInstaller::boot_image(&files), Some(0));
    // The first ROM-like name is not a zip: the largest zip is taken instead.
    let files = vec![lfile("lineage-recovery.img", 5), lfile("a.zip", 10), lfile("b.zip", 30), lfile("c.zip", 30)];
    assert_eq!(LineageosInstaller::rom_zip(&files), Ok(3));
    assert_eq!(LineageosInstaller::rom_zip(&vec![lfile("boot.img", 1)]), Err(LineageError::NoRomZip));
    assert!(LineageosInstaller::boot_image(&vec![lfile("a.zip", 1)]).is_none());
    assert!(LineageosInstaller::latest_build(vec![]).is_err());
}

#[test]
fn lineage_update_only_sideloads_without_flashing() {
    let inst = LineageosInstaller::new("S".into(), "api".into(), true, "/home/u/.cache");
    assert_eq!(inst.download_dir, "/home/u/.cache/sidestep/lineageos");
    let zip = lfile("lineage-21.zip", 9);
    let boot = lfile("boot.img", 1);
    let plan = inst.plan(&Adb::new(None), &Fastboot::new(None), &zip, Some(&boot));
    let sideloads: Vec<_> = plan
        .iter()
        .filter_map(|a| match a {
            Action::Run { command, .. } if command.args.contains(&"sideload".to_string()) => Some(command.args.clone()),
            _ => None,
        })
        .collect();
    assert_eq!(sideloads, vec![vec!["-s", "S", "sideload", "/home/u/.cache/sidestep/lineageos/lineage-21.zip"]]);
    assert!(!plan.iter().any(|a| matches!(a, Action::WaitForFastboot)));
    let fresh = LineageosInstaller::new("S".into(), "api".into(), false, "/c");
    let plan = fresh.plan(&Adb::new(None), &Fastboot::new(None), &zip, Some(&boot));
    assert!(plan.iter().any(|a| matches!(a, Action::WaitForFastboot)));
    assert!(matches!(plan.last(), Some(Action::Report(InstallProgress::Complete))));
}

#[test]
fn eos_index_parsing() {
    let e = EosInstaller::new("S".into(), "https://images.ecloud.global/community/sargo/".into(), "sargo".into(), "a15".into(), "/c");
    let html = "<a href=e-2.0-a15-20240101-UNOFFICIAL-community-sargo.zip>x</a><a href='e-2.0-a15-20240301-UNOFFICIAL-community-sargo.zip'>y</a>\
<a href=\"recovery-e-2.0-a15-20240301-UNOFFICIAL-community-sargo.img\">r</a><a href=recovery-e-2.0-a15-20240301-UNOFFICIAL-community-sargo.img.sha256sum>s</a>";
    let (rec_url, rec, rom_url, rom, sha_url, rec_sha_url) = e.find_latest_build(html).unwrap();
    assert_eq!(rom, "e-2.0-a15-20240301-UNOFFICIAL-community-sargo.zip");
    assert_eq!(rec, "recovery-e-2.0-a15-20240301-UNOFFICIAL-community-sargo.img");
    assert_eq!(rom_url, "https://images.ecloud.global/community/sargo/e-2.0-a15-20240301-UNOFFICIAL-community-sargo.zip");
    assert_eq!(rec_url, "https://images.ecloud.global/community/sargo/recovery-e-2.0-a15-20240301-UNOFFICIAL-community-sargo.img");
    assert_eq!(sha_url, format!("{rom_url}.sha256sum"));
    assert_eq!(rec_sha_url, format!("{rec_url}.sha256sum"));
    assert_eq!(e.find_latest_build("<a href=x.zip>"), Err(EosError::NoRom));
    assert_eq!(EosInstaller::parse_sha256("abc123  file.zip\n"), Ok("abc123".to_string()));
    assert_eq!(EosInstaller::parse_sha256("  \n"), Err(EosError::EmptyChecksum));
}

#[test]
fn eos_plan_checks_both_downloads_before_flashing() {
    let e = EosInstaller::new("S".into(), "B".into(), "sargo".into(), "a15".into(), "/c");
    let plan = e.plan(&Adb::new(None), &Fastboot::new(None), "B/rec.img", "rec.img", HASH_A, "B/rom.zip", "rom.zip", HASH_B);
    match &plan[1] {
        Action::Download { file_name, sha256, .. } => {
            assert_eq!(file_name, "rec.img");
            assert_eq!(sha256.as_deref(), Some(HASH_A));
        },
        other => panic!("unexpected {other:?}"),
    }
    match &plan[3] {
        Action::Download { sha256, .. } => assert_eq!(sha256.as_deref(), Some(HASH_B)),
        other => panic!("unexpected {other:?}"),
    }
    let verifies: Vec<(usize, String, String)> = plan
        .iter()
        .enumerate()
        .filter_map(|(i, a)| match a {
            Action::Verify { path, sha256, .. } => Some((i, path.clone(), sha256.clone())),
            _ => None,
        })
        .collect();
    assert_eq!(
        verifies,
        vec![
            (5, "/c/sidestep/eos/rec.img".to_string(), HASH_A.to_string()),
            (7, "/c/sidestep/eos/rom.zip".to_string(), HASH_B.to_string()),
        ]
    );
    let first_run = plan.iter().position(|a| matches!(a, Action::Run { .. })).unwrap();
    assert!(first_run > 7);
    assert!(matches!(advance(&plan, 5, Outcome::Mismatch), Next::Fail(m) if m == "Checksum mismatch for /e/OS recovery image"));
    assert!(matches!(advance(&plan, 7, Outcome::Mismatch), Next::Fail(m) if m == "Checksum mismatch for /e/OS ROM zip"));
}

#[test]
fn grapheneos_stable_release() {
    let g = GrapheneosInstaller::new("S".into(), "shiba".into(), "/d");
    assert_eq!(g.stable_url(), "https://releases.grapheneos.org/shiba-stable");
    assert_eq!(GrapheneosInstaller::latest_build("2024090400 1725465600 shiba stable\n"), Ok("2024090400".to_string()));
    assert_eq!(GrapheneosInstaller::latest_build(""), Err(GrapheneosError::EmptyMetadata));
    let plan = g.plan(&Adb::new(None), "2024090400");
    match &plan[1] {
        Action::Download { url, file_name, .. } => {
            assert_eq!(file_name, "shiba-install-2024090400.zip");
            assert_eq!(url, "https://releases.grapheneos.org/shiba-install-2024090400.zip");
        },
        other => panic!("unexpected {other:?}"),
    }
}

#[test]
fn grapheneos_finds_the_flash_all_directory() {
    assert_eq!(
        GrapheneosInstaller::find_flash_all_dir("/x", true, &vec![("/x/a".to_string(), true)]),
        Ok("/x".to_string())
    );
    let candidates = vec![("/x/a".to_string(), false), ("/x/b".to_string(), true), ("/x/c".to_string(), true)];
    assert_eq!(GrapheneosInstaller::find_flash_all_dir("/x", false, &candidates), Ok("/x/b".to_string()));
    assert_eq!(
        GrapheneosInstaller::find_flash_all_dir("/x", false, &vec![("/x/a".to_string(), false)]),
        Err(GrapheneosError::NoFlashAll)
    );
}

#[test]
fn script_output_becomes_status_lines() {
    assert!(script_line("   \t").is_none());
    match script_line("  I: flashing boot  \n") {
        Some(InstallProgress::StatusChanged(s)) => assert_eq!(s, "I: flashing boot"),
        other => panic!("unexpected {other:?}"),
    }
    assert!(InstallProgress::Complete.ends_installation());
    assert!(InstallProgress::Error("x".into()).ends_installation());
    assert!(!InstallProgress::StatusChanged("x".into()).ends_installation());
}

#[test]
fn ubports_bootstrap_announces_then_runs_each_step_in_order() {
    let steps = vec![
        BootstrapStep::Flash { partition: "boot".into(), file: "boot.img".into(), flags: vec![] },
        BootstrapStep::Flash { partition: "vbmeta".into(), file: "vbmeta.img".into(), flags: vec!["--disable-verity".into()] },
        BootstrapStep::Reboot,
    ];
    let inst = UbportsInstaller::new("S".into(), "c".into(), vec![], vec![], steps.clone(), "/d");
    let plan = inst.bootstrap_plan(&Fastboot::new(None), &Heimdall::new(None));
    assert_eq!(plan.len(), 6);
    for (i, step) in steps.iter().enumerate() {
        match &plan[2 * i] {
            Action::Report(InstallProgress::FlashProgress { current, total, description }) => {
                assert_eq!((*current, *total), (i + 1, 3));
                assert_eq!(description, &bootstrap_label(step));
            },
            other => panic!("unexpected {other:?}"),
        }
    }
    let runs: Vec<Vec<String>> = plan
        .iter()
        .filter_map(|a| match a {
            Action::Run { command, .. } => Some(command.args.clone()),
            _ => None,
        })
        .collect();
    assert_eq!(
        runs,
        vec![
            vec!["-s", "S", "flash", "boot", "/d/ubports/boot.img"],
            vec!["-s", "S", "flash", "vbmeta", "--disable-verity", "/d/ubports/vbmeta.img"],
            vec!["-s", "S", "reboot"],
        ]
    );
}
