use sidestep::models::unlocking_step::{StepType, UnlockingStep};
use sidestep::wizard::{safety_confirmed, UnlockChecklist};
use sidestep::hardware::device_detector::{adb_identity, nonempty};
use sidestep::models::device::Device;
use sidestep::hardware::adb::{Adb, AdbDevice};
use sidestep::hardware::device_detector::{DeviceDetector, PollAction, PollDecision, PollState};
use sidestep::hardware::fastboot::{Fastboot, FastbootDevice};
use sidestep::hardware::heimdall::{Heimdall, HeimdallError};

fn args(c: &sidestep::hardware::command::CommandLine) -> Vec<String> {
    c.args.clone()
}

#[test]
fn builds_flash_args_in_order_with_reboot_control() {
    let flashes = vec![
        Heimdall::flash_entry("RECOVERY", "/img/recovery.img"),
        Heimdall::flash_entry("BOOT", "/img/boot.img"),
    ];
    // Default: reboot → no --no-reboot flag.
    let args = Heimdall::flash_args(&flashes, true);
    let as_str: Vec<_> = args.iter().map(|a| a.to_string()).collect();
    assert_eq!(
        as_str,
        vec![
            "flash",
            "--RECOVERY",
            "/img/recovery.img",
            "--BOOT",
            "/img/boot.img",
        ]
    );
    // reboot=false appends --no-reboot.
    let args = Heimdall::flash_args(&flashes, false);
    assert_eq!(args.last().unwrap(), "--no-reboot");
}

#[test]
fn heimdall_refuses_an_empty_flash() {
    let h = Heimdall::new(None);
    assert_eq!(h.flash(&vec![], true).unwrap_err(), HeimdallError::NoPartitions);
    let c = h.flash(&vec![Heimdall::flash_entry("BOOT", "b.img")], false).unwrap();
    assert_eq!(c.program, "heimdall");
    assert_eq!(args(&c), vec!["flash", "--BOOT", "b.img", "--no-reboot"]);
    assert_eq!(args(&Heimdall::new(Some("/opt/heimdall".into())).detect()), vec!["detect"]);
}

#[test]
fn adb_device_list_skips_header_and_short_lines() {
    let out = "List of devices attached\n0123456789ABCDEF\tdevice\nemulator-5554 offline\n\n";
    let devs = Adb::parse_devices(out);
    assert_eq!(devs.len(), 2);
    assert_eq!(devs[0].serial, "0123456789ABCDEF");
    assert_eq!(devs[0].state, "device");
    assert_eq!(devs[1].state, "offline");
    assert!(Adb::parse_devices("").is_empty());
    assert!(Adb::parse_devices("0123 device\n").is_empty());
}

#[test]
fn adb_commands_name_the_device() {
    let adb = Adb::new(None);
    assert_eq!(adb.reboot_bootloader("S1").program, "adb");
    assert_eq!(args(&adb.reboot_bootloader("S1")), vec!["-s", "S1", "reboot", "bootloader"]);
    assert_eq!(args(&adb.get_codename("S1")), vec!["-s", "S1", "shell", "getprop", "ro.product.device"]);
    assert_eq!(args(&adb.sideload("S1", "/tmp/rom.zip")), vec!["-s", "S1", "sideload", "/tmp/rom.zip"]);
    assert_eq!(args(&adb.push("S1", "a", "/cache/recovery/a")), vec!["-s", "S1", "push", "a", "/cache/recovery/a"]);
    assert_eq!(Adb::new(Some("/usr/bin/adb2".into())).devices().program, "/usr/bin/adb2");
}

#[test]
fn adb_readings() {
    assert_eq!(Adb::prop_value("  sargo\n"), "sargo");
    assert_eq!(Adb::battery_from_capacity("87\n"), Some(87));
    assert_eq!(Adb::battery_from_capacity("cat: no such file"), None);
    assert_eq!(Adb::battery_from_capacity("300"), None);
    assert_eq!(Adb::battery_from_dumpsys("Current Battery Service state:\n  AC powered: false\n  level: 64\n  scale: 100\n"), Some(64));
    assert_eq!(Adb::battery_from_dumpsys("level: x\n level:12"), Some(12));
    assert_eq!(Adb::battery_from_dumpsys("nothing here"), None);
    assert!(Adb::unlocked_from_props("0", ""));
    assert!(Adb::unlocked_from_props("1", "orange"));
    assert!(!Adb::unlocked_from_props("1", "green"));
    assert!(Adb::sideload_failed(false, "adb: sideload connection failed"));
    assert!(!Adb::sideload_failed(false, "serving: 'rom.zip' (~47%)"));
    assert!(!Adb::sideload_failed(true, "error"));
    assert!(Adb::has_root("uid=0(root) gid=0(root)"));
    assert!(!Adb::has_root("uid=2000(shell)"));
}

#[test]
fn fastboot_parsing() {
    let devs = Fastboot::parse_devices("ABC123\tfastboot\nXYZ\trecovery\n\nDEF fastboot\n");
    let serials: Vec<_> = devs.iter().map(|d| d.serial.clone()).collect();
    assert_eq!(serials, vec!["ABC123", "DEF"]);
    assert!(Fastboot::lists_serial(&devs, "DEF"));
    assert!(!Fastboot::lists_serial(&devs, "XYZ"));
    assert_eq!(Fastboot::parse_getvar("product: sargo\nFinished. Total time: 0.001s\n", "product"), "sargo");
    assert_eq!(Fastboot::parse_getvar("unlocked: yes\n", "product"), "");
    assert!(Fastboot::is_unlocked_value("yes"));
    assert!(!Fastboot::is_unlocked_value("no"));
}

#[test]
fn fastboot_commands() {
    let fb = Fastboot::with_path("/opt/fastboot".to_string());
    assert_eq!(fb.flash("S", "boot", "b.img").program, "/opt/fastboot");
    assert_eq!(args(&fb.flash("S", "boot", "b.img")), vec!["-s", "S", "flash", "boot", "b.img"]);
    let flags = vec!["--disable-verity".to_string(), "--disable-verification".to_string()];
    assert_eq!(
        args(&fb.flash_with_flags("S", "vbmeta", "v.img", &flags)),
        vec!["-s", "S", "flash", "vbmeta", "--disable-verity", "--disable-verification", "v.img"]
    );
    assert_eq!(args(&fb.format("S", "userdata", "ext4")), vec!["-s", "S", "format:ext4", "userdata"]);
    assert_eq!(args(&fb.update("S", "image.zip", true)), vec!["-s", "S", "-w", "update", "image.zip"]);
    assert_eq!(args(&fb.getvar("S", "unlocked")), vec!["-s", "S", "getvar", "unlocked"]);
    assert_eq!(Fastboot::new(None).devices().program, "fastboot");
}

fn adb_dev(serial: &str, state: &str) -> AdbDevice {
    AdbDevice { serial: serial.to_string(), state: state.to_string() }
}

fn fb_dev(serial: &str) -> FastbootDevice {
    FastbootDevice { serial: serial.to_string(), product: None }
}

#[test]
fn detector_announces_each_device_once() {
    let mut s = PollState::new();
    let adb = Some(vec![adb_dev("A1", "unauthorized"), adb_dev("A2", "device")]);
    assert_eq!(s.step(false, &adb, &None), PollAction::IdentifyAdb("A2".to_string()));
    assert_eq!(s.step(false, &adb, &None), PollAction::Idle);
    // The device goes away: reported once.
    assert_eq!(s.step(false, &Some(vec![]), &Some(vec![])), PollAction::ReportDisconnected);
    assert_eq!(s.step(false, &Some(vec![]), &Some(vec![])), PollAction::Idle);
    // It comes back in fastboot mode.
    assert_eq!(s.step(false, &None, &Some(vec![fb_dev("A2")])), PollAction::IdentifyFastboot("A2".to_string()));
    // Same serial now over adb: not announced again.
    assert_eq!(s.step(false, &Some(vec![adb_dev("A2", "device")]), &None), PollAction::Idle);
}

#[test]
fn pausing_forgets_the_device() {
    let mut s = PollState::new();
    let adb = Some(vec![adb_dev("A", "device")]);
    assert_eq!(s.step(false, &adb, &None), PollAction::IdentifyAdb("A".to_string()));
    assert_eq!(s.step(true, &adb, &None), PollAction::Idle);
    assert!(s.last_device.is_none());
    assert_eq!(s.step(false, &adb, &None), PollAction::IdentifyAdb("A".to_string()));
    assert!(PollState::needs_fastboot(&None));
    assert!(PollState::needs_fastboot(&Some(vec![adb_dev("A", "offline")])));
    assert!(!PollState::needs_fastboot(&adb));
}

#[test]
fn detector_flags() {
    let mut d = DeviceDetector::new();
    assert!(!d.is_running() && !d.is_paused());
    d.start();
    d.pause();
    assert!(d.is_running() && d.is_paused());
    d.resume();
    assert!(!d.is_paused());
    d.stop();
    assert!(!d.is_running());
}

#[test]
fn unknown_devices_are_described() {
    assert_eq!(adb_identity("S", Some("sargo".into()), None), ("sargo".to_string(), "sargo".to_string()));
    assert_eq!(adb_identity("S", None, Some("Pixel".into())), ("Pixel".to_string(), "Pixel".to_string()));
    assert_eq!(adb_identity("S", None, None), ("unknown".to_string(), "S".to_string()));
    assert_eq!(nonempty(Some(String::new())), None);
    assert_eq!(nonempty(Some("14".into())), Some("14".to_string()));
    let d = Device::unknown_adb("x", "Phone", "S", None, None, Some(40));
    assert_eq!(d.name, "Unknown (Phone)");
    assert_eq!(d.battery_min, 50);
    assert_eq!(d.warnings, vec!["This device is not in the database."]);
    let f = Device::unknown_fastboot("p", "S");
    assert_eq!(f.name, "Unknown Fastboot (p)");
    assert_eq!(f.warnings.len(), 2);
    let u = Device::unidentified_fastboot("S9");
    assert_eq!(u.codename, "unknown");
    assert_eq!(u.name, "Unknown Device (S9)");
    let known = Device::unknown_fastboot("p", "S").with_adb_details("T", Some("14".into()), None, Some(80), Some(true));
    assert_eq!(known.serial, Some("T".to_string()));
    assert_eq!(known.is_locked, Some(false));
    let kept = Device::unknown_fastboot("p", "S").with_fastboot_details("T", None);
    assert_eq!(kept.is_locked, None);
}

#[test]
fn critical_partition_backup_commands() {
    let adb = Adb::new(Some("/opt/adb".into()));
    assert_eq!(
        Adb::critical_partitions(),
        vec!["efs", "modemst1", "modemst2", "persist", "fsg", "nvram"]
    );
    assert_eq!(args(&adb.root_check("S")), vec!["-s", "S", "shell", "su -c id 2>/dev/null"]);
    assert_eq!(Adb::backup_remote_path("efs"), "/data/local/tmp/sidestep-efs.img");
    let dump = adb.backup_dump("S", "efs");
    assert_eq!(dump.program, "/opt/adb");
    assert_eq!(
        args(&dump),
        vec![
            "-s",
            "S",
            "shell",
            "su -c 'dd if=/dev/block/bootdevice/by-name/efs of=/data/local/tmp/sidestep-efs.img 2>/dev/null'"
        ]
    );
    assert_eq!(
        args(&adb.backup_cleanup("S", "fsg")),
        vec!["-s", "S", "shell", "su -c 'rm -f /data/local/tmp/sidestep-fsg.img'"]
    );
    assert_eq!(Adb::backup_local_path("/b", "nvram"), "/b/nvram.img");
    assert!(Adb::has_root("uid=0(root) gid=0(root)"));
    assert!(!Adb::has_root("uid=2000(shell)"));
    assert!(Adb::backup_kept(true, Some(4096)));
    assert!(!Adb::backup_kept(true, Some(0)));
    assert!(!Adb::backup_kept(true, None));
    assert!(!Adb::backup_kept(false, Some(4096)));
    assert_eq!(Adb::backup_dir("/c/sidestep", "S1"), "/c/sidestep/imei-backup/S1");
    assert_eq!(Adb::backup_report(&vec![], "/b"), None);
    assert_eq!(
        Adb::backup_report(&vec!["efs".to_string(), "persist".to_string()], "/b"),
        Some("Backed up efs, persist to /b".to_string())
    );
}

#[test]
fn unlock_checklist_gates_continue() {
    let step = |optional: bool, command: Option<&str>| UnlockingStep {
        order: 1,
        title: "t".into(),
        description: "d".into(),
        step_type: if command.is_some() { StepType::Automated } else { StepType::Manual },
        command: command.map(|c| c.to_string()),
        duration_secs: None,
        optional,
        warning: None,
        link: None,
        link_label: None,
    };
    let steps = vec![step(false, Some("adb reboot bootloader")), step(true, None), step(false, None)];
    let mut c = UnlockChecklist::new(steps.len());
    assert_eq!(c.done, vec![false, false, false]);
    assert!(!c.can_continue(&steps));
    assert_eq!(c.start_step(&steps, 0), Some("adb reboot bootloader".to_string()));
    assert!(c.running);
    assert_eq!(c.start_step(&steps, 0), None);
    c.finish_step(0, false);
    assert!(!c.running);
    assert_eq!(c.done, vec![false, false, false]);
    assert_eq!(c.start_step(&steps, 0), Some("adb reboot bootloader".to_string()));
    c.finish_step(0, true);
    assert_eq!(c.done, vec![true, false, false]);
    assert_eq!(c.start_step(&steps, 2), None);
    assert!(!c.can_continue(&steps));
    c.set_step_done(2, true);
    c.set_step_done(7, true);
    assert!(c.can_continue(&steps));
    c.running = true;
    assert!(!c.can_continue(&steps));
    assert!(safety_confirmed(true, true, true));
    assert!(!safety_confirmed(true, false, true));
}

#[test]
fn an_attached_device_is_announced_once_then_its_departure_once() {
    let mut s = PollState::new();
    let attached = Some(vec![adb_dev("other", "offline"), adb_dev("S", "device")]);
    let mut seen = Vec::new();
    for _ in 0..3 {
        seen.push(s.step(false, &attached, &None));
    }
    seen.push(s.step(false, &Some(vec![]), &Some(vec![])));
    assert_eq!(
        seen,
        vec![PollAction::IdentifyAdb("S".to_string()), PollAction::Idle, PollAction::Idle, PollAction::ReportDisconnected]
    );
    assert_eq!(s.last_device, None);
}

#[test]
fn stop_pause_and_resume_decide_the_next_poll() {
    let mut d = DeviceDetector::new();
    assert_eq!(d.next_poll(), PollDecision::Stop);
    d.start();
    assert_eq!(d.next_poll(), PollDecision::Check);
    d.pause();
    assert_eq!(d.next_poll(), PollDecision::Skip);
    d.resume();
    assert_eq!(d.next_poll(), PollDecision::Check);
    d.pause();
    d.stop();
    assert_eq!(d.next_poll(), PollDecision::Stop);
}
