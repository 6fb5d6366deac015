use std::collections::HashMap;

use sidestep::install_flow::{AnswerRoute, Backend, ChoiceRoute, HeimdallRoute, InstallFlow, Launch, LaunchError, PrerequisiteGate};
use sidestep::models::distro_config::{ChannelConfig, DistroConfig, InterfaceConfig};
use sidestep::models::installer::{FirmwareImage, InstallerConfig, Prerequisite, Step};

fn installer(method: &str, firmware: usize, prerequisites: usize) -> InstallerConfig {
    InstallerConfig {
        name: "cfg".into(),
        prerequisites: (0..prerequisites)
            .map(|i| Prerequisite {
                title: format!("Q{i}"),
                check: "manual".into(),
                message: "m".into(),
                on_success: "ok".into(),
                on_failure: "help".into(),
            })
            .collect(),
        steps: HashMap::new(),
        firmware: (0..firmware)
            .map(|i| FirmwareImage {
                url: format!("u{i}"),
                filename: format!("f{i}"),
                partition: "BOOT".into(),
                sha256: "h".into(),
                flags: vec![],
            })
            .collect(),
        flash_partitions: vec![],
        flash_operations: vec![],
        ubports_downloads: vec![],
        bootstrap: vec![],
        flash_method: method.into(),
    }
}

fn distro(channels: usize, interfaces: Option<usize>) -> DistroConfig {
    DistroConfig {
        id: "d".into(),
        name: "D".into(),
        developer: "dev".into(),
        discovery_strategy: "s".into(),
        base_url: None,
        api_root: None,
        channels: (0..channels)
            .map(|i| ChannelConfig {
                id: format!("c{i}"),
                label: format!("C{i}"),
                path: None,
                artifact_match: None,
                release_url: None,
            })
            .collect(),
        interfaces: interfaces.map(|n| {
            (0..n).map(|i| InterfaceConfig { id: format!("i{i}"), label: format!("I{i}") }).collect()
        }),
        image_pattern: None,
        flash_method: "fastboot".into(),
        firmware_requirement: None,
        chipset: None,
        device_model: None,
        compatibility: None,
    }
}

#[test]
fn battery_guard_blocks_only_a_known_low_level() {
    assert!(InstallFlow::battery_ok(None, 50));
    assert!(InstallFlow::battery_ok(Some(50), 50));
    assert!(!InstallFlow::battery_ok(Some(49), 50));
    assert_eq!(
        InstallFlow::launch_install(Some(10), 50, None, Some("S"), "lineageos"),
        Launch::BatteryTooLow
    );
    assert!(!Launch::BatteryTooLow.pauses_detection());
}

#[test]
fn channel_installs_go_to_their_backend() {
    let cases = [
        ("ubuntutouch", Some(Backend::Ubports)),
        ("ubports", Some(Backend::Ubports)),
        ("droidian", Some(Backend::Droidian)),
        ("postmarketos", Some(Backend::Postmarketos)),
        ("lineageos", Some(Backend::Lineageos)),
        ("eos", Some(Backend::Eos)),
        ("grapheneos", Some(Backend::Grapheneos)),
        ("mobian", None),
        ("", None),
    ];
    for (id, backend) in cases {
        assert_eq!(InstallFlow::backend_for(id), backend, "{id}");
    }
    let fastboot = installer("fastboot", 0, 0);
    assert_eq!(
        InstallFlow::launch_install(Some(80), 50, Some(&fastboot), Some("S"), "eos"),
        Launch::Install(Backend::Eos)
    );
    assert_eq!(InstallFlow::launch_install(None, 50, None, None, "unknown"), Launch::NoBackend);
    assert!(Launch::NoBackend.pauses_detection());
    assert_eq!(
        InstallFlow::launch_interface_install(None, 50, None, Some("S")),
        Launch::Install(Backend::Mobian)
    );
}

#[test]
fn heimdall_devices_never_fall_through_to_fastboot() {
    for method in ["heimdall", "odin", "download_mode"] {
        let ready = installer(method, 2, 0);
        assert!(ready.uses_heimdall());
        assert_eq!(InstallFlow::heimdall_route(Some(&ready), Some("S")), HeimdallRoute::Launch);
        assert_eq!(InstallFlow::launch_install(Some(90), 50, Some(&ready), Some("S"), "lineageos"), Launch::Heimdall);
        assert_eq!(
            InstallFlow::launch_install(Some(90), 50, Some(&ready), None, "lineageos"),
            Launch::HeimdallWithoutSerial
        );
        let bare = installer(method, 0, 0);
        assert_eq!(InstallFlow::heimdall_route(Some(&bare), Some("S")), HeimdallRoute::NoFirmware);
        assert_eq!(
            InstallFlow::launch_interface_install(None, 50, Some(&bare), Some("S")),
            Launch::HeimdallWithoutFirmware
        );
    }
    assert_eq!(InstallFlow::heimdall_route(Some(&installer("fastboot", 2, 0)), Some("S")), HeimdallRoute::Fastboot);
    assert_eq!(InstallFlow::heimdall_route(None, Some("S")), HeimdallRoute::Fastboot);
    assert!(!Launch::HeimdallWithoutSerial.pauses_detection());
    assert!(Launch::Heimdall.pauses_detection());
}

#[test]
fn prerequisites_are_asked_then_answered() {
    assert_eq!(InstallFlow::prerequisite_gate(None), PrerequisiteGate::Proceed);
    assert_eq!(InstallFlow::prerequisite_gate(Some(&installer("fastboot", 0, 0))), PrerequisiteGate::Proceed);
    assert_eq!(InstallFlow::prerequisite_gate(Some(&installer("fastboot", 0, 2))), PrerequisiteGate::Ask);

    let instruction = Step::Instruction { message: "m".into(), link: None, action_label: None };
    let flash = Step::Flash { url: "u".into() };
    let android = Step::FlashAndroid {
        android_version: "11".into(),
        url: "u".into(),
        sha256: "h".into(),
        message: "m".into(),
    };
    assert_eq!(InstallFlow::answer_route(Some(&flash), true), AnswerRoute::Proceed);
    assert_eq!(InstallFlow::answer_route(None, true), AnswerRoute::Proceed);
    assert_eq!(InstallFlow::answer_route(Some(&instruction), true), AnswerRoute::ShowInstruction);
    assert_eq!(InstallFlow::answer_route(Some(&android), true), AnswerRoute::ConfirmAndroidFlash);
    assert_eq!(InstallFlow::answer_route(Some(&instruction), false), AnswerRoute::ShowInstruction);
    assert_eq!(InstallFlow::answer_route(Some(&android), false), AnswerRoute::ConfirmAndroidFlash);
    assert_eq!(InstallFlow::answer_route(Some(&flash), false), AnswerRoute::Stay);
    assert_eq!(InstallFlow::answer_route(None, false), AnswerRoute::Stay);
}

#[test]
fn channels_come_before_interfaces() {
    assert_eq!(InstallFlow::after_prerequisites(None), ChoiceRoute::NoOptions);
    assert_eq!(InstallFlow::after_prerequisites(Some(&distro(0, None))), ChoiceRoute::NoOptions);
    assert_eq!(InstallFlow::after_prerequisites(Some(&distro(0, Some(0)))), ChoiceRoute::NoOptions);
    assert_eq!(InstallFlow::after_prerequisites(Some(&distro(0, Some(2)))), ChoiceRoute::ChooseInterface);
    assert_eq!(InstallFlow::after_prerequisites(Some(&distro(1, Some(2)))), ChoiceRoute::LaunchOnlyChannel);
    assert_eq!(InstallFlow::after_prerequisites(Some(&distro(3, None))), ChoiceRoute::ChooseChannel);
}

fn channel(path: Option<&str>, release: Option<&str>, artifact: Option<&str>) -> ChannelConfig {
    ChannelConfig {
        id: "stable".into(),
        label: "Stable".into(),
        path: path.map(|s| s.to_string()),
        artifact_match: artifact.map(|s| s.to_string()),
        release_url: release.map(|s| s.to_string()),
    }
}

#[test]
fn launchers_gather_their_parameters() {
    let c = channel(Some("ubports-touch/20.04/stable/sargo//"), Some("https://r"), Some("pixel3a"));
    assert_eq!(
        InstallFlow::ubports_source(Some("S"), &c),
        Ok(("S".to_string(), "ubports-touch/20.04/stable/sargo".to_string()))
    );
    assert_eq!(InstallFlow::ubports_source(None, &c), Err(LaunchError::NoSerial));
    assert_eq!(InstallFlow::ubports_source(Some("S"), &channel(None, None, None)), Err(LaunchError::NoChannelPath));

    assert_eq!(
        InstallFlow::droidian_source(Some("S"), &c),
        Ok(("S".to_string(), "https://r".to_string(), "pixel3a".to_string()))
    );
    assert_eq!(InstallFlow::droidian_source(Some("S"), &channel(None, None, Some("a"))), Err(LaunchError::NoReleaseUrl));
    assert_eq!(
        InstallFlow::droidian_source(Some("S"), &channel(None, Some("u"), None)),
        Err(LaunchError::NoArtifactMatch)
    );

    assert_eq!(
        InstallFlow::lineageos_source(Some("S"), &c, "SAMSUNG"),
        Ok(("S".to_string(), "https://r".to_string(), true))
    );
    assert_eq!(
        InstallFlow::lineageos_source(Some("S"), &c, "Google"),
        Ok(("S".to_string(), "https://r".to_string(), false))
    );
    assert!(InstallFlow::is_samsung("SamSung"));
    assert!(!InstallFlow::is_samsung("samsung2"));

    let mut d = distro(1, None);
    assert_eq!(InstallFlow::eos_source(Some("S"), Some(&d), "samsung"), Err(LaunchError::NoBaseUrl));
    assert_eq!(InstallFlow::eos_source(Some("S"), None, "samsung"), Err(LaunchError::NoDistroConfig));
    assert_eq!(InstallFlow::eos_source(None, None, "samsung"), Err(LaunchError::NoSerial));
    d.base_url = Some("https://images.ecloud.global/".into());
    assert_eq!(
        InstallFlow::eos_source(Some("S"), Some(&d), "samsung"),
        Ok(("S".to_string(), "https://images.ecloud.global/".to_string(), true))
    );
    assert_eq!(
        InstallFlow::mobian_source(Some("S"), Some(&d), "sargo"),
        Ok(("S".to_string(), "https://images.ecloud.global/".to_string(), "sdm670".to_string(), "sargo".to_string()))
    );
    d.chipset = Some("sm6350".into());
    d.device_model = Some("fp4".into());
    assert_eq!(
        InstallFlow::mobian_source(Some("S"), Some(&d), "FP4"),
        Ok(("S".to_string(), "https://images.ecloud.global/".to_string(), "sm6350".to_string(), "fp4".to_string()))
    );
    assert_eq!(InstallFlow::mobian_source(Some("S"), None, "FP4"), Err(LaunchError::NoDistroConfig));
    assert_eq!(
        InstallFlow::postmarketos_source(Some("S"), Some(&d), "Fairphone", "FP4"),
        Ok(("S".to_string(), "https://images.ecloud.global/".to_string(), "fairphone-fp4".to_string()))
    );
    assert_eq!(InstallFlow::factory_image_source(Some(10), 50, Some("S")), Err(LaunchError::BatteryTooLow));
    assert_eq!(InstallFlow::factory_image_source(None, 50, None), Err(LaunchError::NoSerial));
    assert_eq!(InstallFlow::factory_image_source(Some(60), 50, Some("S")), Ok("S".to_string()));
}
