use sidestep::models::database::{DeviceDatabase, YamlParser};
use sidestep::models::distro::Distro;
use sidestep::models::device::{default_battery_min, Device};
use sidestep::models::distro_config::{DeviceDistroConfig, DistroConfig};

fn device(codename: &str, name: &str, maker: &str, aliases: &[&str]) -> Device {
    Device {
        codename: codename.to_string(),
        name: name.to_string(),
        maker: maker.to_string(),
        experimental: false,
        battery_min: 50,
        warnings: vec![],
        aliases: aliases.iter().map(|s| s.to_string()).collect(),
        variants: vec![],
        is_locked: None,
        serial: None,
        android_version: None,
        build_id: None,
        battery_level: None,
    }
}

fn distro(id: &str) -> DistroConfig {
    DistroConfig {
        id: id.to_string(),
        name: id.to_uppercase(),
        developer: "dev".to_string(),
        discovery_strategy: "static".to_string(),
        base_url: None,
        api_root: None,
        channels: vec![],
        interfaces: None,
        image_pattern: None,
        flash_method: "fastboot".to_string(),
        firmware_requirement: None,
        chipset: None,
        device_model: None,
        compatibility: None,
    }
}

fn config(ids: &[&str]) -> DeviceDistroConfig {
    DeviceDistroConfig {
        device_codename: "x".to_string(),
        last_updated: "2024".to_string(),
        available_distros: ids.iter().map(|i| distro(i)).collect(),
    }
}

#[test]
fn synced_devices_override_bundled_ones() {
    let synced = vec![
        device("sargo", "Synced Pixel 3a", "Google", &[]),
        device("enchilada", "OnePlus 6", "OnePlus", &[]),
    ];
    let bundled = vec![device("sargo", "Pixel 3a", "Google", &[]), device("FP4", "Fairphone 4", "Fairphone", &[])];
    let db = DeviceDatabase::new(synced, bundled);
    let mut all: Vec<String> = db.all_devices().into_iter().map(|d| d.name).collect();
    all.sort();
    assert_eq!(all, vec!["Fairphone 4", "OnePlus 6", "Synced Pixel 3a"]);
    assert_eq!(db.find_by_codename("sargo").unwrap().name, "Synced Pixel 3a");
    assert_eq!(db.find_by_codename("enchilada").unwrap().name, "OnePlus 6");
}

#[test]
fn later_records_replace_earlier_ones_with_the_same_codename() {
    let mut db = DeviceDatabase::empty();
    db.load_dir(vec![device("a", "First", "M", &[]), device("a", "Second", "M", &[])]);
    assert_eq!(db.all_devices().len(), 1);
    assert_eq!(db.find_by_codename("a").unwrap().name, "Second");
    db.insert(device("b", "B", "M", &[]));
    assert_eq!(db.all_devices().len(), 2);
}

#[test]
fn lookup_by_codename_then_alias() {
    let db = DeviceDatabase::new(
        vec![],
        vec![device("beryllium", "Poco F1", "Xiaomi", &["pocof1"]), device("pocof1", "Other", "X", &[])],
    );
    // An exact codename wins over an alias.
    assert_eq!(db.find_by_codename("pocof1").unwrap().name, "Other");
    let db2 = DeviceDatabase::new(vec![], vec![device("beryllium", "Poco F1", "Xiaomi", &["pocof1"])]);
    assert_eq!(db2.find_by_codename("pocof1").unwrap().codename, "beryllium");
    assert!(db2.find_by_codename("unknown").is_none());
    assert!(DeviceDatabase::empty().find_by_codename("x").is_none());
}

#[test]
fn maker_names_become_directory_names() {
    assert_eq!(DeviceDatabase::maker_to_dir("F(x)tec"), "fxtec");
    assert_eq!(DeviceDatabase::maker_to_dir("OnePlus"), "oneplus");
    assert_eq!(DeviceDatabase::maker_to_dir("Some_Maker-2"), "some_maker-2");
    assert_eq!(DeviceDatabase::maker_to_dir("LG Electronics"), "lgelectronics");
}

#[test]
fn device_directories() {
    assert_eq!(
        DeviceDatabase::bundled_devices_dir("/usr/share/sidestep", &vec![true, true, true, true]),
        "/usr/share/sidestep/devices"
    );
    assert_eq!(
        DeviceDatabase::bundled_devices_dir("/usr/share/sidestep", &vec![false, false, true]),
        "data/devices"
    );
    assert_eq!(
        DeviceDatabase::bundled_devices_dir("/usr/share/sidestep", &vec![false, true]),
        "/app/share/sidestep/devices"
    );
    assert_eq!(DeviceDatabase::bundled_devices_dir("/usr/share/sidestep", &vec![]), "devices");
    assert_eq!(DeviceDatabase::synced_devices_dir("/home/u/.local/share/sidestep"), "/home/u/.local/share/sidestep/devices");
    let p = YamlParser::new("data/devices");
    assert_eq!(p.device_file("google", "shiba", "info.yml"), "data/devices/google/shiba/info.yml");
}

#[test]
fn distro_configs_prefer_bundled_then_synced() {
    let db = DeviceDatabase::empty();
    let got: Vec<String> = db
        .get_distro_configs(Some(config(&["a", "b"])), Some(config(&["c"])))
        .into_iter()
        .map(|d| d.id)
        .collect();
    assert_eq!(got, vec!["a", "b"]);
    let got: Vec<String> = db
        .get_distro_configs(Some(config(&[])), Some(config(&["c"])))
        .into_iter()
        .map(|d| d.id)
        .collect();
    assert_eq!(got, vec!["c"]);
    assert!(db.get_distro_configs(None, None).is_empty());
    let one = db.get_distro_config(Some(config(&["a", "b", "b"])), None, "b").unwrap();
    assert_eq!(one.name, "B");
    assert!(db.get_distro_config(Some(config(&["a"])), None, "z").is_none());
}

#[test]
fn search_paths_for_curated_files() {
    let d = device("FP4", "Fairphone 4", "Fairphone", &[]);
    assert_eq!(
        DeviceDatabase::unlocking_paths("bundled", "synced", &d),
        vec![
            "bundled/fairphone/FP4/unlocking.yml",
            "bundled/fairphone/fp4/unlocking.yml",
            "synced/fairphone/FP4/unlocking.yml",
            "synced/fairphone/fp4/unlocking.yml",
        ]
    );
    assert_eq!(
        DeviceDatabase::installer_config_paths(&vec!["/data".to_string()], &d, "ubuntutouch"),
        vec![
            "/data/devices/fairphone/FP4/installers/ubuntutouch.yml",
            "/data/devices/fairphone/fp4/installers/ubuntutouch.yml",
        ]
    );
}

#[test]
fn device_defaults_and_aliases() {
    assert_eq!(default_battery_min(), 50);
    let d = device("sargo", "Pixel 3a", "Google", &["bonito"]);
    assert!(d.matches_codename("sargo"));
    assert!(d.matches_codename("bonito"));
    assert!(!d.matches_codename("Sargo"));
}

#[test]
fn installer_configs_are_searched_in_order() {
    assert_eq!(
        DeviceDatabase::installer_data_dirs("/src/data", "/usr/share/sidestep", "/home/u/.local/share/sidestep"),
        vec!["/src/data", "/usr/share/sidestep", "/app/share/sidestep", "data", "/home/u/.local/share/sidestep"]
    );
}

fn sized(bytes: Option<u64>) -> Distro {
    Distro {
        name: "postmarketOS".into(),
        version: "v24.06".into(),
        description: "d".into(),
        download_base_url: "https://x".into(),
        checksum_url: None,
        partitions: vec![],
        homepage: None,
        download_size_bytes: bytes,
        requires_unlock: true,
        post_install_notes: None,
    }
}

#[test]
fn download_sizes_read_like_the_float_formatting() {
    let shown = |b: Option<u64>| sized(b).download_size_string();
    assert_eq!(shown(None), "Unknown");
    assert_eq!(shown(Some(999)), "0 KB");
    assert_eq!(shown(Some(512_000)), "512 KB");
    assert_eq!(shown(Some(1_499_999)), "1 MB");
    assert_eq!(shown(Some(2_500_000)), "2 MB");
    assert_eq!(shown(Some(3_500_000)), "4 MB");
    assert_eq!(shown(Some(999_999_999)), "1000 MB");
    assert_eq!(shown(Some(1_000_000_000)), "1.0 GB");
    assert_eq!(shown(Some(1_234_567_890)), "1.2 GB");
    assert_eq!(shown(Some(1_960_000_000)), "2.0 GB");
    // Sizes exactly between two tenths follow the binary float.
    assert_eq!(shown(Some(1_250_000_000)), "1.2 GB");
    assert_eq!(shown(Some(1_750_000_000)), "1.8 GB");
    assert_eq!(shown(Some(1_150_000_000)), "1.1 GB");
    assert_eq!(shown(Some(1_350_000_000)), "1.4 GB");
    assert_eq!(shown(Some(1_050_000_000)), "1.1 GB");
    assert_eq!(shown(Some(2_050_000_000)), "2.0 GB");
}
