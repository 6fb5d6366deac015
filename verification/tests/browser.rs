use sidestep::browser::{battery_icon, browser_groups, device_rows, sort_devices, status_rows};
use sidestep::models::device::Device;

fn device(maker: &str, name: &str, codename: &str, experimental: bool, variants: &[&str]) -> Device {
    Device {
        codename: codename.into(),
        name: name.into(),
        maker: maker.into(),
        experimental,
        battery_min: 50,
        warnings: vec![],
        aliases: vec![],
        variants: variants.iter().map(|v| v.to_string()).collect(),
        is_locked: None,
        serial: None,
        android_version: None,
        build_id: None,
        battery_level: None,
    }
}

#[test]
fn variants_get_their_own_rows() {
    let rows = device_rows(&device("Xiaomi", "POCO M2 Pro", "miatoll", true, &["Redmi Note 9S", "Redmi Note 9 Pro"]));
    let titles: Vec<_> = rows.iter().map(|r| r.title.as_str()).collect();
    assert_eq!(titles, vec!["POCO M2 Pro", "Redmi Note 9S", "Redmi Note 9 Pro"]);
    assert!(rows.iter().all(|r| r.subtitle == "miatoll (Experimental)" && r.codename == "miatoll"));
    let plain = device_rows(&device("Google", "Pixel 3a", "sargo", false, &[]));
    assert_eq!(plain.len(), 1);
    assert_eq!(plain[0].subtitle, "sargo");
}

#[test]
fn devices_are_grouped_by_maker_and_sorted_by_name() {
    let devices = vec![
        device("Google", "Pixel 8", "shiba", false, &[]),
        device("Fairphone", "Fairphone 5", "FP5", false, &[]),
        device("Google", "Pixel 3a", "sargo", false, &["Pixel 3a XL"]),
        device("Fairphone", "Fairphone 4", "FP4", true, &[]),
        device("F(x)tec", "Pro1", "pro1", false, &[]),
    ];
    let sorted = sort_devices(&devices);
    let order: Vec<_> = sorted.iter().map(|d| d.codename.as_str()).collect();
    assert_eq!(order, vec!["pro1", "FP4", "FP5", "sargo", "shiba"]);

    let groups = browser_groups(&devices);
    let makers: Vec<_> = groups.iter().map(|g| g.maker.as_str()).collect();
    assert_eq!(makers, vec!["F(x)tec", "Fairphone", "Google"]);
    let google: Vec<_> = groups[2].rows.iter().map(|r| (r.title.as_str(), r.codename.as_str())).collect();
    assert_eq!(google, vec![("Pixel 3a", "sargo"), ("Pixel 3a XL", "sargo"), ("Pixel 8", "shiba")]);
    assert_eq!(groups[1].rows[0].subtitle, "FP4 (Experimental)");
    assert!(browser_groups(&vec![]).is_empty());
}

#[test]
fn status_rows_show_what_was_read() {
    let browsing = status_rows(&device("Google", "Pixel 3a", "sargo", false, &[]));
    let view: Vec<_> = browsing.iter().map(|r| (r.title.as_str(), r.value.as_str(), r.icon.as_deref())).collect();
    assert_eq!(
        view,
        vec![
            ("Connect your device via USB to begin installation", "", Some("dialog-information-symbolic")),
            ("Bootloader", "Connect device to check", None),
        ]
    );
    let mut d = device("Google", "Pixel 3a", "sargo", false, &[]);
    d.serial = Some("S1".into());
    d.build_id = Some("TQ3A".into());
    d.battery_level = Some(64);
    d.is_locked = Some(false);
    let live = status_rows(&d);
    let view: Vec<_> = live.iter().map(|r| (r.title.as_str(), r.value.as_str(), r.icon.as_deref())).collect();
    assert_eq!(
        view,
        vec![
            ("Serial", "S1", None),
            ("Build", "TQ3A", None),
            ("Battery", "64%", Some("battery-level-50-symbolic")),
            ("Bootloader", "Unlocked", None),
        ]
    );
    d.is_locked = None;
    assert_eq!(status_rows(&d).last().unwrap().value, "Unknown");
    assert_eq!(battery_icon(80), "battery-level-100-symbolic");
    assert_eq!(battery_icon(79), "battery-level-50-symbolic");
    assert_eq!(battery_icon(20), "battery-level-20-symbolic");
    assert_eq!(battery_icon(19), "battery-level-0-symbolic");
}
