use vstd::prelude::*;

verus! {

/// The distributions available for one device (`distros.yml`).
#[derive(Debug, Clone)]
pub struct DeviceDistroConfig {
    pub device_codename: String,
    pub last_updated: String,
    pub available_distros: Vec<DistroConfig>,
}

/// How one distribution is found and installed on a device.
#[derive(Debug, Clone)]
pub struct DistroConfig {
    pub id: String,
    pub name: String,
    pub developer: String,
    pub discovery_strategy: String,
    pub base_url: Option<String>,
    pub api_root: Option<String>,
    pub channels: Vec<ChannelConfig>,
    pub interfaces: Option<Vec<InterfaceConfig>>,
    pub image_pattern: Option<String>,
    pub flash_method: String,
    pub firmware_requirement: Option<String>,
    /// The chipset the interface-based installer looks for in image names.
    pub chipset: Option<String>,
    /// The device model in the names of the boot images.
    pub device_model: Option<String>,
    /// What is known to work on the device, when the config says.
    pub compatibility: Option<CompatibilityInfo>,
}

/// What works on a device under a distribution: features that work, work
/// in part, do not work, or were not tested, and notes.
#[derive(Debug, Clone)]
pub struct CompatibilityInfo {
    pub working: Vec<String>,
    pub partial: Vec<String>,
    pub not_working: Vec<String>,
    pub untested: Vec<String>,
    pub notes: Vec<String>,
}

/// A release channel of a distribution.
#[derive(Debug, Clone)]
pub struct ChannelConfig {
    pub id: String,
    pub label: String,
    pub path: Option<String>,
    pub artifact_match: Option<String>,
    pub release_url: Option<String>,
}

/// A user interface a distribution offers.
#[derive(Debug, Clone)]
pub struct InterfaceConfig {
    pub id: String,
    pub label: String,
}

} // verus!
