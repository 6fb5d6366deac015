use vstd::prelude::*;
use std::collections::HashMap;
use crate::models::device::str_eq;

verus! {

broadcast use vstd::string::group_string_axioms;

/// How one distribution is installed on one device.
#[derive(Debug, Clone)]
pub struct InstallerConfig {
    pub name: String,
    pub prerequisites: Vec<Prerequisite>,
    pub steps: HashMap<String, Step>,
    pub firmware: Vec<FirmwareImage>,
    pub flash_partitions: Vec<FlashPartition>,
    pub flash_operations: Vec<FlashOperation>,
    /// UBports: files to download (and optionally unpack) before the bootstrap.
    pub ubports_downloads: Vec<UbportsDownload>,
    /// UBports: ordered fastboot bootstrap sequence run before the system image
    /// is pushed via recovery.
    pub bootstrap: Vec<BootstrapStep>,
    /// Flashing transport: "fastboot" (the default), or "heimdall" for Samsung
    /// download mode.
    pub flash_method: String,
}

/// A file the UBports bootstrap downloads (and optionally unpacks).
#[derive(Debug, Clone)]
pub struct UbportsDownload {
    pub url: String,
    pub filename: String,
    pub sha256: Option<String>,
    /// When true, the archive is unpacked into `unpacked/`, and bootstrap
    /// `flash` steps name its files as `unpacked/<path>`.
    pub unpack: bool,
}

/// One ordered step of a UBports device bootstrap.
#[derive(Debug, Clone)]
pub enum BootstrapStep {
    /// Flash a downloaded file (by name, or `unpacked/<path>`) to a partition.
    Flash { partition: String, file: String, flags: Vec<String> },
    Format { partition: String, fs: String },
    Erase { partition: String },
    SetActive { slot: String },
    DeleteLogicalPartition { partition: String },
    ResizeLogicalPartition { partition: String, size: u64 },
    WipeSuper,
    RebootBootloader,
    RebootFastboot,
    RebootRecovery,
    Reboot,
    /// Wait for the device to reappear in fastboot.
    Wait,
    /// Require a fastboot variable to equal a value before continuing.
    AssertVar { variable: String, value: String },
    /// Prompt the user to perform a manual action.
    UserAction { message: String },
    /// Samsung download-mode flash of a partition via Heimdall.
    HeimdallFlash { partition: String, file: String },
}

/// Filesystem of a `format` bootstrap step when the config does not give one.
pub fn default_fs() -> (r: String)
    ensures
        r@ == "ext4"@,
{
    String::from_str("ext4")
}

/// Flashing transport when the config does not give one.
pub fn default_flash_method() -> (r: String)
    ensures
        r@ == "fastboot"@,
{
    String::from_str("fastboot")
}

/// A flash method that goes over the Odin protocol (Samsung download mode).
pub open spec fn is_heimdall_method(m: Seq<char>) -> bool {
    m == "heimdall"@ || m == "odin"@ || m == "download_mode"@
}

impl InstallerConfig {
    /// True when this device flashes over the Odin protocol (Samsung Exynos)
    /// rather than fastboot.
    pub fn uses_heimdall(&self) -> (r: bool)
        ensures
            r == is_heimdall_method(self.flash_method@),
    {
        let m = self.flash_method.as_str();
        str_eq(m, "heimdall") || str_eq(m, "odin") || str_eq(m, "download_mode")
    }
}

#[derive(Debug, Clone)]
pub struct Prerequisite {
    pub title: String,
    pub check: String,
    pub message: String,
    pub on_success: String,
    pub on_failure: String,
}

#[derive(Debug, Clone)]
pub enum Step {
    Instruction { message: String, link: Option<String>, action_label: Option<String> },
    Flash { url: String },
    FlashAndroid { android_version: String, url: String, sha256: String, message: String },
}

/// Firmware image to download and flash before the main install (UBports).
#[derive(Debug, Clone)]
pub struct FirmwareImage {
    pub url: String,
    pub filename: String,
    pub partition: String,
    pub sha256: String,
    pub flags: Vec<String>,
}

/// Image within a ZIP archive to flash to a partition (Droidian).
#[derive(Debug, Clone)]
pub struct FlashPartition {
    pub image_path: String,
    pub partition: String,
    pub flags: Vec<String>,
}

/// A single fastboot operation in a flash sequence (Mobian, postmarketOS).
#[derive(Debug, Clone)]
pub enum FlashOperation {
    Flash { partition: String, source: String, flags: Vec<String> },
    FlashSparse { partition: String, source: String, chunk_size: String },
    Format { partition: String, fs_type: String },
    Erase { partition: String },
    Oem { args: Vec<String> },
}

} // verus!
