use vstd::prelude::*;
use crate::flashing::downloader::{ImageDownloader, plain_component};
use crate::flashing::progress::{
    Action, ActionView, InstallProgress, ProgressView, actions_view, download, extract_zip, flash_all, flashing,
    flashing_view, report, status, status_view, try_run, verify, verifying, verifying_view,
};
use crate::hardware::adb::Adb;
use crate::hardware::command::{command_view, owned};
use crate::paths::{join_path, join_spec};
use crate::text::{cat, chars_of, contains, contains_spec};

verus! {

broadcast use vstd::string::group_string_axioms;

/// Orchestrates Droidian installation: download the release zip named by the
/// artifact pattern, verify it against the release's `SHA256SUMS` (refusing
/// an image without a listed checksum), unpack it and run its own
/// `flash_all.sh` in fastboot mode.
#[derive(Debug)]
pub struct DroidianInstaller {
    pub serial: String,
    pub release_url: String,
    pub artifact_pattern: String,
    pub download_dir: String,
}

/// An asset of a GitHub release, with the fields that were present.
#[derive(Debug, Clone)]
pub struct ReleaseAsset {
    pub name: Option<String>,
    pub browser_download_url: Option<String>,
}

/// Why a Droidian installation cannot go on.
#[derive(Debug, Clone, PartialEq, Eq)]
pub enum DroidianError {
    /// No asset's name contains the artifact pattern.
    NoMatchingAsset,
    /// The matching asset has no download URL.
    NoZipUrl,
    /// No asset's name contains `SHA256SUMS`.
    NoChecksumsAsset,
    /// The checksums asset has no download URL.
    NoChecksumsUrl,
    /// `SHA256SUMS` lists no hash for the image.
    NoChecksum,
}

pub open spec fn name_contains(a: ReleaseAsset, p: Seq<char>) -> bool {
    a.name is Some && contains_spec(a.name->0@, p)
}

/// The index of the first asset whose name contains `p`.
pub open spec fn first_asset(assets: Seq<ReleaseAsset>, p: Seq<char>, i: int) -> Option<int>
    decreases assets.len() - i,
{
    if i < 0 || i >= assets.len() {
        None
    } else if name_contains(assets[i], p) {
        Some(i)
    } else {
        first_asset(assets, p, i + 1)
    }
}

proof fn lemma_first_asset(assets: Seq<ReleaseAsset>, p: Seq<char>, i: int)
    ensures
        first_asset(assets, p, i) matches Some(k) ==> 0 <= k < assets.len() && name_contains(assets[k], p),
    decreases assets.len() - i,
{
    if 0 <= i < assets.len() && !name_contains(assets[i], p) {
        lemma_first_asset(assets, p, i + 1);
    }
}

fn first_asset_exec(assets: &Vec<ReleaseAsset>, p: &str) -> (r: Option<usize>)
    ensures
        match r {
            Some(i) => i < assets.len() && first_asset(assets@, p@, 0) == Some(i as int),
            None => first_asset(assets@, p@, 0) is None,
        },
{
    let pv = chars_of(p);
    let mut i: usize = 0;
    while i < assets.len()
        invariant
            i <= assets.len(),
            pv@ == p@,
            first_asset(assets@, p@, 0) == first_asset(assets@, p@, i as int),
        decreases assets.len() - i,
    {
        match &assets[i].name {
            Some(n) => {
                if contains(&chars_of(n.as_str()), &pv) {
                    return Some(i);
                }
            },
            None => {},
        }
        i = i + 1;
    }
    None
}

/// The steps of a Droidian installation once the image and its hash are
/// known; it stops at a download whose file name is refused.
pub open spec fn droidian_plan_spec(
    inst: DroidianInstaller,
    adb: Seq<char>,
    zip_url: Seq<char>,
    zip_name: Seq<char>,
    hash: Seq<char>,
) -> Seq<ActionView> {
    let dl = seq![
        status_view("Downloading Droidian image..."@),
        ActionView::Download {
            url: zip_url,
            file_name: zip_name,
            sha256: Some(hash),
            label: "Droidian image"@,
            context: "Failed to download Droidian ZIP"@,
        },
    ];
    match plain_component(zip_name) {
        None => dl,
        Some(n) => {
            let path = join_spec(inst.download_dir@, n);
            let dir = join_spec(inst.download_dir@, "extracted"@);
            dl + seq![
                verifying_view(0, 1, zip_name),
                ActionView::Verify { path, sha256: hash, mismatch: "Checksum mismatch for "@ + zip_name },
                verifying_view(1, 1, zip_name),
                status_view("Extracting..."@),
                ActionView::ExtractZip { archive: path, dir },
                status_view("Rebooting to bootloader..."@),
                ActionView::Run {
                    command: command_view(adb, seq!["-s"@, inst.serial@, "reboot"@, "bootloader"@]),
                    context: None,
                    tolerant: true,
                },
                status_view("Waiting for device in fastboot mode..."@),
                ActionView::WaitForFastboot,
                status_view("Flashing Droidian..."@),
                flashing_view(0, 1, "Flashing Droidian (flash_all.sh)..."@),
                ActionView::FlashAll {
                    dir,
                    script: "flash_all.sh"@,
                    shell: "yes y | bash flash_all.sh 2>&1"@,
                    nested: false,
                    failure: "Droidian flash_all.sh failed"@,
                },
                flashing_view(1, 1, "Flash complete"@),
                ActionView::Report(ProgressView::Complete),
            ]
        },
    }
}

impl DroidianInstaller {
    pub fn new(serial: String, release_url: String, artifact_pattern: String, base_download_dir: &str) -> (r: Self)
        ensures
            r.serial == serial,
            r.release_url == release_url,
            r.artifact_pattern == artifact_pattern,
            r.download_dir@ == join_spec(base_download_dir@, "droidian"@),
    {
        DroidianInstaller { serial, release_url, artifact_pattern, download_dir: join_path(base_download_dir, "droidian") }
    }

    /// The image and checksums of a release: the first asset whose name
    /// contains the artifact pattern (its URL and name) and the URL of the
    /// first asset whose name contains `SHA256SUMS`.
    pub fn select_assets(&self, assets: &Vec<ReleaseAsset>) -> (r: Result<(String, String, String), DroidianError>)
        ensures
            match r {
                Ok((zip_url, zip_name, checksums_url)) => {
                    let z = first_asset(assets@, self.artifact_pattern@, 0);
                    let c = first_asset(assets@, "SHA256SUMS"@, 0);
                    &&& z is Some && c is Some
                    &&& assets@[z->0].browser_download_url == Some(zip_url)
                    &&& assets@[z->0].name == Some(zip_name)
                    &&& assets@[c->0].browser_download_url == Some(checksums_url)
                },
                Err(DroidianError::NoMatchingAsset) => first_asset(assets@, self.artifact_pattern@, 0) is None,
                Err(DroidianError::NoZipUrl) => first_asset(assets@, self.artifact_pattern@, 0) matches Some(z)
                    && assets@[z].browser_download_url is None,
                Err(DroidianError::NoChecksumsAsset) => first_asset(assets@, "SHA256SUMS"@, 0) is None,
                Err(DroidianError::NoChecksumsUrl) => first_asset(assets@, "SHA256SUMS"@, 0) matches Some(c)
                    && assets@[c].browser_download_url is None,
                Err(DroidianError::NoChecksum) => false,
            },
    {
        let z = match first_asset_exec(assets, self.artifact_pattern.as_str()) {
            Some(z) => z,
            None => {
                return Err(DroidianError::NoMatchingAsset);
            },
        };
        let zip_url = match &assets[z].browser_download_url {
            Some(u) => u.clone(),
            None => {
                return Err(DroidianError::NoZipUrl);
            },
        };
        proof {
            lemma_first_asset(assets@, self.artifact_pattern@, 0);
        }
        let zip_name = match &assets[z].name {
            Some(n) => n.clone(),
            None => {
                return Err(DroidianError::NoMatchingAsset);
            },
        };
        let c = match first_asset_exec(assets, "SHA256SUMS") {
            Some(c) => c,
            None => {
                return Err(DroidianError::NoChecksumsAsset);
            },
        };
        let checksums_url = match &assets[c].browser_download_url {
            Some(u) => u.clone(),
            None => {
                return Err(DroidianError::NoChecksumsUrl);
            },
        };
        Ok((zip_url, zip_name, checksums_url))
    }

    /// The hash of the image in the release's `SHA256SUMS`: an image
    /// without one is refused rather than flashed unverified.
    pub fn expected_hash(checksums_text: &str, zip_name: &str) -> (r: Result<String, DroidianError>)
        ensures
            match r {
                Ok(h) => crate::flashing::downloader::last_checksum(
                    crate::flashing::downloader::checksum_rows(crate::text::lines_spec(checksums_text@)),
                    zip_name@,
                ) == Some(h@),
                Err(e) => e == DroidianError::NoChecksum && crate::flashing::downloader::last_checksum(
                    crate::flashing::downloader::checksum_rows(crate::text::lines_spec(checksums_text@)),
                    zip_name@,
                ) is None,
            },
    {
        let rows = ImageDownloader::parse_checksums(checksums_text);
        match ImageDownloader::checksum_for(&rows, zip_name) {
            Some(h) => Ok(h),
            None => Err(DroidianError::NoChecksum),
        }
    }

    /// The steps of the installation once the image and its hash are known.
    pub fn plan(&self, adb: &Adb, zip_url: &str, zip_name: &str, hash: &str) -> (r: Vec<Action>)
        ensures
            actions_view(r@) == droidian_plan_spec(*self, adb.binary_path(), zip_url@, zip_name@, hash@),
    {
        let ghost spec = droidian_plan_spec(*self, adb.binary_path(), zip_url@, zip_name@, hash@);
        let downloader = ImageDownloader::new(self.download_dir.as_str());
        let mut plan: Vec<Action> = Vec::new();
        plan.push(status("Downloading Droidian image..."));
        plan.push(download(zip_url, zip_name, Some(hash), "Droidian image", "Failed to download Droidian ZIP"));
        let path = match downloader.safe_dest(zip_name) {
            Ok(p) => p,
            Err(_) => {
                assert(actions_view(plan@) =~= spec);
                return plan;
            },
        };
        let dir = join_path(self.download_dir.as_str(), "extracted");
        plan.push(verifying(0, 1, zip_name));
        let m = cat("Checksum mismatch for ", zip_name);
        plan.push(verify(path.as_str(), hash, m.as_str()));
        plan.push(verifying(1, 1, zip_name));
        plan.push(status("Extracting..."));
        plan.push(extract_zip(path.as_str(), dir.as_str()));
        plan.push(status("Rebooting to bootloader..."));
        plan.push(try_run(adb.reboot_bootloader(self.serial.as_str())));
        plan.push(status("Waiting for device in fastboot mode..."));
        plan.push(Action::WaitForFastboot);
        plan.push(status("Flashing Droidian..."));
        plan.push(flashing(0, 1, "Flashing Droidian (flash_all.sh)..."));
        plan.push(
            flash_all(dir.as_str(), "flash_all.sh", "yes y | bash flash_all.sh 2>&1", false, "Droidian flash_all.sh failed"),
        );
        plan.push(flashing(1, 1, "Flash complete"));
        plan.push(report(InstallProgress::Complete));
        assert(actions_view(plan@) =~= spec);
        plan
    }
}

} // verus!
