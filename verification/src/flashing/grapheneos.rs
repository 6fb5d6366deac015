use vstd::prelude::*;
use crate::flashing::downloader::{ImageDownloader, plain_component};
use crate::flashing::listing::{first_word, first_word_spec};
use crate::flashing::progress::{
    Action, ActionView, InstallProgress, ProgressView, actions_view, download, extract_zip, flash_all, flashing,
    flashing_view, prompt, prompt_view, report, status, status_view, try_run,
};
use crate::hardware::adb::Adb;
use crate::hardware::command::{command_view, owned};
use crate::paths::{join_path, join_spec};
use crate::text::{cat, cat3};

verus! {

broadcast use vstd::string::group_string_axioms;

/// The GrapheneOS release server.
pub open spec fn releases() -> Seq<char> {
    "https://releases.grapheneos.org"@
}

/// Orchestrates a GrapheneOS install on a supported Pixel: download the
/// latest stable install archive, unpack it and run its `flash-all.sh`.
#[derive(Debug)]
pub struct GrapheneosInstaller {
    pub serial: String,
    /// GrapheneOS device codename (such as `shiba`).
    pub device: String,
    pub download_dir: String,
}

/// Why a GrapheneOS installation cannot go on.
#[derive(Debug, Clone, PartialEq, Eq)]
pub enum GrapheneosError {
    /// The stable metadata is empty.
    EmptyMetadata,
    /// Neither the unpacked archive nor any of its subdirectories holds
    /// `flash-all.sh`.
    NoFlashAll,
}

/// The first candidate directory that holds the script.
pub open spec fn first_script_dir(candidates: Seq<(String, bool)>) -> Option<Seq<char>>
    decreases candidates.len(),
{
    if candidates.len() == 0 {
        None
    } else if candidates[0].1 {
        Some(candidates[0].0@)
    } else {
        first_script_dir(candidates.drop_first())
    }
}

/// The steps of a GrapheneOS installation once the build is known; it stops
/// at a download whose file name is refused.
pub open spec fn grapheneos_plan_spec(inst: GrapheneosInstaller, adb: Seq<char>, build: Seq<char>) -> Seq<ActionView> {
    let zip_name = inst.device@ + "-install-"@ + build + ".zip"@;
    let dl = seq![
        status_view("Downloading GrapheneOS..."@),
        ActionView::Download {
            url: releases() + "/"@ + zip_name,
            file_name: zip_name,
            sha256: None,
            label: "GrapheneOS"@,
            context: "Failed to download GrapheneOS install archive"@,
        },
    ];
    match plain_component(zip_name) {
        None => dl,
        Some(n) => {
            let dir = join_spec(inst.download_dir@, "extracted"@);
            dl + seq![
                status_view("Extracting..."@),
                ActionView::ExtractZip { archive: join_spec(inst.download_dir@, n), dir },
                status_view("Rebooting to bootloader..."@),
                ActionView::Run {
                    command: command_view(adb, seq!["-s"@, inst.serial@, "reboot"@, "bootloader"@]),
                    context: None,
                    tolerant: true,
                },
                ActionView::WaitForFastboot,
                flashing_view(0, 1, "Flashing GrapheneOS (flash-all.sh)..."@),
                ActionView::FlashAll {
                    dir,
                    script: "flash-all.sh"@,
                    shell: "bash flash-all.sh 2>&1"@,
                    nested: true,
                    failure: "GrapheneOS flash-all.sh failed"@,
                },
                flashing_view(1, 1, "Flash complete"@),
                prompt_view(
                    "GrapheneOS flashed. For full security, re-lock the bootloader: boot to fastboot and run `fastboot flashing lock` (this wipes data and needs confirmation on the device). Only do this after GrapheneOS boots successfully."@,
                ),
                ActionView::Report(ProgressView::Complete),
            ]
        },
    }
}

impl GrapheneosInstaller {
    pub fn new(serial: String, device: String, base_download_dir: &str) -> (r: Self)
        ensures
            r.serial == serial,
            r.device == device,
            r.download_dir@ == join_spec(base_download_dir@, "grapheneos"@),
    {
        GrapheneosInstaller { serial, device, download_dir: join_path(base_download_dir, "grapheneos") }
    }

    /// The URL of the device's stable-channel metadata.
    pub fn stable_url(&self) -> (r: String)
        ensures
            r@ == releases() + "/"@ + self.device@ + "-stable"@,
    {
        let mut r = cat3("https://releases.grapheneos.org", "/", self.device.as_str());
        r.append("-stable");
        r
    }

    /// The latest stable build: the first word of the stable metadata.
    pub fn latest_build(metadata: &str) -> (r: Result<String, GrapheneosError>)
        ensures
            match r {
                Ok(b) => first_word_spec(metadata@) == Some(b@),
                Err(e) => first_word_spec(metadata@) is None && e == GrapheneosError::EmptyMetadata,
            },
    {
        match first_word(metadata) {
            Some(w) => Ok(w),
            None => Err(GrapheneosError::EmptyMetadata),
        }
    }

    /// The directory to run `flash-all.sh` in: the unpacked archive itself
    /// when it holds the script, else the first of its entries (each given
    /// with whether it is a directory holding the script).
    pub fn find_flash_all_dir(extract_dir: &str, root_holds_script: bool, candidates: &Vec<(String, bool)>) -> (r: Result<
        String,
        GrapheneosError,
    >)
        ensures
            root_holds_script ==> r is Ok && r->Ok_0@ == extract_dir@,
            !root_holds_script ==> match first_script_dir(candidates@) {
                Some(d) => r is Ok && r->Ok_0@ == d,
                None => r == Err::<String, GrapheneosError>(GrapheneosError::NoFlashAll),
            },
    {
        if root_holds_script {
            return Ok(owned(extract_dir));
        }
        let mut i: usize = 0;
        assert(candidates@.skip(0) =~= candidates@);
        while i < candidates.len()
            invariant
                i <= candidates.len(),
                !root_holds_script,
                first_script_dir(candidates@) == first_script_dir(candidates@.skip(i as int)),
            decreases candidates.len() - i,
        {
            assert(candidates@.skip(i as int)[0] == candidates@[i as int]);
            assert(candidates@.skip(i as int).drop_first() =~= candidates@.skip(i + 1));
            if candidates[i].1 {
                return Ok(owned(candidates[i].0.as_str()));
            }
            i = i + 1;
        }
        assert(candidates@.skip(i as int) =~= Seq::<(String, bool)>::empty());
        Err(GrapheneosError::NoFlashAll)
    }

    /// The steps of the installation once the build is known.
    pub fn plan(&self, adb: &Adb, build: &str) -> (r: Vec<Action>)
        ensures
            actions_view(r@) == grapheneos_plan_spec(*self, adb.binary_path(), build@),
    {
        let ghost spec = grapheneos_plan_spec(*self, adb.binary_path(), build@);
        let downloader = ImageDownloader::new(self.download_dir.as_str());
        let mut zip_name = cat3(self.device.as_str(), "-install-", build);
        zip_name.append(".zip");
        let zip_url = cat3("https://releases.grapheneos.org", "/", zip_name.as_str());
        let mut plan: Vec<Action> = Vec::new();
        plan.push(status("Downloading GrapheneOS..."));
        plan.push(
            download(zip_url.as_str(), zip_name.as_str(), None, "GrapheneOS", "Failed to download GrapheneOS install archive"),
        );
        let path = match downloader.safe_dest(zip_name.as_str()) {
            Ok(p) => p,
            Err(_) => {
                assert(actions_view(plan@) =~= spec);
                return plan;
            },
        };
        let dir = join_path(self.download_dir.as_str(), "extracted");
        plan.push(status("Extracting..."));
        plan.push(extract_zip(path.as_str(), dir.as_str()));
        plan.push(status("Rebooting to bootloader..."));
        plan.push(try_run(adb.reboot_bootloader(self.serial.as_str())));
        plan.push(Action::WaitForFastboot);
        plan.push(flashing(0, 1, "Flashing GrapheneOS (flash-all.sh)..."));
        plan.push(flash_all(dir.as_str(), "flash-all.sh", "bash flash-all.sh 2>&1", true, "GrapheneOS flash-all.sh failed"));
        plan.push(flashing(1, 1, "Flash complete"));
        plan.push(
            prompt(
                "GrapheneOS flashed. For full security, re-lock the bootloader: boot to fastboot and run `fastboot flashing lock` (this wipes data and needs confirmation on the device). Only do this after GrapheneOS boots successfully.",
            ),
        );
        plan.push(report(InstallProgress::Complete));
        assert(actions_view(plan@) =~= spec);
        plan
    }
}

} // verus!
