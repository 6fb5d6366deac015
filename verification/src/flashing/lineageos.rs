use vstd::prelude::*;
use crate::flashing::downloader::{ImageDownloader, plain_component};
use crate::flashing::progress::{
    run_command, runs_verb,
    Action, ActionView, InstallProgress, ProgressView, actions_view, download, flashing, flashing_view, prompt,
    prompt_view, report, run, run_plain, status, status_view, try_run, verify, verifying, verifying_view,
};
use crate::hardware::adb::Adb;
use crate::hardware::command::{command_view, owned};
use crate::hardware::fastboot::Fastboot;
use crate::models::device::str_eq;
use crate::paths::{join_path, join_spec};
use crate::text::{chars_of, ends_with, ends_with_spec, starts_with, starts_with_spec};

verus! {

broadcast use vstd::string::group_string_axioms;

/// A file of a LineageOS build, as the API lists it.
#[derive(Debug, Clone)]
pub struct LineageFile {
    pub filename: String,
    pub url: String,
    pub sha256: String,
    pub size: u64,
}

/// A LineageOS build, as the API lists it.
#[derive(Debug, Clone)]
pub struct LineageBuild {
    pub version: String,
    pub files: Vec<LineageFile>,
}

/// Why a LineageOS installation cannot go on.
#[derive(Debug, Clone, PartialEq, Eq)]
pub enum LineageError {
    /// The API lists no build.
    NoBuilds,
    /// The build holds no ROM zip.
    NoRomZip,
}

/// Orchestrates LineageOS installation: a fresh install flashes the build's
/// recovery (`boot.img`) in fastboot mode, then sideloads the ROM from
/// recovery after a factory reset; an update only sideloads the ROM.
#[derive(Debug)]
pub struct LineageosInstaller {
    pub serial: String,
    pub api_url: String,
    pub update_only: bool,
    pub download_dir: String,
}

/// A file named like a ROM: `…-signed.zip` or `lineage-…`.
pub open spec fn looks_like_rom(n: Seq<char>) -> bool {
    ends_with_spec(n, "-signed.zip"@) || starts_with_spec(n, "lineage-"@)
}

pub open spec fn is_zip(n: Seq<char>) -> bool {
    ends_with_spec(n, ".zip"@) && !ends_with_spec(n, ".img"@)
}

/// The index of the first file that looks like a ROM, if any.
pub open spec fn first_rom_like(fs: Seq<LineageFile>, i: int) -> Option<int>
    decreases fs.len() - i,
{
    if i < 0 || i >= fs.len() {
        None
    } else if looks_like_rom(fs[i].filename@) {
        Some(i)
    } else {
        first_rom_like(fs, i + 1)
    }
}

/// `first_rom_like` picks the first file named like a ROM: the index it
/// gives holds such a file and no earlier one does; it gives none exactly
/// when no file from `i` on is named like a ROM.
pub proof fn lemma_first_rom_like(fs: Seq<LineageFile>, i: int)
    requires
        0 <= i,
    ensures
        first_rom_like(fs, i) matches Some(k) ==> i <= k < fs.len() && looks_like_rom(fs[k].filename@) && forall|j: int|
            i <= j < k ==> !looks_like_rom(#[trigger] fs[j].filename@),
        first_rom_like(fs, i) is None <==> forall|j: int| i <= j < fs.len() ==> !looks_like_rom(#[trigger] fs[j].filename@),
    decreases fs.len() - i,
{
    if i < fs.len() && !looks_like_rom(fs[i].filename@) {
        lemma_first_rom_like(fs, i + 1);
    }
}

/// `i` is the last of the largest `.zip` files.
pub open spec fn is_largest_zip(fs: Seq<LineageFile>, i: int) -> bool {
    &&& 0 <= i < fs.len()
    &&& ends_with_spec(fs[i].filename@, ".zip"@)
    &&& forall|j: int| 0 <= j < fs.len() && ends_with_spec(fs[j].filename@, ".zip"@) ==> fs[j].size <= fs[i].size
    &&& forall|j: int| i < j < fs.len() && ends_with_spec(fs[j].filename@, ".zip"@) ==> fs[j].size < fs[i].size
}

/// The ROM zip of a build: the first file that looks like a ROM when it is
/// a zip; otherwise the largest zip (the last of equally large ones).
pub open spec fn rom_choice(fs: Seq<LineageFile>, i: int) -> bool {
    match first_rom_like(fs, 0) {
        Some(k) if is_zip(fs[k].filename@) => i == k,
        _ => is_largest_zip(fs, i),
    }
}

pub open spec fn with_boot(inst: LineageosInstaller, boot: Option<LineageFile>) -> bool {
    !inst.update_only && boot is Some
}

/// Where the build's boot image is read from.
pub open spec fn boot_path_spec(inst: LineageosInstaller, boot: Option<LineageFile>) -> Seq<char> {
    join_spec(inst.download_dir@, boot->0.filename@)
}

/// Where the ROM zip is downloaded to.
pub open spec fn zip_path_spec(inst: LineageosInstaller, zip: LineageFile) -> Seq<char> {
    join_spec(inst.download_dir@, plain_component(zip.filename@)->0)
}

pub open spec fn lineage_boot_download(inst: LineageosInstaller, boot: Option<LineageFile>) -> Seq<ActionView> {
    if with_boot(inst, boot) {
        seq![
            status_view("Downloading boot image..."@),
            ActionView::Download {
                url: boot->0.url@,
                file_name: boot->0.filename@,
                sha256: Some(boot->0.sha256@),
                label: "Boot image"@,
                context: "Failed to download boot image"@,
            },
        ]
    } else {
        seq![]
    }
}

pub open spec fn lineage_rom_download(zip: LineageFile) -> Seq<ActionView> {
    seq![
        status_view("Downloading LineageOS ROM..."@),
        ActionView::Download {
            url: zip.url@,
            file_name: zip.filename@,
            sha256: Some(zip.sha256@),
            label: "LineageOS ROM"@,
            context: "Failed to download LineageOS ROM"@,
        },
    ]
}

/// The checksum steps: the boot image (on a fresh install with one), then
/// the ROM zip, counted out of the files checked.
pub open spec fn lineage_checks(inst: LineageosInstaller, zip: LineageFile, boot: Option<LineageFile>) -> Seq<ActionView> {
    let count: usize = if inst.update_only {
        1
    } else if boot is Some {
        2
    } else {
        1
    };
    let verified: usize = if with_boot(inst, boot) {
        1
    } else {
        0
    };
    (if with_boot(inst, boot) {
        seq![
            verifying_view(0, count, "Verifying boot image"@),
            ActionView::Verify {
                path: boot_path_spec(inst, boot),
                sha256: boot->0.sha256@,
                mismatch: "Checksum mismatch for boot image"@,
            },
        ]
    } else {
        seq![]
    }) + seq![
        verifying_view(verified, count, "Verifying ROM zip"@),
        ActionView::Verify {
            path: zip_path_spec(inst, zip),
            sha256: zip.sha256@,
            mismatch: "Checksum mismatch for LineageOS ROM zip"@,
        },
        verifying_view((verified + 1) as usize, count, "All checksums verified"@),
    ]
}

/// Getting into recovery: an update reboots there over adb (a failure is
/// only logged); a fresh install reboots to the bootloader, flashes the
/// recovery (`boot.img`, when the build has one) and reboots to recovery.
pub open spec fn lineage_to_recovery(
    inst: LineageosInstaller,
    adb: Seq<char>,
    fastboot: Seq<char>,
    boot: Option<LineageFile>,
) -> Seq<ActionView> {
    let serial = inst.serial@;
    if inst.update_only {
        seq![
            status_view("Rebooting to recovery..."@),
            ActionView::Run { command: command_view(adb, seq!["-s"@, serial, "reboot"@, "recovery"@]), context: None, tolerant: true },
        ]
    } else {
        seq![
            status_view("Rebooting to bootloader..."@),
            ActionView::Run {
                command: command_view(adb, seq!["-s"@, serial, "reboot"@, "bootloader"@]),
                context: None,
                tolerant: true,
            },
            status_view("Waiting for device in fastboot mode..."@),
            ActionView::WaitForFastboot,
        ] + (if boot is Some {
            seq![
                flashing_view(1, 2, "Flashing LineageOS recovery (boot.img)..."@),
                ActionView::Run {
                    command: command_view(fastboot, seq!["-s"@, serial, "flash"@, "boot"@, boot_path_spec(inst, boot)]),
                    context: Some("Failed to flash boot image"@),
                    tolerant: false,
                },
            ]
        } else {
            seq![]
        }) + seq![
            status_view("Rebooting to recovery..."@),
            ActionView::Run { command: command_view(fastboot, seq!["-s"@, serial, "reboot"@, "recovery"@]), context: None, tolerant: false },
        ]
    }
}

/// Waiting for recovery, and on a fresh install for the factory reset.
pub open spec fn lineage_in_recovery(inst: LineageosInstaller, adb: Seq<char>) -> Seq<ActionView> {
    let wait_recovery = ActionView::Run {
        command: command_view(adb, seq!["-s"@, inst.serial@, "wait-for-recovery"@]),
        context: None,
        tolerant: false,
    };
    seq![
        status_view("Waiting for recovery mode..."@),
        wait_recovery,
        ActionView::Report(ProgressView::RecoveryDetected),
        ActionView::Sleep(3),
    ] + if inst.update_only {
        seq![]
    } else {
        seq![
            status_view("Waiting for factory reset..."@),
            prompt_view(
                "On your phone: Select \"Factory reset\" → \"Format data/factory reset\" → confirm, then come back here"@,
            ),
            ActionView::Sleep(5),
            wait_recovery,
            ActionView::Sleep(3),
        ]
    }
}

/// Sideloading the ROM and reporting completion.
pub open spec fn lineage_finish(inst: LineageosInstaller, adb: Seq<char>, zip: LineageFile) -> Seq<ActionView> {
    let step: usize = if inst.update_only {
        1
    } else {
        2
    };
    seq![
        prompt_view("On your phone: Select \"Apply update\" → \"Apply from ADB\""@),
        ActionView::Sleep(5),
        flashing_view(step, step, "Sideloading LineageOS ROM..."@),
        ActionView::Run {
            command: command_view(adb, seq!["-s"@, inst.serial@, "sideload"@, zip_path_spec(inst, zip)]),
            context: Some("Failed to sideload LineageOS ROM"@),
            tolerant: false,
        },
        prompt_view("Sideload complete! On your phone: Select \"Reboot system now\""@),
        ActionView::Report(ProgressView::Complete),
    ]
}

/// The steps of a LineageOS installation once the ROM zip (and the boot
/// image, if the build has one) are known. It stops at a download whose file
/// name is refused.
pub open spec fn lineage_plan_spec(
    inst: LineageosInstaller,
    adb: Seq<char>,
    fastboot: Seq<char>,
    zip: LineageFile,
    boot: Option<LineageFile>,
) -> Seq<ActionView> {
    if with_boot(inst, boot) && plain_component(boot->0.filename@) is None {
        lineage_boot_download(inst, boot)
    } else if plain_component(zip.filename@) is None {
        lineage_boot_download(inst, boot) + lineage_rom_download(zip)
    } else {
        lineage_boot_download(inst, boot) + lineage_rom_download(zip) + lineage_checks(inst, zip, boot)
            + lineage_to_recovery(inst, adb, fastboot, boot) + lineage_in_recovery(inst, adb) + lineage_finish(
            inst,
            adb,
            zip,
        )
    }
}

fn first_rom_like_exec(files: &Vec<LineageFile>) -> (r: Option<usize>)
    ensures
        match r {
            Some(i) => first_rom_like(files@, 0) == Some(i as int) && i < files.len(),
            None => first_rom_like(files@, 0) is None,
        },
{
    let signed = chars_of("-signed.zip");
    let lin = chars_of("lineage-");
    let mut i: usize = 0;
    while i < files.len()
        invariant
            i <= files.len(),
            signed@ == "-signed.zip"@,
            lin@ == "lineage-"@,
            first_rom_like(files@, 0) == first_rom_like(files@, i as int),
        decreases files.len() - i,
    {
        let n = chars_of(files[i].filename.as_str());
        if ends_with(&n, &signed) || starts_with(&n, &lin) {
            return Some(i);
        }
        i = i + 1;
    }
    None
}

impl LineageosInstaller {
    /// An installer whose downloads go to `{cache_dir}/sidestep/lineageos`.
    pub fn new(serial: String, api_url: String, update_only: bool, cache_dir: &str) -> (r: Self)
        ensures
            r.serial == serial,
            r.api_url == api_url,
            r.update_only == update_only,
            r.download_dir@ == join_spec(join_spec(cache_dir@, "sidestep"@), "lineageos"@),
    {
        let base = join_path(cache_dir, "sidestep");
        LineageosInstaller { serial, api_url, update_only, download_dir: join_path(base.as_str(), "lineageos") }
    }

    /// The latest build: the first the API lists.
    pub fn latest_build(builds: Vec<LineageBuild>) -> (r: Result<LineageBuild, LineageError>)
        ensures
            builds.len() > 0 ==> r == Ok::<LineageBuild, LineageError>(builds@[0]),
            builds.len() == 0 ==> r == Err::<LineageBuild, LineageError>(LineageError::NoBuilds),
    {
        let mut builds = builds;
        if builds.len() == 0 {
            Err(LineageError::NoBuilds)
        } else {
            Ok(builds.remove(0))
        }
    }

    /// The index of the ROM zip among the files of a build.
    pub fn rom_zip(files: &Vec<LineageFile>) -> (r: Result<usize, LineageError>)
        ensures
            match r {
                Ok(i) => rom_choice(files@, i as int),
                Err(e) => e == LineageError::NoRomZip && (match first_rom_like(files@, 0) {
                    Some(k) if is_zip(files@[k].filename@) => false,
                    _ => forall|j: int| 0 <= j < files.len() ==> !ends_with_spec(#[trigger] files@[j].filename@, ".zip"@),
                }),
            },
    {
        let zip = chars_of(".zip");
        let img = chars_of(".img");
        match first_rom_like_exec(files) {
            Some(i) => {
                let n = chars_of(files[i].filename.as_str());
                if ends_with(&n, &zip) && !ends_with(&n, &img) {
                    return Ok(i);
                }
            },
            None => {},
        }
        let mut best: Option<usize> = None;
        for j in 0..files.len()
            invariant
                zip@ == ".zip"@,
                match best {
                    Some(b) => b < j && ends_with_spec(files@[b as int].filename@, ".zip"@) && (forall|k: int|
                        0 <= k < j && ends_with_spec(files@[k].filename@, ".zip"@) ==> files@[k].size
                            <= files@[b as int].size) && (forall|k: int|
                        b < k < j && ends_with_spec(files@[k].filename@, ".zip"@) ==> files@[k].size
                            < files@[b as int].size),
                    None => forall|k: int| 0 <= k < j ==> !ends_with_spec(#[trigger] files@[k].filename@, ".zip"@),
                },
        {
            let n = chars_of(files[j].filename.as_str());
            if ends_with(&n, &zip) {
                match best {
                    None => {
                        best = Some(j);
                    },
                    Some(b) => {
                        if files[j].size >= files[b].size {
                            best = Some(j);
                        }
                    },
                }
            }
        }
        match best {
            Some(b) => Ok(b),
            None => Err(LineageError::NoRomZip),
        }
    }

    /// The index of the build's `boot.img`, if it has one.
    pub fn boot_image(files: &Vec<LineageFile>) -> (r: Option<usize>)
        ensures
            match r {
                Some(i) => i < files.len() && files@[i as int].filename@ == "boot.img"@ && forall|j: int|
                    0 <= j < i ==> (#[trigger] files@[j]).filename@ != "boot.img"@,
                None => forall|j: int| 0 <= j < files.len() ==> (#[trigger] files@[j]).filename@ != "boot.img"@,
            },
    {
        for i in 0..files.len()
            invariant
                forall|j: int| 0 <= j < i ==> (#[trigger] files@[j]).filename@ != "boot.img"@,
        {
            if str_eq(files[i].filename.as_str(), "boot.img") {
                return Some(i);
            }
        }
        None
    }

    /// The steps of the installation once the ROM zip and the boot image (if
    /// any) are known.
    pub fn plan(&self, adb: &Adb, fastboot: &Fastboot, zip: &LineageFile, boot: Option<&LineageFile>) -> (r: Vec<Action>)
        ensures
            actions_view(r@) == lineage_plan_spec(*self, adb.binary_path(), fastboot.binary_path(), *zip, opt_file(boot)),
    {
        let ghost bo = opt_file(boot);
        let downloader = ImageDownloader::new(self.download_dir.as_str());
        let with_b = !self.update_only && boot.is_some();
        let mut plan: Vec<Action> = Vec::new();
        if with_b {
            let b = boot.unwrap();
            plan.push(status("Downloading boot image..."));
            plan.push(
                download(b.url.as_str(), b.filename.as_str(), Some(b.sha256.as_str()), "Boot image", "Failed to download boot image"),
            );
        }
        assert(actions_view(plan@) =~= lineage_boot_download(*self, bo));
        if with_b {
            if downloader.safe_dest(boot.unwrap().filename.as_str()).is_err() {
                return plan;
            }
        }
        let ghost p1 = actions_view(plan@);
        plan.push(status("Downloading LineageOS ROM..."));
        plan.push(
            download(zip.url.as_str(), zip.filename.as_str(), Some(zip.sha256.as_str()), "LineageOS ROM", "Failed to download LineageOS ROM"),
        );
        assert(actions_view(plan@) =~= p1 + lineage_rom_download(*zip));
        let zip_path = match downloader.safe_dest(zip.filename.as_str()) {
            Ok(p) => p,
            Err(_) => {
                return plan;
            },
        };
        let boot_path = match boot {
            Some(b) => join_path(self.download_dir.as_str(), b.filename.as_str()),
            None => String::new(),
        };
        self.push_checks(&mut plan, zip, boot, zip_path.as_str(), boot_path.as_str());
        self.push_to_recovery(&mut plan, adb, fastboot, boot, boot_path.as_str());
        self.push_in_recovery(&mut plan, adb);
        self.push_finish(&mut plan, adb, zip_path.as_str());
        plan
    }

    fn push_checks(&self, plan: &mut Vec<Action>, zip: &LineageFile, boot: Option<&LineageFile>, zip_path: &str, boot_path: &str)
        requires
            plain_component(zip.filename@) is Some,
            zip_path@ == zip_path_spec(*self, *zip),
            boot is Some ==> boot_path@ == boot_path_spec(*self, opt_file(boot)),
        ensures
            actions_view(final(plan)@) == actions_view(old(plan)@) + lineage_checks(*self, *zip, opt_file(boot)),
    {
        let ghost start = actions_view(plan@);
        let u = self.update_only;
        let with_b = !u && boot.is_some();
        let count: usize = if u {
            1
        } else if boot.is_some() {
            2
        } else {
            1
        };
        let verified: usize = if with_b {
            1
        } else {
            0
        };
        if with_b {
            plan.push(verifying(0, count, "Verifying boot image"));
            plan.push(verify(boot_path, boot.unwrap().sha256.as_str(), "Checksum mismatch for boot image"));
        }
        plan.push(verifying(verified, count, "Verifying ROM zip"));
        plan.push(verify(zip_path, zip.sha256.as_str(), "Checksum mismatch for LineageOS ROM zip"));
        plan.push(verifying(verified + 1, count, "All checksums verified"));
        assert(actions_view(plan@) =~= start + lineage_checks(*self, *zip, opt_file(boot)));
    }

    fn push_to_recovery(&self, plan: &mut Vec<Action>, adb: &Adb, fastboot: &Fastboot, boot: Option<&LineageFile>, boot_path: &str)
        requires
            boot is Some ==> boot_path@ == boot_path_spec(*self, opt_file(boot)),
        ensures
            actions_view(final(plan)@) == actions_view(old(plan)@) + lineage_to_recovery(
                *self,
                adb.binary_path(),
                fastboot.binary_path(),
                opt_file(boot),
            ),
    {
        let ghost start = actions_view(plan@);
        let serial = self.serial.as_str();
        if self.update_only {
            plan.push(status("Rebooting to recovery..."));
            plan.push(try_run(adb.reboot_recovery(serial)));
        } else {
            plan.push(status("Rebooting to bootloader..."));
            plan.push(try_run(adb.reboot_bootloader(serial)));
            plan.push(status("Waiting for device in fastboot mode..."));
            plan.push(Action::WaitForFastboot);
            if boot.is_some() {
                plan.push(flashing(1, 2, "Flashing LineageOS recovery (boot.img)..."));
                plan.push(run(fastboot.flash(serial, "boot", boot_path), "Failed to flash boot image"));
            }
            plan.push(status("Rebooting to recovery..."));
            plan.push(run_plain(fastboot.reboot_recovery(serial)));
        }
        assert(actions_view(plan@) =~= start + lineage_to_recovery(
            *self,
            adb.binary_path(),
            fastboot.binary_path(),
            opt_file(boot),
        ));
    }

    fn push_in_recovery(&self, plan: &mut Vec<Action>, adb: &Adb)
        ensures
            actions_view(final(plan)@) == actions_view(old(plan)@) + lineage_in_recovery(*self, adb.binary_path()),
    {
        let ghost start = actions_view(plan@);
        let serial = self.serial.as_str();
        plan.push(status("Waiting for recovery mode..."));
        plan.push(run_plain(adb.wait_for_recovery(serial)));
        plan.push(report(InstallProgress::RecoveryDetected));
        plan.push(Action::Sleep(3));
        if !self.update_only {
            plan.push(status("Waiting for factory reset..."));
            plan.push(
                prompt(
                    "On your phone: Select \"Factory reset\" → \"Format data/factory reset\" → confirm, then come back here",
                ),
            );
            plan.push(Action::Sleep(5));
            plan.push(run_plain(adb.wait_for_recovery(serial)));
            plan.push(Action::Sleep(3));
        }
        assert(actions_view(plan@) =~= start + lineage_in_recovery(*self, adb.binary_path()));
    }

    fn push_finish(&self, plan: &mut Vec<Action>, adb: &Adb, zip_path: &str)
        ensures
            forall|z: LineageFile|
                zip_path_spec(*self, z) == zip_path@ ==> actions_view(final(plan)@) == actions_view(old(plan)@)
                    + #[trigger] lineage_finish(*self, adb.binary_path(), z),
    {
        let ghost start = actions_view(plan@);
        let step: usize = if self.update_only {
            1
        } else {
            2
        };
        plan.push(prompt("On your phone: Select \"Apply update\" → \"Apply from ADB\""));
        plan.push(Action::Sleep(5));
        plan.push(flashing(step, step, "Sideloading LineageOS ROM..."));
        plan.push(run(adb.sideload(self.serial.as_str(), zip_path), "Failed to sideload LineageOS ROM"));
        plan.push(prompt("Sideload complete! On your phone: Select \"Reboot system now\""));
        plan.push(report(InstallProgress::Complete));
        assert forall|z: LineageFile| zip_path_spec(*self, z) == zip_path@ implies actions_view(plan@) == start
            + #[trigger] lineage_finish(*self, adb.binary_path(), z) by {
            assert(actions_view(plan@) =~= start + lineage_finish(*self, adb.binary_path(), z));
        }
    }
}

pub open spec fn opt_file(o: Option<&LineageFile>) -> Option<LineageFile> {
    match o {
        Some(b) => Some(*b),
        None => None,
    }
}

/// A fresh LineageOS install writes the build's `boot.img` to the `boot`
/// partition: when the build has one and the file names are accepted, the
/// only `fastboot flash` of the plan is `flash boot` of that file at its
/// download path (the path verified against its hash), and the only `adb
/// sideload` sends the ROM zip at its download path (verified against the
/// ROM's hash).
pub proof fn lemma_lineage_fresh_flashes_boot(
    inst: LineageosInstaller,
    adb: Seq<char>,
    fastboot: Seq<char>,
    zip: LineageFile,
    boot: LineageFile,
)
    requires
        !inst.update_only,
        plain_component(boot.filename@) is Some,
        plain_component(zip.filename@) is Some,
    ensures
        ({
            let p = lineage_plan_spec(inst, adb, fastboot, zip, Some(boot));
            let serial = inst.serial@;
            let boot_path = join_spec(inst.download_dir@, boot.filename@);
            let zip_path = join_spec(inst.download_dir@, plain_component(zip.filename@)->0);
            &&& forall|j: int|
                0 <= j < p.len() && runs_verb(#[trigger] p[j], "flash"@) ==> run_command(p[j]) == Some(
                    command_view(fastboot, seq!["-s"@, serial, "flash"@, "boot"@, boot_path]),
                )
            &&& exists|j: int|
                0 <= j < p.len() && #[trigger] run_command(p[j]) == Some(
                    command_view(fastboot, seq!["-s"@, serial, "flash"@, "boot"@, boot_path]),
                )
            &&& forall|j: int|
                0 <= j < p.len() && runs_verb(#[trigger] p[j], "sideload"@) ==> run_command(p[j]) == Some(
                    command_view(adb, seq!["-s"@, serial, "sideload"@, zip_path]),
                )
            &&& exists|j: int|
                0 <= j < p.len() && #[trigger] p[j] == (ActionView::Verify {
                    path: boot_path,
                    sha256: boot.sha256@,
                    mismatch: "Checksum mismatch for boot image"@,
                })
            &&& exists|j: int|
                0 <= j < p.len() && #[trigger] p[j] == (ActionView::Verify {
                    path: zip_path,
                    sha256: zip.sha256@,
                    mismatch: "Checksum mismatch for LineageOS ROM zip"@,
                })
        }),
{
    reveal_strlit("flash");
    reveal_strlit("reboot");
    reveal_strlit("sideload");
    reveal_strlit("wait-for-recovery");
    assert("flash"@.len() == 5 && "reboot"@.len() == 6 && "sideload"@.len() == 8);
    assert("wait-for-recovery"@.len() == 17);
    let p = lineage_plan_spec(inst, adb, fastboot, zip, Some(boot));
    assert(p.len() == 32);
    assert(run_command(p[14]) is Some);
    assert(p[5] is Verify && p[7] is Verify);
    let boot_path = join_spec(inst.download_dir@, boot.filename@);
    let zip_path = join_spec(inst.download_dir@, plain_component(zip.filename@)->0);
    assert forall|j: int| 0 <= j < p.len() implies (runs_verb(#[trigger] p[j], "flash"@) ==> run_command(p[j]) == Some(
        command_view(fastboot, seq!["-s"@, inst.serial@, "flash"@, "boot"@, boot_path]),
    )) && (runs_verb(p[j], "sideload"@) ==> run_command(p[j]) == Some(
        command_view(adb, seq!["-s"@, inst.serial@, "sideload"@, zip_path]),
    )) by {
        if j == 0 {
        } else if j == 1 {
        } else if j == 2 {
        } else if j == 3 {
        } else if j == 4 {
        } else if j == 5 {
        } else if j == 6 {
        } else if j == 7 {
        } else if j == 8 {
        } else if j == 9 {
        } else if j == 10 {
            assert(run_command(p[10])->0.args[2] == "reboot"@);
        } else if j == 11 {
        } else if j == 12 {
        } else if j == 13 {
        } else if j == 14 {
            assert(run_command(p[14])->0.args[2] == "flash"@);
        } else if j == 15 {
        } else if j == 16 {
            assert(run_command(p[16])->0.args[2] == "reboot"@);
        } else if j == 17 {
        } else if j == 18 {
            assert(run_command(p[18])->0.args[2] == "wait-for-recovery"@);
        } else if j == 19 {
        } else if j == 20 {
        } else if j == 21 {
        } else if j == 22 {
        } else if j == 23 {
        } else if j == 24 {
            assert(run_command(p[24])->0.args[2] == "wait-for-recovery"@);
        } else if j == 25 {
        } else if j == 26 {
        } else if j == 27 {
        } else if j == 28 {
        } else if j == 29 {
            assert(run_command(p[29])->0.args[2] == "sideload"@);
        } else if j == 30 {
        } else if j == 31 {
        }
    }
}

/// An update never flashes: with `update_only`, the plan has no `fastboot
/// flash` at all (the device keeps its recovery), and its only `adb
/// sideload` sends the ROM zip at its download path.
pub proof fn lemma_lineage_update_flashes_nothing(
    inst: LineageosInstaller,
    adb: Seq<char>,
    fastboot: Seq<char>,
    zip: LineageFile,
    boot: Option<LineageFile>,
)
    requires
        inst.update_only,
        plain_component(zip.filename@) is Some,
    ensures
        ({
            let p = lineage_plan_spec(inst, adb, fastboot, zip, boot);
            &&& forall|j: int| 0 <= j < p.len() ==> !runs_verb(#[trigger] p[j], "flash"@)
            &&& forall|j: int|
                0 <= j < p.len() && runs_verb(#[trigger] p[j], "sideload"@) ==> run_command(p[j]) == Some(
                    command_view(
                        adb,
                        seq!["-s"@, inst.serial@, "sideload"@, join_spec(inst.download_dir@, plain_component(zip.filename@)->0)],
                    ),
                )
        }),
{
    reveal_strlit("flash");
    reveal_strlit("reboot");
    reveal_strlit("sideload");
    reveal_strlit("wait-for-recovery");
    assert("flash"@.len() == 5 && "reboot"@.len() == 6 && "sideload"@.len() == 8);
    assert("wait-for-recovery"@.len() == 17);
    let p = lineage_plan_spec(inst, adb, fastboot, zip, boot);
    assert(p.len() == 17);
    let zip_path = join_spec(inst.download_dir@, plain_component(zip.filename@)->0);
    assert forall|j: int| 0 <= j < p.len() implies !runs_verb(#[trigger] p[j], "flash"@) && (runs_verb(p[j], "sideload"@)
        ==> run_command(p[j]) == Some(command_view(adb, seq!["-s"@, inst.serial@, "sideload"@, zip_path]))) by {
        if j == 0 {
        } else if j == 1 {
        } else if j == 2 {
        } else if j == 3 {
        } else if j == 4 {
        } else if j == 5 {
        } else if j == 6 {
            assert(run_command(p[6])->0.args[2] == "reboot"@);
        } else if j == 7 {
        } else if j == 8 {
            assert(run_command(p[8])->0.args[2] == "wait-for-recovery"@);
        } else if j == 9 {
        } else if j == 10 {
        } else if j == 11 {
        } else if j == 12 {
        } else if j == 13 {
        } else if j == 14 {
            assert(run_command(p[14])->0.args[2] == "sideload"@);
        } else if j == 15 {
        } else if j == 16 {
        }
    }
}

} // verus!
