use vstd::prelude::*;
use crate::flashing::downloader::{ImageDownloader, plain_component};
use crate::flashing::progress::{
    run_command, runs_verb,
    Action, ActionView, InstallProgress, ProgressView, actions_view, download, extract_zip, flashing, flashing_view,
    report, run, run_plain, status, status_view, verify, verifying, verifying_view,
};
use crate::hardware::command::{command_view, owned};
use crate::hardware::fastboot::Fastboot;
use crate::paths::{join_path, join_spec};
use crate::text::{cat, cat3, chars_of, last_segment, last_segment_of, starts_with, starts_with_spec};

verus! {

broadcast use vstd::string::group_string_axioms;

/// Flashes a stock Android factory image: its bootloader, its radio, then
/// every system partition with a wipe (`fastboot -w update`).
#[derive(Debug)]
pub struct FactoryImageInstaller {
    pub serial: String,
    pub url: String,
    pub sha256: String,
    pub android_version: String,
    pub download_dir: String,
}

/// An entry of an unpacked directory: its name, its path, and whether it is
/// a directory.
#[derive(Debug, Clone)]
pub struct DirEntry {
    pub name: String,
    pub path: String,
    pub is_dir: bool,
}

/// Why a factory image cannot be flashed.
#[derive(Debug, Clone, PartialEq, Eq)]
pub enum FactoryImageError {
    /// No file of the image starts with this prefix.
    NoFile(String),
}

/// The path of the first file (not directory) whose name starts with
/// `prefix`.
pub open spec fn first_file(es: Seq<DirEntry>, prefix: Seq<char>) -> Option<Seq<char>>
    decreases es.len(),
{
    if es.len() == 0 {
        None
    } else if starts_with_spec(es[0].name@, prefix) && !es[0].is_dir {
        Some(es[0].path@)
    } else {
        first_file(es.drop_first(), prefix)
    }
}

/// The path of the first directory, if any.
pub open spec fn first_dir(es: Seq<DirEntry>) -> Option<Seq<char>>
    decreases es.len(),
{
    if es.len() == 0 {
        None
    } else if es[0].is_dir {
        Some(es[0].path@)
    } else {
        first_dir(es.drop_first())
    }
}

/// The first steps: download the factory zip (named after the last part of
/// its URL; stopping there when that name is refused), verify it and unpack
/// it into `extracted/`.
pub open spec fn factory_prepare_spec(inst: FactoryImageInstaller) -> Seq<ActionView> {
    let zip_name = last_segment(inst.url@);
    let dl = seq![
        status_view("Downloading "@ + inst.android_version@ + "..."@),
        ActionView::Download {
            url: inst.url@,
            file_name: zip_name,
            sha256: Some(inst.sha256@),
            label: inst.android_version@,
            context: "Failed to download factory image ZIP"@,
        },
    ];
    match plain_component(zip_name) {
        None => dl,
        Some(n) => {
            let path = join_spec(inst.download_dir@, n);
            dl + seq![
                status_view("Verifying checksum..."@),
                verifying_view(0, 1, zip_name),
                ActionView::Verify { path, sha256: inst.sha256@, mismatch: "Checksum mismatch for "@ + zip_name },
                verifying_view(1, 1, zip_name),
                status_view("Extracting factory image..."@),
                ActionView::ExtractZip { archive: path, dir: join_spec(inst.download_dir@, "extracted"@) },
            ]
        },
    }
}

/// The flashing steps once the bootloader, radio and image zip are found.
pub open spec fn factory_flash_spec(
    inst: FactoryImageInstaller,
    fastboot: Seq<char>,
    bootloader: Seq<char>,
    radio: Seq<char>,
    image_zip: Seq<char>,
) -> Seq<ActionView> {
    let serial = inst.serial@;
    let reboot = ActionView::Run {
        command: command_view(fastboot, seq!["-s"@, serial, "reboot"@, "bootloader"@]),
        context: None,
        tolerant: false,
    };
    seq![
        flashing_view(1, 3, "Flashing bootloader..."@),
        ActionView::Run {
            command: command_view(fastboot, seq!["-s"@, serial, "flash"@, "bootloader"@, bootloader]),
            context: Some("Failed to flash bootloader"@),
            tolerant: false,
        },
        status_view("Rebooting to bootloader..."@),
        reboot,
        ActionView::WaitForFastboot,
        flashing_view(2, 3, "Flashing radio..."@),
        ActionView::Run {
            command: command_view(fastboot, seq!["-s"@, serial, "flash"@, "radio"@, radio]),
            context: Some("Failed to flash radio"@),
            tolerant: false,
        },
        status_view("Rebooting to bootloader..."@),
        reboot,
        ActionView::WaitForFastboot,
        flashing_view(3, 3, "Flashing system partitions..."@),
        ActionView::Run {
            command: command_view(fastboot, seq!["-s"@, serial, "-w"@, "update"@, image_zip]),
            context: Some("Failed to flash system partitions (fastboot update)"@),
            tolerant: false,
        },
        ActionView::Report(ProgressView::Complete),
    ]
}

impl FactoryImageInstaller {
    /// An installer whose downloads go to `{cache_dir}/sidestep/factory-image`.
    pub fn new(serial: String, url: String, sha256: String, android_version: String, cache_dir: &str) -> (r: Self)
        ensures
            r.serial == serial,
            r.url == url,
            r.sha256 == sha256,
            r.android_version == android_version,
            r.download_dir@ == join_spec(join_spec(cache_dir@, "sidestep"@), "factory-image"@),
    {
        let base = join_path(cache_dir, "sidestep");
        FactoryImageInstaller {
            serial,
            url,
            sha256,
            android_version,
            download_dir: join_path(base.as_str(), "factory-image"),
        }
    }

    /// The directory of the image inside the unpacked zip: its first
    /// subdirectory, or the unpacked directory itself.
    pub fn find_inner_dir(extract_dir: &str, entries: &Vec<DirEntry>) -> (r: String)
        ensures
            r@ == match first_dir(entries@) {
                Some(d) => d,
                None => extract_dir@,
            },
    {
        let mut i: usize = 0;
        assert(entries@.skip(0) =~= entries@);
        while i < entries.len()
            invariant
                i <= entries.len(),
                first_dir(entries@) == first_dir(entries@.skip(i as int)),
            decreases entries.len() - i,
        {
            assert(entries@.skip(i as int)[0] == entries@[i as int]);
            assert(entries@.skip(i as int).drop_first() =~= entries@.skip(i + 1));
            if entries[i].is_dir {
                return owned(entries[i].path.as_str());
            }
            i = i + 1;
        }
        assert(entries@.skip(i as int) =~= Seq::<DirEntry>::empty());
        owned(extract_dir)
    }

    /// The file of the image whose name starts with `prefix` (such as
    /// `bootloader-`): the first such file of the directory.
    pub fn find_file(entries: &Vec<DirEntry>, prefix: &str) -> (r: Result<String, FactoryImageError>)
        ensures
            match r {
                Ok(p) => first_file(entries@, prefix@) == Some(p@),
                Err(e) => first_file(entries@, prefix@) is None && (e matches FactoryImageError::NoFile(p) && p@ == prefix@),
            },
    {
        let pv = chars_of(prefix);
        let mut i: usize = 0;
        assert(entries@.skip(0) =~= entries@);
        while i < entries.len()
            invariant
                i <= entries.len(),
                pv@ == prefix@,
                first_file(entries@, prefix@) == first_file(entries@.skip(i as int), prefix@),
            decreases entries.len() - i,
        {
            assert(entries@.skip(i as int)[0] == entries@[i as int]);
            assert(entries@.skip(i as int).drop_first() =~= entries@.skip(i + 1));
            if starts_with(&chars_of(entries[i].name.as_str()), &pv) && !entries[i].is_dir {
                return Ok(owned(entries[i].path.as_str()));
            }
            i = i + 1;
        }
        assert(entries@.skip(i as int) =~= Seq::<DirEntry>::empty());
        Err(FactoryImageError::NoFile(owned(prefix)))
    }

    /// The first steps of the installation: download, verify and unpack.
    pub fn prepare_plan(&self) -> (r: Vec<Action>)
        ensures
            actions_view(r@) == factory_prepare_spec(*self),
    {
        let downloader = ImageDownloader::new(self.download_dir.as_str());
        let zip_name = last_segment_of(self.url.as_str());
        let mut plan: Vec<Action> = Vec::new();
        let st = cat3("Downloading ", self.android_version.as_str(), "...");
        plan.push(status(st.as_str()));
        plan.push(
            download(
                self.url.as_str(),
                zip_name.as_str(),
                Some(self.sha256.as_str()),
                self.android_version.as_str(),
                "Failed to download factory image ZIP",
            ),
        );
        let path = match downloader.safe_dest(zip_name.as_str()) {
            Ok(p) => p,
            Err(_) => {
                assert(actions_view(plan@) =~= factory_prepare_spec(*self));
                return plan;
            },
        };
        plan.push(status("Verifying checksum..."));
        plan.push(verifying(0, 1, zip_name.as_str()));
        let m = cat("Checksum mismatch for ", zip_name.as_str());
        plan.push(verify(path.as_str(), self.sha256.as_str(), m.as_str()));
        plan.push(verifying(1, 1, zip_name.as_str()));
        plan.push(status("Extracting factory image..."));
        let dir = join_path(self.download_dir.as_str(), "extracted");
        plan.push(extract_zip(path.as_str(), dir.as_str()));
        assert(actions_view(plan@) =~= factory_prepare_spec(*self));
        plan
    }

    /// The flashing steps once the bootloader, radio and image zip are found.
    pub fn flash_plan(&self, fastboot: &Fastboot, bootloader: &str, radio: &str, image_zip: &str) -> (r: Vec<Action>)
        ensures
            actions_view(r@) == factory_flash_spec(*self, fastboot.binary_path(), bootloader@, radio@, image_zip@),
    {
        let serial = self.serial.as_str();
        let mut plan: Vec<Action> = Vec::new();
        plan.push(flashing(1, 3, "Flashing bootloader..."));
        plan.push(run(fastboot.flash(serial, "bootloader", bootloader), "Failed to flash bootloader"));
        plan.push(status("Rebooting to bootloader..."));
        plan.push(run_plain(fastboot.reboot_bootloader(serial)));
        plan.push(Action::WaitForFastboot);
        plan.push(flashing(2, 3, "Flashing radio..."));
        plan.push(run(fastboot.flash(serial, "radio", radio), "Failed to flash radio"));
        plan.push(status("Rebooting to bootloader..."));
        plan.push(run_plain(fastboot.reboot_bootloader(serial)));
        plan.push(Action::WaitForFastboot);
        plan.push(flashing(3, 3, "Flashing system partitions..."));
        plan.push(run(fastboot.update(serial, image_zip, true), "Failed to flash system partitions (fastboot update)"));
        plan.push(report(InstallProgress::Complete));
        assert(actions_view(plan@) =~= factory_flash_spec(*self, fastboot.binary_path(), bootloader@, radio@, image_zip@));
        plan
    }
}

/// A factory image flashes each image to its own partition: every
/// `fastboot flash` of the plan writes either the bootloader image to
/// `bootloader` or the radio image to `radio`, the bootloader before the
/// radio; and the last command, with `-w`, runs `update` on the image zip.
pub proof fn lemma_factory_images_to_their_partitions(
    inst: FactoryImageInstaller,
    fastboot: Seq<char>,
    bootloader: Seq<char>,
    radio: Seq<char>,
    image_zip: Seq<char>,
)
    ensures
        ({
            let p = factory_flash_spec(inst, fastboot, bootloader, radio, image_zip);
            let serial = inst.serial@;
            let flash_bootloader = command_view(fastboot, seq!["-s"@, serial, "flash"@, "bootloader"@, bootloader]);
            let flash_radio = command_view(fastboot, seq!["-s"@, serial, "flash"@, "radio"@, radio]);
            &&& forall|j: int|
                0 <= j < p.len() && runs_verb(#[trigger] p[j], "flash"@) ==> run_command(p[j]) == Some(flash_bootloader)
                    || run_command(p[j]) == Some(flash_radio)
            &&& exists|i: int, j: int|
                0 <= i < j < p.len() && #[trigger] run_command(p[i]) == Some(flash_bootloader) && #[trigger] run_command(
                    p[j],
                ) == Some(flash_radio)
            &&& forall|j: int|
                0 <= j < p.len() && runs_verb(#[trigger] p[j], "-w"@) ==> run_command(p[j]) == Some(
                    command_view(fastboot, seq!["-s"@, serial, "-w"@, "update"@, image_zip]),
                )
        }),
{
    reveal_strlit("flash");
    reveal_strlit("reboot");
    reveal_strlit("-w");
    assert("flash"@.len() == 5 && "reboot"@.len() == 6 && "-w"@.len() == 2);
    let p = factory_flash_spec(inst, fastboot, bootloader, radio, image_zip);
    assert(p.len() == 13);
    assert(run_command(p[1]) is Some && run_command(p[6]) is Some);
    assert forall|j: int| 0 <= j < p.len() implies (runs_verb(#[trigger] p[j], "flash"@) ==> run_command(p[j]) == Some(
        command_view(fastboot, seq!["-s"@, inst.serial@, "flash"@, "bootloader"@, bootloader]),
    ) || run_command(p[j]) == Some(command_view(fastboot, seq!["-s"@, inst.serial@, "flash"@, "radio"@, radio]))) && (
    runs_verb(p[j], "-w"@) ==> run_command(p[j]) == Some(
        command_view(fastboot, seq!["-s"@, inst.serial@, "-w"@, "update"@, image_zip]),
    )) by {
    if j == 0 {
    } else if j == 1 {
        assert(run_command(p[1])->0.args[2] == "flash"@);
    } else if j == 2 {
    } else if j == 3 {
        assert(run_command(p[3])->0.args[2] == "reboot"@);
    } else if j == 4 {
    } else if j == 5 {
    } else if j == 6 {
        assert(run_command(p[6])->0.args[2] == "flash"@);
    } else if j == 7 {
    } else if j == 8 {
        assert(run_command(p[8])->0.args[2] == "reboot"@);
    } else if j == 9 {
    } else if j == 10 {
    } else if j == 11 {
        assert(run_command(p[11])->0.args[2] == "-w"@);
    } else if j == 12 {
    }
    }
}

} // verus!
