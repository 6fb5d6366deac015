use vstd::prelude::*;
use crate::flashing::downloader::{ImageDownloader, plain_component};
use crate::flashing::progress::{
    run_command,
    Action, ActionView, InstallProgress, ProgressView, actions_view, download, flashing, flashing_view, prompt,
    prompt_view, report, run, status, status_view, try_run, verify, verifying, verifying_view,
};
use crate::hardware::adb::Adb;
use crate::hardware::command::{command_view, owned};
use crate::hardware::heimdall::{Heimdall, HeimdallFlash, flash_args_spec, flash_views, lemma_flash_pairs_views, pairs_args};
use crate::models::installer::FirmwareImage;
use crate::paths::{join_path, join_spec};
use crate::text::{cat, cat3};

verus! {

broadcast use vstd::string::group_string_axioms;

/// Orchestrates a Samsung download-mode install: download and verify each
/// image, reboot to download mode, then flash them all in one Heimdall
/// session.
#[derive(Debug)]
pub struct HeimdallInstaller {
    pub serial: String,
    pub images: Vec<FirmwareImage>,
    pub download_dir: String,
}

/// Why a Heimdall installation cannot go on.
#[derive(Debug, Clone, PartialEq, Eq)]
pub enum HeimdallInstallError {
    /// No images are configured.
    NoImages,
}

/// The download and check steps of one image.
pub open spec fn image_steps(dir: Seq<char>, img: FirmwareImage) -> Seq<ActionView> {
    let f = img.filename@;
    seq![
        status_view("Downloading "@ + f + "..."@),
        ActionView::Download {
            url: img.url@,
            file_name: f,
            sha256: Some(img.sha256@),
            label: f,
            context: "Failed to download "@ + f,
        },
        verifying_view(0, 1, f),
        ActionView::Verify {
            path: join_spec(dir, plain_component(f)->0),
            sha256: img.sha256@,
            mismatch: "Checksum mismatch for "@ + f,
        },
        verifying_view(1, 1, f),
    ]
}

/// The steps of the first `n` images.
pub open spec fn images_steps(dir: Seq<char>, imgs: Seq<FirmwareImage>, n: int) -> Seq<ActionView>
    decreases n,
{
    if n <= 0 {
        seq![]
    } else {
        images_steps(dir, imgs, n - 1) + image_steps(dir, imgs[n - 1])
    }
}

/// The partition and downloaded image of the first `n` images.
pub open spec fn image_pairs(dir: Seq<char>, imgs: Seq<FirmwareImage>, n: int) -> Seq<(Seq<char>, Seq<char>)>
    decreases n,
{
    if n <= 0 {
        seq![]
    } else {
        image_pairs(dir, imgs, n - 1).push((imgs[n - 1].partition@, join_spec(dir, plain_component(imgs[n - 1].filename@)->0)))
    }
}

/// The index of the first image whose file name is refused, or the number
/// of images.
pub open spec fn first_refused(imgs: Seq<FirmwareImage>, i: int) -> int
    decreases imgs.len() - i,
{
    if i < 0 || i >= imgs.len() {
        imgs.len() as int
    } else if plain_component(imgs[i].filename@) is None {
        i
    } else {
        first_refused(imgs, i + 1)
    }
}

/// The steps of a Heimdall installation: each image downloaded and checked
/// (stopping at a download whose file name is refused), then download mode,
/// one flash of every partition (rebooting after), and completion.
pub open spec fn heimdall_plan_spec(inst: HeimdallInstaller, adb: Seq<char>, heimdall: Seq<char>) -> Seq<ActionView> {
    let dir = inst.download_dir@;
    let imgs = inst.images@;
    let k = first_refused(imgs, 0);
    if k < imgs.len() {
        images_steps(dir, imgs, k) + seq![
            status_view("Downloading "@ + imgs[k].filename@ + "..."@),
            ActionView::Download {
                url: imgs[k].url@,
                file_name: imgs[k].filename@,
                sha256: Some(imgs[k].sha256@),
                label: imgs[k].filename@,
                context: "Failed to download "@ + imgs[k].filename@,
            },
        ]
    } else {
        let total = imgs.len() as usize;
        images_steps(dir, imgs, imgs.len() as int) + seq![
            status_view("Rebooting to download mode..."@),
            ActionView::Run {
                command: command_view(adb, seq!["-s"@, inst.serial@, "reboot"@, "download"@]),
                context: None,
                tolerant: true,
            },
            prompt_view("If prompted on the device, press Volume Up to continue into download mode."@),
            ActionView::WaitForDownloadMode { seconds: 120, context: "Device did not enter download mode"@ },
            flashing_view(0, total, "Flashing via Heimdall..."@),
            ActionView::Run {
                command: command_view(heimdall, seq!["flash"@] + pairs_args(image_pairs(dir, imgs, imgs.len() as int))),
                context: Some("Heimdall flash failed"@),
                tolerant: false,
            },
            flashing_view(total, total, "Flash complete"@),
            ActionView::Report(ProgressView::Complete),
        ]
    }
}

impl HeimdallInstaller {
    pub fn new(serial: String, images: Vec<FirmwareImage>, base_download_dir: &str) -> (r: Self)
        ensures
            r.serial == serial,
            r.images == images,
            r.download_dir@ == join_spec(base_download_dir@, "heimdall"@),
    {
        HeimdallInstaller { serial, images, download_dir: join_path(base_download_dir, "heimdall") }
    }

    /// An installation needs at least one image.
    pub fn check(&self) -> (r: Result<(), HeimdallInstallError>)
        ensures
            r is Err <==> self.images.len() == 0,
            r matches Err(e) ==> e == HeimdallInstallError::NoImages,
    {
        if self.images.len() == 0 {
            Err(HeimdallInstallError::NoImages)
        } else {
            Ok(())
        }
    }

    /// The steps of the installation.
    pub fn plan(&self, adb: &Adb, heimdall: &Heimdall) -> (r: Vec<Action>)
        requires
            self.images.len() > 0,
        ensures
            actions_view(r@) == heimdall_plan_spec(*self, adb.binary_path(), heimdall.binary_path()),
    {
        let ghost dir = self.download_dir@;
        let ghost imgs = self.images@;
        let downloader = ImageDownloader::new(self.download_dir.as_str());
        let mut plan: Vec<Action> = Vec::new();
        let mut flashes: Vec<HeimdallFlash> = Vec::new();
        for i in 0..self.images.len()
            invariant
                dir == self.download_dir@,
                imgs == self.images@,
                downloader.download_dir@ == dir,
                first_refused(imgs, 0) == first_refused(imgs, i as int),
                actions_view(plan@) == images_steps(dir, imgs, i as int),
                flash_views(flashes@) == image_pairs(dir, imgs, i as int),
        {
            let img = &self.images[i];
            let st = cat3("Downloading ", img.filename.as_str(), "...");
            let ctx = cat("Failed to download ", img.filename.as_str());
            let ghost before = actions_view(plan@);
            plan.push(status(st.as_str()));
            plan.push(download(img.url.as_str(), img.filename.as_str(), Some(img.sha256.as_str()), img.filename.as_str(), ctx.as_str()));
            let path = match downloader.safe_dest(img.filename.as_str()) {
                Ok(p) => p,
                Err(_) => {
                    assert(first_refused(imgs, i as int) == i);
                    assert(actions_view(plan@) =~= heimdall_plan_spec(*self, adb.binary_path(), heimdall.binary_path()));
                    return plan;
                },
            };
            plan.push(verifying(0, 1, img.filename.as_str()));
            let m = cat("Checksum mismatch for ", img.filename.as_str());
            plan.push(verify(path.as_str(), img.sha256.as_str(), m.as_str()));
            plan.push(verifying(1, 1, img.filename.as_str()));
            assert(actions_view(plan@) =~= before + image_steps(dir, imgs[i as int]));
            let ghost fb = flash_views(flashes@);
            flashes.push(Heimdall::flash_entry(img.partition.as_str(), path.as_str()));
            assert(flash_views(flashes@) =~= fb.push((imgs[i as int].partition@, path@)));
        }
        let total = self.images.len();
        plan.push(status("Rebooting to download mode..."));
        plan.push(try_run(adb.reboot_download(self.serial.as_str())));
        plan.push(prompt("If prompted on the device, press Volume Up to continue into download mode."));
        plan.push(Action::WaitForDownloadMode { seconds: 120, context: owned("Device did not enter download mode") });
        plan.push(flashing(0, total, "Flashing via Heimdall..."));
        match heimdall.flash(&flashes, true) {
            Ok(c) => {
                proof {
                    lemma_flash_pairs_views(flashes@);
                }
                plan.push(run(c, "Heimdall flash failed"));
            },
            Err(_) => {
                assert(false);
            },
        }
        plan.push(flashing(total, total, "Flash complete"));
        plan.push(report(InstallProgress::Complete));
        assert(actions_view(plan@) =~= heimdall_plan_spec(*self, adb.binary_path(), heimdall.binary_path()));
        plan
    }
}

proof fn lemma_pairs_args_at(ps: Seq<(Seq<char>, Seq<char>)>)
    ensures
        pairs_args(ps).len() == 2 * ps.len(),
        forall|i: int|
            0 <= i < ps.len() ==> pairs_args(ps)[2 * i] == "--"@ + (#[trigger] ps[i]).0 && pairs_args(ps)[2 * i + 1]
                == ps[i].1,
    decreases ps.len(),
{
    if ps.len() > 0 {
        lemma_pairs_args_at(ps.drop_last());
        let prev = pairs_args(ps.drop_last());
        assert forall|i: int| 0 <= i < ps.len() implies pairs_args(ps)[2 * i] == "--"@ + (#[trigger] ps[i]).0 && pairs_args(
            ps,
        )[2 * i + 1] == ps[i].1 by {
            if i < ps.len() - 1 {
                assert(ps[i] == ps.drop_last()[i]);
                assert(pairs_args(ps)[2 * i] == prev[2 * i]);
                assert(pairs_args(ps)[2 * i + 1] == prev[2 * i + 1]);
            }
        }
    }
}

proof fn lemma_image_pairs_at(dir: Seq<char>, imgs: Seq<FirmwareImage>, n: int)
    requires
        0 <= n <= imgs.len(),
    ensures
        image_pairs(dir, imgs, n).len() == n,
        forall|i: int|
            0 <= i < n ==> #[trigger] image_pairs(dir, imgs, n)[i] == (imgs[i].partition@, join_spec(
                dir,
                plain_component(imgs[i].filename@)->0,
            )),
    decreases n,
{
    if n > 0 {
        lemma_image_pairs_at(dir, imgs, n - 1);
    }
}

proof fn lemma_images_steps_at(dir: Seq<char>, imgs: Seq<FirmwareImage>, n: int)
    requires
        0 <= n <= imgs.len(),
    ensures
        images_steps(dir, imgs, n).len() == 5 * n,
        forall|i: int|
            0 <= i < n ==> #[trigger] images_steps(dir, imgs, n)[5 * i + 3] == (ActionView::Verify {
                path: join_spec(dir, plain_component(imgs[i].filename@)->0),
                sha256: imgs[i].sha256@,
                mismatch: "Checksum mismatch for "@ + imgs[i].filename@,
            }),
    decreases n,
{
    if n > 0 {
        lemma_images_steps_at(dir, imgs, n - 1);
        let prev = images_steps(dir, imgs, n - 1);
        assert forall|i: int| 0 <= i < n implies #[trigger] images_steps(dir, imgs, n)[5 * i + 3] == (ActionView::Verify {
            path: join_spec(dir, plain_component(imgs[i].filename@)->0),
            sha256: imgs[i].sha256@,
            mismatch: "Checksum mismatch for "@ + imgs[i].filename@,
        }) by {
            if i < n - 1 {
                assert(images_steps(dir, imgs, n)[5 * i + 3] == prev[5 * i + 3]);
            }
        }
    }
}

proof fn lemma_none_refused(imgs: Seq<FirmwareImage>, i: int)
    requires
        0 <= i <= imgs.len(),
        forall|j: int| 0 <= j < imgs.len() ==> plain_component((#[trigger] imgs[j]).filename@) is Some,
    ensures
        first_refused(imgs, i) == imgs.len(),
    decreases imgs.len() - i,
{
    if i < imgs.len() {
        lemma_none_refused(imgs, i + 1);
    }
}

/// Each Samsung image goes to its own partition, from the file that was
/// checked: when every image's file name is accepted, image `i` is verified
/// against its own hash at its download path (step `5 i + 3`), and the one
/// `heimdall flash` of the plan passes, for every image in order,
/// `--PARTITION` followed by that same path.
pub proof fn lemma_heimdall_flashes_checked_images(inst: HeimdallInstaller, adb: Seq<char>, heimdall: Seq<char>)
    requires
        forall|j: int| 0 <= j < inst.images@.len() ==> plain_component((#[trigger] inst.images@[j]).filename@) is Some,
    ensures
        ({
            let p = heimdall_plan_spec(inst, adb, heimdall);
            let imgs = inst.images@;
            let dir = inst.download_dir@;
            let n = imgs.len() as int;
            &&& forall|i: int|
                0 <= i < n ==> #[trigger] p[5 * i + 3] == (ActionView::Verify {
                    path: join_spec(dir, plain_component(imgs[i].filename@)->0),
                    sha256: imgs[i].sha256@,
                    mismatch: "Checksum mismatch for "@ + imgs[i].filename@,
                })
            &&& run_command(p[5 * n + 5]) matches Some(c) && {
                &&& c.program == heimdall
                &&& c.args.len() == 1 + 2 * n
                &&& c.args[0] == "flash"@
                &&& forall|i: int|
                    0 <= i < n ==> c.args[1 + 2 * i] == "--"@ + (#[trigger] imgs[i]).partition@ && c.args[2 + 2 * i]
                        == join_spec(dir, plain_component(imgs[i].filename@)->0)
            }
        }),
{
    let imgs = inst.images@;
    let dir = inst.download_dir@;
    let n = imgs.len() as int;
    lemma_none_refused(imgs, 0);
    lemma_images_steps_at(dir, imgs, n);
    lemma_image_pairs_at(dir, imgs, n);
    let ps = image_pairs(dir, imgs, n);
    lemma_pairs_args_at(ps);
    let p = heimdall_plan_spec(inst, adb, heimdall);
    let st = images_steps(dir, imgs, n);
    assert forall|i: int| 0 <= i < n implies #[trigger] p[5 * i + 3] == (ActionView::Verify {
        path: join_spec(dir, plain_component(imgs[i].filename@)->0),
        sha256: imgs[i].sha256@,
        mismatch: "Checksum mismatch for "@ + imgs[i].filename@,
    }) by {
        assert(p[5 * i + 3] == st[5 * i + 3]);
    }
    let c = run_command(p[5 * n + 5])->0;
    assert(p[5 * n + 5] is Run);
    assert(c.args == seq!["flash"@] + pairs_args(ps));
    assert forall|i: int| 0 <= i < n implies c.args[1 + 2 * i] == "--"@ + (#[trigger] imgs[i]).partition@ && c.args[2
        + 2 * i] == join_spec(dir, plain_component(imgs[i].filename@)->0) by {
        assert(ps[i] == (imgs[i].partition@, join_spec(dir, plain_component(imgs[i].filename@)->0)));
        assert(c.args[1 + 2 * i] == pairs_args(ps)[2 * i]);
        assert(c.args[2 + 2 * i] == pairs_args(ps)[2 * i + 1]);
    }
}

} // verus!
