use vstd::prelude::*;
use crate::flashing::downloader::{ImageDownloader, plain_component, strip_stars, strip_stars_exec};
use crate::flashing::listing::{greatest, is_greatest, line_hrefs, quoted_hrefs};
use crate::flashing::operations::{fastboot_tail_spec, push_fastboot_tail, resolve_source_spec};
use crate::flashing::postmarketos::plain_name_of;
use crate::flashing::progress::{
    Action, ActionView, actions_view, download, extract_tar_xz, status, status_view, verify, verifying, verifying_view,
};
use crate::hardware::adb::Adb;
use crate::hardware::command::owned;
use crate::hardware::fastboot::Fastboot;
use crate::models::installer::FlashOperation;
use crate::paths::{join_path, join_spec};
use crate::text::{
    all_digits, ascii_digit, cat, cat3, chars_of, ends_with, ends_with_spec, is_ascii_digit, seqs_of, slice_of,
    starts_with, starts_with_spec, string_of, lines_spec,
};

verus! {

broadcast use vstd::string::group_string_axioms;

/// Orchestrates Mobian installation: find the latest image for the chipset
/// and interface, download and verify it, unpack it, then run the device's
/// flash operations in fastboot mode and reboot.
#[derive(Debug)]
pub struct MobianInstaller {
    pub serial: String,
    pub base_url: String,
    pub interface: String,
    pub device_model: String,
    pub chipset: String,
    pub flash_operations: Vec<FlashOperation>,
    pub download_dir: String,
}

/// Why a Mobian installation cannot go on.
#[derive(Debug, Clone, PartialEq, Eq)]
pub enum MobianError {
    /// The device config lists no flash operations.
    NoFlashOperations,
    /// The listing holds no image for the chipset and interface.
    NoImage,
    /// No unpacked file matches this pattern.
    NoFileMatching(String),
}

/// `mobian-{chipset}-{interface}-`.
pub open spec fn image_prefix(chipset: Seq<char>, interface: Seq<char>) -> Seq<char> {
    "mobian-"@ + chipset + "-"@ + interface + "-"@
}

/// The date of an image name `{prefix}YYYYMMDD.tar.xz`.
pub open spec fn image_date(h: Seq<char>, prefix: Seq<char>) -> Option<Seq<char>> {
    if starts_with_spec(h, prefix) && ends_with_spec(h, ".tar.xz"@) {
        let after = h.skip(prefix.len() as int);
        if ends_with_spec(after, ".tar.xz"@) {
            let date = after.take(after.len() - 7);
            if date.len() == 8 && all_digits(date) {
                Some(date)
            } else {
                None
            }
        } else {
            None
        }
    } else {
        None
    }
}

/// The image dates among `hs`, in order.
pub open spec fn image_dates(hs: Seq<Seq<char>>, prefix: Seq<char>) -> Seq<Seq<char>>
    decreases hs.len(),
{
    if hs.len() == 0 {
        seq![]
    } else {
        match image_date(hs.last(), prefix) {
            Some(d) => image_dates(hs.drop_last(), prefix).push(d),
            None => image_dates(hs.drop_last(), prefix),
        }
    }
}

/// The path of the first file whose name ends with `pattern` without its
/// leading `*`s.
pub open spec fn first_matching(files: Seq<(Seq<char>, Seq<char>)>, suffix: Seq<char>) -> Option<Seq<char>>
    decreases files.len(),
{
    if files.len() == 0 {
        None
    } else if ends_with_spec(files[0].1, suffix) {
        Some(files[0].0)
    } else {
        first_matching(files.drop_first(), suffix)
    }
}

pub open spec fn files_view(v: Seq<(String, String)>) -> Seq<(Seq<char>, Seq<char>)> {
    Seq::new(v.len(), |i: int| (v[i].0@, v[i].1@))
}

/// The first steps of a Mobian installation once the image is known:
/// download it (stopping there when its file name is refused), verify it
/// when a checksum was listed, and unpack it into `extracted/`.
pub open spec fn mobian_prepare_spec(
    dir: Seq<char>,
    tar_name: Seq<char>,
    tar_url: Seq<char>,
    hash: Option<Seq<char>>,
) -> Seq<ActionView> {
    let dl = seq![
        status_view("Downloading Mobian image..."@),
        ActionView::Download {
            url: tar_url,
            file_name: tar_name,
            sha256: hash,
            label: "Mobian image"@,
            context: "Failed to download Mobian tar.xz"@,
        },
    ];
    match plain_component(tar_name) {
        None => dl,
        Some(n) => {
            let path = join_spec(dir, n);
            let check = match hash {
                Some(h) => seq![
                    verifying_view(0, 1, tar_name),
                    ActionView::Verify { path, sha256: h, mismatch: "Checksum mismatch for "@ + tar_name },
                    verifying_view(1, 1, tar_name),
                ],
                None => seq![],
            };
            dl + check + seq![
                status_view("Extracting image..."@),
                ActionView::ExtractTarXz { archive: path, dir: join_spec(dir, "extracted"@) },
            ]
        },
    }
}

impl MobianInstaller {
    pub fn new(
        serial: String,
        base_url: String,
        interface: String,
        chipset: String,
        device_model: String,
        flash_operations: Vec<FlashOperation>,
        base_download_dir: &str,
    ) -> (r: Self)
        ensures
            r.serial == serial,
            r.base_url == base_url,
            r.interface == interface,
            r.chipset == chipset,
            r.device_model == device_model,
            r.flash_operations == flash_operations,
            r.download_dir@ == join_spec(base_download_dir@, "mobian"@),
    {
        MobianInstaller {
            serial,
            base_url,
            interface,
            device_model,
            chipset,
            flash_operations,
            download_dir: join_path(base_download_dir, "mobian"),
        }
    }

    /// An installation needs at least one flash operation.
    pub fn check(&self) -> (r: Result<(), MobianError>)
        ensures
            r is Err <==> self.flash_operations.len() == 0,
            r matches Err(e) ==> e == MobianError::NoFlashOperations,
    {
        if self.flash_operations.len() == 0 {
            Err(MobianError::NoFlashOperations)
        } else {
            Ok(())
        }
    }

    /// The latest image of the listing for this chipset and interface (the
    /// one with the greatest date), and its URL.
    pub fn discover_latest_image(&self, html: &str) -> (r: Result<(String, String), MobianError>)
        ensures
            match r {
                Ok((name, url)) => {
                    let prefix = image_prefix(self.chipset@, self.interface@);
                    exists|d: Seq<char>|
                        is_greatest(image_dates(line_hrefs(lines_spec(html@)), prefix), d) && name@ == prefix + d
                            + ".tar.xz"@ && url@ == self.base_url@ + name@
                },
                Err(e) => e == MobianError::NoImage && image_dates(
                    line_hrefs(lines_spec(html@)),
                    image_prefix(self.chipset@, self.interface@),
                ).len() == 0,
            },
    {
        let hs = quoted_hrefs(html);
        let ghost hv = seqs_of(hs@);
        let pre = chars_of("mobian-");
        let c = chars_of(self.chipset.as_str());
        let dash = chars_of("-");
        let it = chars_of(self.interface.as_str());
        let p1 = crate::text::concat(&pre, &c);
        let p2 = crate::text::concat(&p1, &dash);
        let p3 = crate::text::concat(&p2, &it);
        let prefix = crate::text::concat(&p3, &dash);
        let ghost pv = image_prefix(self.chipset@, self.interface@);
        assert(prefix@ =~= pv);
        let sfx = chars_of(".tar.xz");
        proof {
            reveal_strlit(".tar.xz");
        }
        let mut dates: Vec<Vec<char>> = Vec::new();
        for i in 0..hs.len()
            invariant
                hv == seqs_of(hs@),
                prefix@ == pv,
                sfx@ == ".tar.xz"@,
                sfx@.len() == 7,
                seqs_of(dates@) == image_dates(hv.take(i as int), pv),
        {
            assert(hv.take(i + 1).drop_last() =~= hv.take(i as int));
            assert(hv.take(i + 1).last() == hs@[i as int]@);
            let ghost before = seqs_of(dates@);
            let h = &hs[i];
            let mut found = false;
            if starts_with(h, &prefix) && ends_with(h, &sfx) {
                let after = slice_of(h, prefix.len(), h.len());
                assert(after@ =~= h@.skip(prefix@.len() as int));
                if ends_with(&after, &sfx) {
                    let date = slice_of(&after, 0, after.len() - 7);
                    assert(date@ =~= after@.take(after@.len() - 7));
                    if date.len() == 8 && digits(&date) {
                        dates.push(date);
                        found = true;
                        assert(seqs_of(dates@) =~= before.push(image_date(h@, pv)->0));
                    }
                }
            }
            if !found {
                assert(seqs_of(dates@) =~= before);
            }
        }
        assert(hv.take(hs.len() as int) =~= hv);
        match greatest(&dates) {
            Some(k) => {
                let name_v = crate::text::concat(&crate::text::concat(&prefix, &dates[k]), &sfx);
                let name = string_of(&name_v);
                let url = cat(self.base_url.as_str(), name.as_str());
                Ok((name, url))
            },
            None => Err(MobianError::NoImage),
        }
    }

    /// The URL of the checksums of an image: `{base_url}{name}.sha256sums`.
    pub fn checksums_url(&self, tar_name: &str) -> (r: String)
        ensures
            r@ == self.base_url@ + tar_name@ + ".sha256sums"@,
    {
        cat3(self.base_url.as_str(), tar_name, ".sha256sums")
    }

    /// The directory the image is unpacked into.
    pub fn extract_dir(&self) -> (r: String)
        ensures
            r@ == join_spec(self.download_dir@, "extracted"@),
    {
        join_path(self.download_dir.as_str(), "extracted")
    }

    /// The pattern of the boot image: `*.boot-{device_model}.img`.
    pub fn boot_pattern(&self) -> (r: String)
        ensures
            r@ == "*.boot-"@ + self.device_model@ + ".img"@,
    {
        cat3("*.boot-", self.device_model.as_str(), ".img")
    }

    /// The unpacked file matching a pattern like `*.rootfs.img`: the first of
    /// `files` (path and file name, as the directory walk found them) whose
    /// name ends with the pattern without its leading `*`s.
    pub fn find_extracted_file(files: &Vec<(String, String)>, pattern: &str) -> (r: Result<String, MobianError>)
        ensures
            match r {
                Ok(p) => first_matching(files_view(files@), strip_stars(pattern@)) == Some(p@),
                Err(e) => first_matching(files_view(files@), strip_stars(pattern@)) is None && (e matches MobianError::NoFileMatching(
                    p,
                ) && p@ == pattern@),
            },
    {
        let pv = chars_of(pattern);
        let suffix = strip_stars_exec(&pv);
        let ghost fv = files_view(files@);
        let mut i: usize = 0;
        assert(fv.skip(0) =~= fv);
        while i < files.len()
            invariant
                i <= files.len(),
                fv == files_view(files@),
                suffix@ == strip_stars(pattern@),
                first_matching(fv, suffix@) == first_matching(fv.skip(i as int), suffix@),
            decreases files.len() - i,
        {
            assert(fv.skip(i as int)[0] == fv[i as int]);
            assert(fv.skip(i as int).drop_first() =~= fv.skip(i + 1));
            let name = chars_of(files[i].1.as_str());
            if ends_with(&name, &suffix) {
                return Ok(owned(files[i].0.as_str()));
            }
            i = i + 1;
        }
        assert(fv.skip(i as int) =~= Seq::<(Seq<char>, Seq<char>)>::empty());
        Err(MobianError::NoFileMatching(owned(pattern)))
    }

    /// Resolve a source name like `boot` or `rootfs` to an actual file path.
    pub fn resolve_source(&self, source: &str, boot_img: &str, rootfs_img: &str) -> (r: String)
        ensures
            r@ == resolve_source_spec(source@, boot_img@, rootfs_img@),
    {
        crate::flashing::operations::resolve_source(source, boot_img, rootfs_img)
    }

    /// The first steps of the installation: download, verify (with a listed
    /// checksum) and unpack the image.
    pub fn prepare_plan(&self, tar_name: &str, tar_url: &str, expected_hash: Option<&str>) -> (r: Vec<Action>)
        ensures
            actions_view(r@) == mobian_prepare_spec(
                self.download_dir@,
                tar_name@,
                tar_url@,
                match expected_hash {
                    Some(h) => Some(h@),
                    None => None,
                },
            ),
    {
        let downloader = ImageDownloader::new(self.download_dir.as_str());
        let mut plan: Vec<Action> = Vec::new();
        plan.push(status("Downloading Mobian image..."));
        plan.push(download(tar_url, tar_name, expected_hash, "Mobian image", "Failed to download Mobian tar.xz"));
        let path = match downloader.safe_dest(tar_name) {
            Ok(p) => p,
            Err(_) => {
                return plan;
            },
        };
        let ghost dl = actions_view(plan@);
        match expected_hash {
            Some(h) => {
                plan.push(verifying(0, 1, tar_name));
                let m = cat("Checksum mismatch for ", tar_name);
                plan.push(verify(path.as_str(), h, m.as_str()));
                plan.push(verifying(1, 1, tar_name));
            },
            None => {},
        }
        let ghost checked = actions_view(plan@);
        plan.push(status("Extracting image..."));
        let dir = self.extract_dir();
        plan.push(extract_tar_xz(path.as_str(), dir.as_str()));
        assert(actions_view(plan@) =~= mobian_prepare_spec(
            self.download_dir@,
            tar_name@,
            tar_url@,
            match expected_hash {
                Some(h) => Some(h@),
                None => None,
            },
        ));
        plan
    }

    /// The rest of the installation once the boot and rootfs images are
    /// found among the unpacked files.
    pub fn flash_plan(&self, adb: &Adb, fastboot: &Fastboot, boot_img: &str, rootfs_img: &str) -> (r: Vec<Action>)
        ensures
            actions_view(r@) == fastboot_tail_spec(
                adb.binary_path(),
                fastboot.binary_path(),
                self.serial@,
                self.flash_operations@,
                boot_img@,
                rootfs_img@,
            ),
    {
        let mut plan: Vec<Action> = Vec::new();
        push_fastboot_tail(&mut plan, adb, fastboot, self.serial.as_str(), &self.flash_operations, boot_img, rootfs_img);
        assert(actions_view(plan@) =~= fastboot_tail_spec(
            adb.binary_path(),
            fastboot.binary_path(),
            self.serial@,
            self.flash_operations@,
            boot_img@,
            rootfs_img@,
        ));
        plan
    }
}

fn digits(v: &Vec<char>) -> (r: bool)
    ensures
        r == all_digits(v@),
{
    for i in 0..v.len()
        invariant
            forall|j: int| 0 <= j < i ==> is_ascii_digit(#[trigger] v@[j]),
    {
        if !ascii_digit(v[i]) {
            return false;
        }
    }
    true
}

} // verus!
