use vstd::prelude::*;
use crate::flashing::downloader::{ImageDownloader, plain_component};
use crate::flashing::decompressor::{Decompressor, stem_spec};
use crate::flashing::listing::{greatest, is_greatest, line_hrefs, quoted_hrefs};
use crate::flashing::operations::{
    lemma_operations_in_order, operation_at, operations_steps, push_all_operations, resolve_source_spec,
};
use crate::flashing::progress::{
    Action, ActionView, InstallProgress, ProgressView, actions_view, decompress, download, report, run_plain, status,
    status_view, try_run, verify, verifying, verifying_view,
};
use crate::hardware::adb::Adb;
use crate::hardware::command::{command_view, owned};
use crate::hardware::fastboot::Fastboot;
use crate::models::installer::FlashOperation;
use crate::paths::{join_path, join_spec};
use crate::text::{
    all_digits, ascii_digit, ascii_hexdigit, cat, cat3, chars_of, contains, contains_spec, ends_with, ends_with_spec,
    find, find_spec, is_ascii_digit, is_ascii_hexdigit, lemma_find_from, lines, lines_spec, occurs_at, seqs_of, slice_of,
    string_of, trim, trim_spec, words, words_spec,
};

verus! {

broadcast use vstd::string::group_string_axioms;

/// Orchestrates postmarketOS installation: find the latest build, download
/// the boot and rootfs images, verify and decompress them, then run the
/// device's flash operations in fastboot mode and reboot.
#[derive(Debug)]
pub struct PostmarketosInstaller {
    pub serial: String,
    pub base_url: String,
    pub channel: String,
    pub interface: String,
    pub device: String,
    pub flash_operations: Vec<FlashOperation>,
    pub download_dir: String,
}

/// Why a postmarketOS installation cannot go on.
#[derive(Debug, Clone, PartialEq, Eq)]
pub enum PmosError {
    /// The device config lists no flash operations.
    NoFlashOperations,
    /// The listing holds no build directory.
    NoBuilds,
    /// The build directory holds no boot image.
    NoBootImage,
    /// The build directory holds no rootfs image.
    NoRootfsImage,
    /// No SHA-256 hash is listed for this file.
    NoHash(String),
}

/// The build directory an `href` names: `YYYYMMDD-HHMM/`, without the `/`.
pub open spec fn build_dir_of(h: Seq<char>) -> Option<Seq<char>> {
    if h.len() == 14 && h[13] == '/' && all_digits(h.take(8)) && h[8] == '-' && all_digits(h.subrange(9, 13)) {
        Some(h.take(13))
    } else {
        None
    }
}

/// The build directories among `hs`, in order.
pub open spec fn build_dirs(hs: Seq<Seq<char>>) -> Seq<Seq<char>>
    decreases hs.len(),
{
    if hs.len() == 0 {
        seq![]
    } else {
        match build_dir_of(hs.last()) {
            Some(d) => build_dirs(hs.drop_last()).push(d),
            None => build_dirs(hs.drop_last()),
        }
    }
}

pub open spec fn is_image(h: Seq<char>) -> bool {
    ends_with_spec(h, ".img.xz"@) && !ends_with_spec(h, ".sha256"@) && !ends_with_spec(h, ".sha512"@)
}

pub open spec fn is_boot_image(h: Seq<char>) -> bool {
    is_image(h) && contains_spec(h, "-boot.img.xz"@)
}

pub open spec fn is_rootfs_image(h: Seq<char>) -> bool {
    is_image(h) && !contains_spec(h, "-boot.img.xz"@)
}

/// The last boot image (`boot`) or other image (`!boot`) of `hs`.
pub open spec fn last_image(hs: Seq<Seq<char>>, boot: bool) -> Option<Seq<char>>
    decreases hs.len(),
{
    if hs.len() == 0 {
        None
    } else if (boot && is_boot_image(hs.last())) || (!boot && is_rootfs_image(hs.last())) {
        Some(hs.last())
    } else {
        last_image(hs.drop_last(), boot)
    }
}

/// The text before the first `<` (all of it when there is none).
pub open spec fn before_lt(s: Seq<char>) -> Seq<char> {
    match find_spec(s, "<"@) {
        Some(i) => s.take(i),
        None => s,
    }
}

pub open spec fn all_hex(s: Seq<char>) -> bool {
    forall|i: int| 0 <= i < s.len() ==> is_ascii_hexdigit(#[trigger] s[i])
}

/// The hash a listing line gives after `sha256</a>:`: its first word, up to
/// any `<`, when that is 64 hex digits.
pub open spec fn hash_in_line(l: Seq<char>) -> Option<Seq<char>> {
    match find_spec(l, "sha256</a>:"@) {
        Some(p) => {
            let w = words_spec(trim_spec(l.skip(p + 11)));
            let first = if w.len() > 0 {
                w[0]
            } else {
                seq![]
            };
            let h = before_lt(first);
            if h.len() == 64 && all_hex(h) {
                Some(h)
            } else {
                None
            }
        },
        None => None,
    }
}

/// The hash of the first of `ls` that gives one.
pub open spec fn first_hash(ls: Seq<Seq<char>>) -> Option<Seq<char>>
    decreases ls.len(),
{
    if ls.len() == 0 {
        None
    } else if hash_in_line(ls[0]) is Some {
        hash_in_line(ls[0])
    } else {
        first_hash(ls.drop_first())
    }
}

/// The lines `i`, `i + 1` and `i + 2` (those that exist).
pub open spec fn window(ls: Seq<Seq<char>>, i: int) -> Seq<Seq<char>> {
    ls.subrange(i, if i + 3 < ls.len() {
        i + 3
    } else {
        ls.len() as int
    })
}

/// The hash of `file`: from the first line at or after `i` that mentions
/// `file.sha256` and is followed, within three lines, by one that gives a
/// hash.
pub open spec fn sha256_from(ls: Seq<Seq<char>>, file: Seq<char>, i: int) -> Option<Seq<char>>
    decreases ls.len() - i,
{
    if i < 0 || i >= ls.len() {
        None
    } else if contains_spec(ls[i], file + ".sha256"@) && first_hash(window(ls, i)) is Some {
        first_hash(window(ls, i))
    } else {
        sha256_from(ls, file, i + 1)
    }
}

pub open spec fn sha256_spec(html: Seq<char>, file: Seq<char>) -> Option<Seq<char>> {
    sha256_from(lines_spec(html), file, 0)
}

fn before_lt_exec(s: &Vec<char>) -> (r: Vec<char>)
    ensures
        r@ == before_lt(s@),
{
    let lt = chars_of("<");
    proof {
        reveal_strlit("<");
        lemma_find_from(s@, lt@, 0);
    }
    match find(s, &lt) {
        Some(i) => {
            assert(occurs_at(s@, lt@, i as int));
            let r = slice_of(s, 0, i);
            assert(r@ =~= s@.take(i as int));
            r
        },
        None => s.clone(),
    }
}

fn hex64(h: &Vec<char>) -> (r: bool)
    ensures
        r == (h@.len() == 64 && all_hex(h@)),
{
    if h.len() != 64 {
        return false;
    }
    for i in 0..h.len()
        invariant
            forall|j: int| 0 <= j < i ==> is_ascii_hexdigit(#[trigger] h@[j]),
    {
        if !ascii_hexdigit(h[i]) {
            return false;
        }
    }
    true
}

fn hash_in_line_exec(l: &Vec<char>) -> (r: Option<Vec<char>>)
    ensures
        match r {
            Some(h) => hash_in_line(l@) == Some(h@),
            None => hash_in_line(l@) is None,
        },
{
    let pat = chars_of("sha256</a>:");
    proof {
        reveal_strlit("sha256</a>:");
        lemma_find_from(l@, pat@, 0);
    }
    assert(pat@.len() == 11);
    match find(l, &pat) {
        Some(p) => {
            assert(occurs_at(l@, pat@, p as int));
            assert(p + 11 <= l.len());
            let after = slice_of(l, p + 11, l.len());
            assert(after@ =~= l@.skip(p + 11));
            let t = trim(&after);
            let w = words(&t);
            let first = if w.len() > 0 {
                assert(seqs_of(w@)[0] == w@[0]@);
                w[0].clone()
            } else {
                Vec::new()
            };
            let h = before_lt_exec(&first);
            if hex64(&h) {
                Some(h)
            } else {
                None
            }
        },
        None => None,
    }
}

fn first_hash_exec(ls: &Vec<Vec<char>>, a: usize, b: usize) -> (r: Option<Vec<char>>)
    requires
        a <= b <= ls.len(),
    ensures
        match r {
            Some(h) => first_hash(seqs_of(ls@).subrange(a as int, b as int)) == Some(h@),
            None => first_hash(seqs_of(ls@).subrange(a as int, b as int)) is None,
        },
    decreases b - a,
{
    if a == b {
        return None;
    }
    let ghost w = seqs_of(ls@).subrange(a as int, b as int);
    assert(w[0] == ls@[a as int]@);
    assert(w.drop_first() =~= seqs_of(ls@).subrange(a + 1, b as int));
    match hash_in_line_exec(&ls[a]) {
        Some(h) => Some(h),
        None => first_hash_exec(ls, a + 1, b),
    }
}

impl PostmarketosInstaller {
    pub fn new(
        serial: String,
        base_url: String,
        channel: String,
        interface: String,
        device: String,
        flash_operations: Vec<FlashOperation>,
        base_download_dir: &str,
    ) -> (r: Self)
        ensures
            r.serial == serial,
            r.base_url == base_url,
            r.channel == channel,
            r.interface == interface,
            r.device == device,
            r.flash_operations == flash_operations,
            r.download_dir@ == join_spec(base_download_dir@, "postmarketos"@),
    {
        PostmarketosInstaller {
            serial,
            base_url,
            channel,
            interface,
            device,
            flash_operations,
            download_dir: join_path(base_download_dir, "postmarketos"),
        }
    }

    /// An installation needs at least one flash operation.
    pub fn check(&self) -> (r: Result<(), PmosError>)
        ensures
            r is Err <==> self.flash_operations.len() == 0,
            r matches Err(e) ==> e == PmosError::NoFlashOperations,
    {
        if self.flash_operations.len() == 0 {
            Err(PmosError::NoFlashOperations)
        } else {
            Ok(())
        }
    }

    /// The listing of builds: `{base_url}{channel}/{device}/{interface}/`.
    pub fn listing_url(&self) -> (r: String)
        ensures
            r@ == self.base_url@ + self.channel@ + "/"@ + self.device@ + "/"@ + self.interface@ + "/"@,
    {
        let mut r = owned(self.base_url.as_str());
        r.append(self.channel.as_str());
        r.append("/");
        r.append(self.device.as_str());
        r.append("/");
        r.append(self.interface.as_str());
        r.append("/");
        r
    }

    /// The latest build directory of a listing: the greatest `YYYYMMDD-HHMM`
    /// directory linked from it.
    pub fn discover_latest_build(&self, html: &str) -> (r: Result<String, PmosError>)
        ensures
            match r {
                Ok(d) => is_greatest(build_dirs(line_hrefs(lines_spec(html@))), d@),
                Err(e) => e == PmosError::NoBuilds && build_dirs(line_hrefs(lines_spec(html@))).len() == 0,
            },
    {
        let hs = quoted_hrefs(html);
        let ghost hv = seqs_of(hs@);
        let mut dirs: Vec<Vec<char>> = Vec::new();
        for i in 0..hs.len()
            invariant
                hv == seqs_of(hs@),
                seqs_of(dirs@) == build_dirs(hv.take(i as int)),
        {
            assert(hv.take(i + 1).drop_last() =~= hv.take(i as int));
            assert(hv.take(i + 1).last() == hs@[i as int]@);
            let ghost before = seqs_of(dirs@);
            let h = &hs[i];
            if h.len() == 14 && h[13] == '/' && h[8] == '-' && digits_in(h, 0, 8) && digits_in(h, 9, 13) {
                let d = slice_of(h, 0, 13);
                assert(d@ =~= h@.take(13));
                assert(h@.take(8) =~= h@.subrange(0, 8));
                dirs.push(d);
                assert(seqs_of(dirs@) =~= before.push(h@.take(13)));
            } else {
                proof {
                    if h@.len() == 14 && h@[13] == '/' && h@[8] == '-' {
                        assert(h@.take(8) =~= h@.subrange(0, 8));
                    }
                }
                assert(seqs_of(dirs@) =~= before);
            }
        }
        assert(hv.take(hs.len() as int) =~= hv);
        match greatest(&dirs) {
            Some(i) => Ok(string_of(&dirs[i])),
            None => Err(PmosError::NoBuilds),
        }
    }

    /// The URL of a build directory of the listing.
    pub fn build_url(listing_url: &str, build_dir: &str) -> (r: String)
        ensures
            r@ == listing_url@ + build_dir@ + "/"@,
    {
        cat3(listing_url, build_dir, "/")
    }

    /// The boot and rootfs images of a build directory listing, with their
    /// hashes: the last linked `.img.xz` that is (or is not) a
    /// `-boot.img.xz`, each with the hash listed after its `.sha256` link.
    pub fn discover_images(&self, html: &str) -> (r: Result<(String, String, String, String), PmosError>)
        ensures
            match r {
                Ok((b, bh, rf, rh)) => {
                    &&& last_image(line_hrefs(lines_spec(html@)), true) == Some(b@)
                    &&& last_image(line_hrefs(lines_spec(html@)), false) == Some(rf@)
                    &&& sha256_spec(html@, b@) == Some(bh@)
                    &&& sha256_spec(html@, rf@) == Some(rh@)
                },
                Err(PmosError::NoBootImage) => last_image(line_hrefs(lines_spec(html@)), true) is None,
                Err(PmosError::NoRootfsImage) => last_image(line_hrefs(lines_spec(html@)), true) is Some
                    && last_image(line_hrefs(lines_spec(html@)), false) is None,
                Err(PmosError::NoHash(f)) => {
                    &&& last_image(line_hrefs(lines_spec(html@)), true) is Some
                    &&& last_image(line_hrefs(lines_spec(html@)), false) is Some
                    &&& ((f@ == last_image(line_hrefs(lines_spec(html@)), true)->0 && sha256_spec(html@, f@) is None)
                        || (f@ == last_image(line_hrefs(lines_spec(html@)), false)->0
                        && sha256_spec(html@, last_image(line_hrefs(lines_spec(html@)), true)->0) is Some
                        && sha256_spec(html@, f@) is None))
                },
                Err(_) => false,
            },
    {
        let hs = quoted_hrefs(html);
        let ghost hv = seqs_of(hs@);
        let suffix = chars_of(".img.xz");
        let s256 = chars_of(".sha256");
        let s512 = chars_of(".sha512");
        let bootpat = chars_of("-boot.img.xz");
        let mut boot: Option<Vec<char>> = None;
        let mut rootfs: Option<Vec<char>> = None;
        for i in 0..hs.len()
            invariant
                hv == seqs_of(hs@),
                suffix@ == ".img.xz"@,
                s256@ == ".sha256"@,
                s512@ == ".sha512"@,
                bootpat@ == "-boot.img.xz"@,
                match boot {
                    Some(b) => last_image(hv.take(i as int), true) == Some(b@),
                    None => last_image(hv.take(i as int), true) is None,
                },
                match rootfs {
                    Some(b) => last_image(hv.take(i as int), false) == Some(b@),
                    None => last_image(hv.take(i as int), false) is None,
                },
        {
            assert(hv.take(i + 1).drop_last() =~= hv.take(i as int));
            assert(hv.take(i + 1).last() == hs@[i as int]@);
            let h = &hs[i];
            if ends_with(h, &suffix) && !ends_with(h, &s256) && !ends_with(h, &s512) {
                if contains(h, &bootpat) {
                    boot = Some(h.clone());
                } else {
                    rootfs = Some(h.clone());
                }
            }
        }
        assert(hv.take(hs.len() as int) =~= hv);
        let b = match boot {
            Some(b) => string_of(&b),
            None => {
                return Err(PmosError::NoBootImage);
            },
        };
        let rf = match rootfs {
            Some(x) => string_of(&x),
            None => {
                return Err(PmosError::NoRootfsImage);
            },
        };
        let bh = match Self::extract_sha256(html, b.as_str()) {
            Ok(h) => h,
            Err(e) => {
                return Err(e);
            },
        };
        let rh = match Self::extract_sha256(html, rf.as_str()) {
            Ok(h) => h,
            Err(e) => {
                return Err(e);
            },
        };
        Ok((b, bh, rf, rh))
    }

    /// The SHA-256 hash listed for `filename`: on the first line that
    /// mentions `filename.sha256` and has, within it and the next two lines,
    /// one that gives 64 hex digits after `sha256</a>:`.
    pub fn extract_sha256(html: &str, filename: &str) -> (r: Result<String, PmosError>)
        ensures
            match r {
                Ok(h) => sha256_spec(html@, filename@) == Some(h@),
                Err(e) => sha256_spec(html@, filename@) is None && (e matches PmosError::NoHash(f) && f@ == filename@),
            },
    {
        let v = chars_of(html);
        let ls = lines(&v);
        let ghost all = lines_spec(html@);
        let name = chars_of(filename);
        let ext = chars_of(".sha256");
        let pat = crate::text::concat(&name, &ext);
        let mut i: usize = 0;
        while i < ls.len()
            invariant
                i <= ls.len(),
                all == lines_spec(html@),
                seqs_of(ls@) == all,
                pat@ == filename@ + ".sha256"@,
                sha256_spec(html@, filename@) == sha256_from(all, filename@, i as int),
            decreases ls.len() - i,
        {
            let end = if ls.len() - i > 3 {
                i + 3
            } else {
                ls.len()
            };
            assert(seqs_of(ls@)[i as int] == ls@[i as int]@);
            if contains(&ls[i], &pat) {
                match first_hash_exec(&ls, i, end) {
                    Some(h) => {
                        return Ok(string_of(&h));
                    },
                    None => {},
                }
            }
            i = i + 1;
        }
        Err(PmosError::NoHash(owned(filename)))
    }

    /// Resolve a source name like `boot` or `rootfs` to an actual file path.
    pub fn resolve_source(&self, source: &str, boot_img: &str, rootfs_img: &str) -> (r: String)
        ensures
            r@ == resolve_source_spec(source@, boot_img@, rootfs_img@),
    {
        crate::flashing::operations::resolve_source(source, boot_img, rootfs_img)
    }
}

fn digits_in(h: &Vec<char>, a: usize, b: usize) -> (r: bool)
    requires
        a <= b <= h.len(),
    ensures
        r == all_digits(h@.subrange(a as int, b as int)),
{
    for i in a..b
        invariant
            a <= b <= h.len(),
            forall|j: int| a <= j < i ==> is_ascii_digit(#[trigger] h@[j]),
    {
        if !ascii_digit(h[i]) {
            assert(!is_ascii_digit(h@.subrange(a as int, b as int)[i - a]));
            return false;
        }
    }
    assert forall|j: int| 0 <= j < b - a implies is_ascii_digit(#[trigger] h@.subrange(a as int, b as int)[j]) by {
        assert(h@.subrange(a as int, b as int)[j] == h@[a + j]);
    }
    true
}


/// The steps of a postmarketOS installation once the build and its images
/// are known: download both images (stopping at a download whose file name
/// is refused), verify and decompress them, reboot to the bootloader (a
/// failure there is only logged: the device may be in fastboot already),
/// wait for fastboot, run each flash operation with `boot`/`rootfs` naming
/// the decompressed images, reboot, and report completion.
pub open spec fn pmos_plan_spec(
    inst: PostmarketosInstaller,
    adb: Seq<char>,
    fastboot: Seq<char>,
    build_url: Seq<char>,
    boot_name: Seq<char>,
    boot_hash: Seq<char>,
    rootfs_name: Seq<char>,
    rootfs_hash: Seq<char>,
) -> Seq<ActionView> {
    let serial = inst.serial@;
    let dir = inst.download_dir@;
    let dl_boot = seq![
        status_view("Downloading boot image..."@),
        ActionView::Download {
            url: build_url + boot_name,
            file_name: boot_name,
            sha256: Some(boot_hash),
            label: "Boot image"@,
            context: "Failed to download boot image"@,
        },
    ];
    let dl_rootfs = seq![
        status_view("Downloading rootfs image..."@),
        ActionView::Download {
            url: build_url + rootfs_name,
            file_name: rootfs_name,
            sha256: Some(rootfs_hash),
            label: "Rootfs image"@,
            context: "Failed to download rootfs image"@,
        },
    ];
    match plain_component(boot_name) {
        None => dl_boot,
        Some(b) => match plain_component(rootfs_name) {
            None => dl_boot + dl_rootfs,
            Some(r) => {
                let bp = join_spec(dir, b);
                let rp = join_spec(dir, r);
                let bi = join_spec(dir, stem_spec(b));
                let ri = join_spec(dir, stem_spec(r));
                dl_boot + dl_rootfs + seq![
                    verifying_view(0, 2, "Verifying boot image"@),
                    ActionView::Verify {
                        path: bp,
                        sha256: boot_hash,
                        mismatch: "Checksum mismatch for boot image "@ + boot_name,
                    },
                    verifying_view(1, 2, "Verifying rootfs image"@),
                    ActionView::Verify {
                        path: rp,
                        sha256: rootfs_hash,
                        mismatch: "Checksum mismatch for rootfs image "@ + rootfs_name,
                    },
                    verifying_view(2, 2, "All checksums verified"@),
                    status_view("Decompressing boot image..."@),
                    ActionView::DecompressXz { path: bp, context: "Failed to decompress boot image"@ },
                    status_view("Decompressing rootfs image (this may take a while)..."@),
                    ActionView::DecompressXz { path: rp, context: "Failed to decompress rootfs image"@ },
                    status_view("Rebooting to bootloader..."@),
                    ActionView::Run {
                        command: command_view(adb, seq!["-s"@, serial, "reboot"@, "bootloader"@]),
                        context: None,
                        tolerant: true,
                    },
                    status_view("Waiting for device in fastboot mode..."@),
                    ActionView::WaitForFastboot,
                ] + operations_steps(fastboot, serial, inst.flash_operations@, inst.flash_operations@.len() as int, bi, ri)
                    + seq![
                    status_view("Rebooting device..."@),
                    ActionView::Run {
                        command: command_view(fastboot, seq!["-s"@, serial, "reboot"@]),
                        context: None,
                        tolerant: false,
                    },
                    ActionView::Report(ProgressView::Complete),
                ]
            },
        },
    }
}

impl PostmarketosInstaller {
    /// The steps of the installation, once the build URL and its images and
    /// hashes are known.
    pub fn plan(
        &self,
        adb: &Adb,
        fastboot: &Fastboot,
        build_url: &str,
        boot_name: &str,
        boot_hash: &str,
        rootfs_name: &str,
        rootfs_hash: &str,
    ) -> (r: Vec<Action>)
        ensures
            actions_view(r@) == pmos_plan_spec(
                *self,
                adb.binary_path(),
                fastboot.binary_path(),
                build_url@,
                boot_name@,
                boot_hash@,
                rootfs_name@,
                rootfs_hash@,
            ),
    {
        let downloader = ImageDownloader::new(self.download_dir.as_str());
        let serial = self.serial.as_str();
        let mut plan: Vec<Action> = Vec::new();
        plan.push(status("Downloading boot image..."));
        let boot_url = cat(build_url, boot_name);
        plan.push(download(boot_url.as_str(), boot_name, Some(boot_hash), "Boot image", "Failed to download boot image"));
        let boot_path = match downloader.safe_dest(boot_name) {
            Ok(p) => p,
            Err(_) => {
                assert(actions_view(plan@) =~= pmos_plan_spec(*self, adb.binary_path(), fastboot.binary_path(), build_url@, boot_name@, boot_hash@, rootfs_name@, rootfs_hash@));
                return plan;
            },
        };
        plan.push(status("Downloading rootfs image..."));
        let rootfs_url = cat(build_url, rootfs_name);
        plan.push(
            download(rootfs_url.as_str(), rootfs_name, Some(rootfs_hash), "Rootfs image", "Failed to download rootfs image"),
        );
        let rootfs_path = match downloader.safe_dest(rootfs_name) {
            Ok(p) => p,
            Err(_) => {
                assert(actions_view(plan@) =~= pmos_plan_spec(*self, adb.binary_path(), fastboot.binary_path(), build_url@, boot_name@, boot_hash@, rootfs_name@, rootfs_hash@));
                return plan;
            },
        };
        let ghost b = plain_component(boot_name@)->0;
        let ghost rn = plain_component(rootfs_name@)->0;
        let boot_stem = Decompressor::output_name(string_of(&plain_name_of(boot_name)).as_str());
        let boot_img = join_path(self.download_dir.as_str(), boot_stem.as_str());
        let rootfs_stem = Decompressor::output_name(string_of(&plain_name_of(rootfs_name)).as_str());
        let rootfs_img = join_path(self.download_dir.as_str(), rootfs_stem.as_str());
        plan.push(verifying(0, 2, "Verifying boot image"));
        let m1 = cat("Checksum mismatch for boot image ", boot_name);
        plan.push(verify(boot_path.as_str(), boot_hash, m1.as_str()));
        plan.push(verifying(1, 2, "Verifying rootfs image"));
        let m2 = cat("Checksum mismatch for rootfs image ", rootfs_name);
        plan.push(verify(rootfs_path.as_str(), rootfs_hash, m2.as_str()));
        plan.push(verifying(2, 2, "All checksums verified"));
        plan.push(status("Decompressing boot image..."));
        plan.push(decompress(boot_path.as_str(), "Failed to decompress boot image"));
        plan.push(status("Decompressing rootfs image (this may take a while)..."));
        plan.push(decompress(rootfs_path.as_str(), "Failed to decompress rootfs image"));
        plan.push(status("Rebooting to bootloader..."));
        plan.push(try_run(adb.reboot_bootloader(serial)));
        plan.push(status("Waiting for device in fastboot mode..."));
        plan.push(Action::WaitForFastboot);
        let ghost head = actions_view(plan@);
        push_all_operations(&mut plan, fastboot, serial, &self.flash_operations, boot_img.as_str(), rootfs_img.as_str());
        let ghost mid = actions_view(plan@);
        plan.push(status("Rebooting device..."));
        plan.push(run_plain(fastboot.reboot(serial)));
        plan.push(report(InstallProgress::Complete));
        assert(actions_view(plan@) =~= mid + seq![
            status_view("Rebooting device..."@),
            ActionView::Run {
                command: command_view(fastboot.binary_path(), seq!["-s"@, serial@, "reboot"@]),
                context: None,
                tolerant: false,
            },
            ActionView::Report(ProgressView::Complete),
        ]);
        assert(actions_view(plan@) =~= pmos_plan_spec(*self, adb.binary_path(), fastboot.binary_path(), build_url@, boot_name@, boot_hash@, rootfs_name@, rootfs_hash@));
        plan
    }
}

/// The single plain component a file name stands for (when there is one).
pub fn plain_name_of(name: &str) -> (r: Vec<char>)
    ensures
        plain_component(name@) matches Some(n) ==> r@ == n,
{
    let v = chars_of(name);
    let comps = crate::paths::path_components(&v);
    if comps.len() == 1 {
        assert(crate::paths::comp_views(comps@)[0] == comps@[0].view());
        match &comps[0] {
            crate::paths::Comp::Normal(n) => {
                return n.clone();
            },
            _ => {},
        }
    }
    v
}

/// postmarketOS flashes what it checked: when both image names are
/// accepted, each image is verified against its own hash at its download
/// path (steps 5 and 7), that same file is decompressed (steps 10 and 12),
/// and from step 17 on the flash operations run in order, operation `i` as
/// step `i + 1` of all, each on its own partition, with `boot` and `rootfs`
/// naming the decompressed boot and rootfs images.
pub proof fn lemma_pmos_flashes_checked_images(
    inst: PostmarketosInstaller,
    adb: Seq<char>,
    fastboot: Seq<char>,
    build_url: Seq<char>,
    boot_name: Seq<char>,
    boot_hash: Seq<char>,
    rootfs_name: Seq<char>,
    rootfs_hash: Seq<char>,
)
    requires
        plain_component(boot_name) is Some,
        plain_component(rootfs_name) is Some,
        inst.flash_operations@.len() <= usize::MAX,
    ensures
        ({
            let p = pmos_plan_spec(inst, adb, fastboot, build_url, boot_name, boot_hash, rootfs_name, rootfs_hash);
            let dir = inst.download_dir@;
            let b = plain_component(boot_name)->0;
            let r = plain_component(rootfs_name)->0;
            let ops = inst.flash_operations@;
            &&& p[5] matches ActionView::Verify { path, sha256, .. } && path == join_spec(dir, b) && sha256 == boot_hash
            &&& p[7] matches ActionView::Verify { path, sha256, .. } && path == join_spec(dir, r) && sha256 == rootfs_hash
            &&& p[10] matches ActionView::DecompressXz { path, .. } && path == join_spec(dir, b)
            &&& p[12] matches ActionView::DecompressXz { path, .. } && path == join_spec(dir, r)
            &&& p.len() == 17 + 2 * ops.len() + 3
            &&& forall|i: int|
                0 <= i < ops.len() ==> #[trigger] operation_at(
                    p.skip(17),
                    i,
                    fastboot,
                    inst.serial@,
                    ops,
                    join_spec(dir, stem_spec(b)),
                    join_spec(dir, stem_spec(r)),
                )
        }),
{
    let p = pmos_plan_spec(inst, adb, fastboot, build_url, boot_name, boot_hash, rootfs_name, rootfs_hash);
    let dir = inst.download_dir@;
    let b = plain_component(boot_name)->0;
    let r = plain_component(rootfs_name)->0;
    let ops = inst.flash_operations@;
    let bi = join_spec(dir, stem_spec(b));
    let ri = join_spec(dir, stem_spec(r));
    let n = ops.len() as int;
    lemma_operations_in_order(fastboot, inst.serial@, ops, n, bi, ri);
    let st = operations_steps(fastboot, inst.serial@, ops, n, bi, ri);
    assert forall|k: int| 0 <= k < 2 * n implies p.skip(17)[k] == st[k] by {
        assert(p[17 + k] == st[k]);
    }
    assert forall|i: int| 0 <= i < n implies #[trigger] operation_at(p.skip(17), i, fastboot, inst.serial@, ops, bi, ri) by {
        assert(operation_at(st, i, fastboot, inst.serial@, ops, bi, ri));
        assert(p.skip(17)[2 * i] == st[2 * i]);
        assert(p.skip(17)[2 * i + 1] == st[2 * i + 1]);
    }
}

} // verus!
