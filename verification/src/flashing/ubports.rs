use vstd::prelude::*;
use crate::flashing::progress::{
    run_command,
    Action, ActionView, InstallProgress, ProgressView, actions_view, flashing, flashing_view, prompt_view, report, run,
    run_plain, verify, verifying, verifying_view,
};
use crate::hardware::command::{CommandLine, command_view, owned};
use crate::hardware::fastboot::Fastboot;
use crate::hardware::heimdall::{Heimdall, HeimdallFlash, flash_args_spec, flash_pairs};
use crate::models::device::strings_view;
use crate::models::installer::{BootstrapStep, FirmwareImage, UbportsDownload};
use crate::paths::{join_path, join_spec};
use crate::text::{cat, cat3, chars_of, decimal, decimal_spec, ends_with, ends_with_spec, string_of, trim, trim_spec};

verus! {

broadcast use vstd::string::group_string_axioms;

/// The UBports system-image server.
pub open spec fn system_image_server() -> Seq<char> {
    "https://system-image.ubports.com"@
}

/// Orchestrates Ubuntu Touch installation: device firmware (a bootstrap
/// sequence, or a flat firmware list on older configs), then the system
/// image pushed to recovery with an `ubuntu_command` that installs it.
#[derive(Debug)]
pub struct UbportsInstaller {
    pub serial: String,
    pub channel_path: String,
    pub firmware: Vec<FirmwareImage>,
    pub downloads: Vec<UbportsDownload>,
    pub bootstrap: Vec<BootstrapStep>,
    pub download_dir: String,
}

/// A downloaded system-image file: where it is, its name on the device, and
/// its checksum (empty for a signature).
#[derive(Debug, Clone)]
pub struct SystemFile {
    pub local_path: String,
    pub remote_name: String,
    pub checksum: String,
}

/// Why a UBports installation cannot go on.
#[derive(Debug, Clone, PartialEq, Eq)]
pub enum UbportsError {
    /// Neither firmware nor a bootstrap sequence is configured.
    NoFirmware,
}

/// The progress label of a bootstrap step.
pub open spec fn bootstrap_label_spec(step: BootstrapStep) -> Seq<char> {
    match step {
        BootstrapStep::Flash { partition, .. } => "Flashing "@ + partition@ + "..."@,
        BootstrapStep::Format { partition, .. } => "Formatting "@ + partition@ + "..."@,
        BootstrapStep::Erase { partition } => "Erasing "@ + partition@ + "..."@,
        BootstrapStep::SetActive { slot } => "Setting active slot "@ + slot@ + "..."@,
        BootstrapStep::DeleteLogicalPartition { partition } => "Removing logical partition "@ + partition@ + "..."@,
        BootstrapStep::ResizeLogicalPartition { partition, .. } => "Resizing "@ + partition@ + "..."@,
        BootstrapStep::WipeSuper => "Wiping super partition..."@,
        BootstrapStep::RebootBootloader => "Rebooting to bootloader..."@,
        BootstrapStep::RebootFastboot => "Rebooting to fastbootd..."@,
        BootstrapStep::RebootRecovery => "Rebooting to recovery..."@,
        BootstrapStep::Reboot => "Rebooting..."@,
        BootstrapStep::Wait => "Waiting for device..."@,
        BootstrapStep::AssertVar { variable, .. } => "Checking "@ + variable@ + "..."@,
        BootstrapStep::UserAction { .. } => "Waiting for user..."@,
        BootstrapStep::HeimdallFlash { partition, .. } => "Flashing "@ + partition@ + " (Odin)..."@,
    }
}

/// Human-readable label for a bootstrap step, shown in the progress UI.
pub fn bootstrap_label(step: &BootstrapStep) -> (r: String)
    ensures
        r@ == bootstrap_label_spec(*step),
{
    match step {
        BootstrapStep::Flash { partition, .. } => cat3("Flashing ", partition.as_str(), "..."),
        BootstrapStep::Format { partition, .. } => cat3("Formatting ", partition.as_str(), "..."),
        BootstrapStep::Erase { partition } => cat3("Erasing ", partition.as_str(), "..."),
        BootstrapStep::SetActive { slot } => cat3("Setting active slot ", slot.as_str(), "..."),
        BootstrapStep::DeleteLogicalPartition { partition } => cat3("Removing logical partition ", partition.as_str(), "..."),
        BootstrapStep::ResizeLogicalPartition { partition, .. } => cat3("Resizing ", partition.as_str(), "..."),
        BootstrapStep::WipeSuper => owned("Wiping super partition..."),
        BootstrapStep::RebootBootloader => owned("Rebooting to bootloader..."),
        BootstrapStep::RebootFastboot => owned("Rebooting to fastbootd..."),
        BootstrapStep::RebootRecovery => owned("Rebooting to recovery..."),
        BootstrapStep::Reboot => owned("Rebooting..."),
        BootstrapStep::Wait => owned("Waiting for device..."),
        BootstrapStep::AssertVar { variable, .. } => cat3("Checking ", variable.as_str(), "..."),
        BootstrapStep::UserAction { .. } => owned("Waiting for user..."),
        BootstrapStep::HeimdallFlash { partition, .. } => cat3("Flashing ", partition.as_str(), " (Odin)..."),
    }
}

pub open spec fn plain_run(command: crate::hardware::command::CommandView) -> ActionView {
    ActionView::Run { command, context: None, tolerant: false }
}

/// What one bootstrap step does after its progress report.
pub open spec fn bootstrap_work_spec(
    fastboot: Seq<char>,
    heimdall: Seq<char>,
    serial: Seq<char>,
    dir: Seq<char>,
    step: BootstrapStep,
) -> Seq<ActionView> {
    match step {
        BootstrapStep::Flash { partition, file, flags } => {
            let path = join_spec(dir, file@);
            let args = if flags@.len() == 0 {
                seq!["-s"@, serial, "flash"@, partition@, path]
            } else {
                seq!["-s"@, serial, "flash"@, partition@] + strings_view(flags@) + seq![path]
            };
            seq![
                ActionView::Run {
                    command: command_view(fastboot, args),
                    context: Some("Failed to flash "@ + partition@),
                    tolerant: false,
                },
            ]
        },
        BootstrapStep::Format { partition, fs } => seq![
            plain_run(command_view(fastboot, seq!["-s"@, serial, "format:"@ + fs@, partition@])),
        ],
        BootstrapStep::Erase { partition } => seq![
            plain_run(command_view(fastboot, seq!["-s"@, serial, "erase"@, partition@])),
        ],
        BootstrapStep::SetActive { slot } => seq![
            plain_run(command_view(fastboot, seq!["-s"@, serial, "set_active"@, slot@])),
        ],
        BootstrapStep::DeleteLogicalPartition { partition } => seq![
            plain_run(command_view(fastboot, seq!["-s"@, serial, "delete-logical-partition"@, partition@])),
        ],
        BootstrapStep::ResizeLogicalPartition { partition, size } => seq![
            plain_run(
                command_view(
                    fastboot,
                    seq!["-s"@, serial, "resize-logical-partition"@, partition@, decimal_spec(size as nat)],
                ),
            ),
        ],
        BootstrapStep::WipeSuper => seq![plain_run(command_view(fastboot, seq!["-s"@, serial, "wipe-super"@]))],
        BootstrapStep::RebootBootloader => seq![
            plain_run(command_view(fastboot, seq!["-s"@, serial, "reboot"@, "bootloader"@])),
            ActionView::WaitForFastboot,
        ],
        BootstrapStep::RebootFastboot => seq![
            plain_run(command_view(fastboot, seq!["-s"@, serial, "reboot"@, "fastboot"@])),
            ActionView::WaitForFastboot,
        ],
        BootstrapStep::RebootRecovery => seq![
            plain_run(command_view(fastboot, seq!["-s"@, serial, "reboot"@, "recovery"@])),
        ],
        BootstrapStep::Reboot => seq![plain_run(command_view(fastboot, seq!["-s"@, serial, "reboot"@]))],
        BootstrapStep::Wait => seq![ActionView::WaitForFastboot],
        BootstrapStep::AssertVar { variable, value } => seq![
            ActionView::AssertVar {
                command: command_view(fastboot, seq!["-s"@, serial, "getvar"@, variable@]),
                variable: variable@,
                value: value@,
            },
        ],
        BootstrapStep::UserAction { message } => seq![prompt_view(message@)],
        BootstrapStep::HeimdallFlash { partition, file } => seq![
            plain_run(command_view(heimdall, seq!["flash"@, "--"@ + partition@, join_spec(dir, file@), "--no-reboot"@])),
        ],
    }
}

/// The steps of the first `n` bootstrap steps, each numbered out of all.
pub open spec fn bootstrap_spec(
    fastboot: Seq<char>,
    heimdall: Seq<char>,
    serial: Seq<char>,
    dir: Seq<char>,
    steps: Seq<BootstrapStep>,
    n: int,
) -> Seq<ActionView>
    decreases n,
{
    if n <= 0 {
        seq![]
    } else {
        bootstrap_spec(fastboot, heimdall, serial, dir, steps, n - 1) + seq![
            flashing_view(n as usize, steps.len() as usize, bootstrap_label_spec(steps[n - 1])),
        ] + bootstrap_work_spec(fastboot, heimdall, serial, dir, steps[n - 1])
    }
}

/// The plan of the first `i` steps begins the plan of the first `j`.
proof fn lemma_bootstrap_prefix(
    fastboot: Seq<char>,
    heimdall: Seq<char>,
    serial: Seq<char>,
    dir: Seq<char>,
    steps: Seq<BootstrapStep>,
    i: int,
    j: int,
)
    requires
        0 <= i <= j,
    ensures
        bootstrap_spec(fastboot, heimdall, serial, dir, steps, i).len() <= bootstrap_spec(
            fastboot,
            heimdall,
            serial,
            dir,
            steps,
            j,
        ).len(),
        bootstrap_spec(fastboot, heimdall, serial, dir, steps, j).subrange(
            0,
            bootstrap_spec(fastboot, heimdall, serial, dir, steps, i).len() as int,
        ) == bootstrap_spec(fastboot, heimdall, serial, dir, steps, i),
    decreases j,
{
    let bi = bootstrap_spec(fastboot, heimdall, serial, dir, steps, i);
    if j > i {
        lemma_bootstrap_prefix(fastboot, heimdall, serial, dir, steps, i, j - 1);
        let a = bootstrap_spec(fastboot, heimdall, serial, dir, steps, j - 1);
        let b = bootstrap_spec(fastboot, heimdall, serial, dir, steps, j);
        assert(b.subrange(0, a.len() as int) =~= a);
        assert(b.subrange(0, bi.len() as int) =~= a.subrange(0, bi.len() as int));
    } else {
        assert(bi.subrange(0, bi.len() as int) =~= bi);
    }
}

/// The bootstrap runs its steps in order, each announced before it runs: in
/// the plan of all `n` steps, step `i` begins where the plan of the first
/// `i` steps ends (at 0 for the first), with the flash progress `i + 1` of
/// `n` labelled by the step, then the step's own actions (a `fastboot
/// flash` of the file in the download directory, with the step's flags
/// between the partition and the path when it has any; or the command the
/// step names); the next step begins right after them.
pub proof fn lemma_bootstrap_in_order(
    fastboot: Seq<char>,
    heimdall: Seq<char>,
    serial: Seq<char>,
    dir: Seq<char>,
    steps: Seq<BootstrapStep>,
    i: int,
)
    requires
        0 <= i < steps.len(),
    ensures
        bootstrap_spec(fastboot, heimdall, serial, dir, steps, 0).len() == 0,
        ({
            let p = bootstrap_spec(fastboot, heimdall, serial, dir, steps, steps.len() as int);
            let o = bootstrap_spec(fastboot, heimdall, serial, dir, steps, i).len() as int;
            let w = bootstrap_work_spec(fastboot, heimdall, serial, dir, steps[i]);
            &&& o + 1 + w.len() <= p.len()
            &&& p[o] == flashing_view((i + 1) as usize, steps.len() as usize, bootstrap_label_spec(steps[i]))
            &&& p.subrange(o + 1, o + 1 + w.len()) == w
            &&& bootstrap_spec(fastboot, heimdall, serial, dir, steps, i + 1).len() == o + 1 + w.len()
        }),
{
    let n = steps.len() as int;
    lemma_bootstrap_prefix(fastboot, heimdall, serial, dir, steps, i + 1, n);
    let p = bootstrap_spec(fastboot, heimdall, serial, dir, steps, n);
    let a = bootstrap_spec(fastboot, heimdall, serial, dir, steps, i);
    let q = bootstrap_spec(fastboot, heimdall, serial, dir, steps, i + 1);
    let w = bootstrap_work_spec(fastboot, heimdall, serial, dir, steps[i]);
    let rep = flashing_view((i + 1) as usize, steps.len() as usize, bootstrap_label_spec(steps[i]));
    assert(q == a + seq![rep] + w);
    let o = a.len() as int;
    assert(p.subrange(0, q.len() as int) == q);
    assert(p[o] == q[o]);
    assert(p.subrange(o + 1, o + 1 + w.len()) =~= q.subrange(o + 1, o + 1 + w.len()));
    assert(q.subrange(o + 1, o + 1 + w.len()) =~= w);
}

/// Step `i` of the bootstrap as its plan shows it: the flash progress `i + 1`
/// of all, labelled by the step, then the step's own actions.
pub open spec fn bootstrap_block(
    fastboot: Seq<char>,
    heimdall: Seq<char>,
    serial: Seq<char>,
    dir: Seq<char>,
    steps: Seq<BootstrapStep>,
    i: int,
) -> Seq<ActionView> {
    seq![flashing_view((i + 1) as usize, steps.len() as usize, bootstrap_label_spec(steps[i]))]
        + bootstrap_work_spec(fastboot, heimdall, serial, dir, steps[i])
}

/// The bootstrap plan is its steps' blocks, one after the other, in order:
/// for each `i` below `n`, the progress `i + 1` of all, then step `i`'s
/// actions (a `fastboot flash` of the file in the download directory, with
/// the step's flags before the path when it has any, or the command the step
/// names).
pub proof fn lemma_bootstrap_blocks(
    fastboot: Seq<char>,
    heimdall: Seq<char>,
    serial: Seq<char>,
    dir: Seq<char>,
    steps: Seq<BootstrapStep>,
    n: int,
)
    requires
        0 <= n <= steps.len(),
    ensures
        bootstrap_spec(fastboot, heimdall, serial, dir, steps, n) == Seq::new(
            n as nat,
            |i: int| bootstrap_block(fastboot, heimdall, serial, dir, steps, i),
        ).flatten(),
    decreases n,
{
    let blocks = Seq::new(n as nat, |i: int| bootstrap_block(fastboot, heimdall, serial, dir, steps, i));
    if n == 0 {
        assert(blocks =~= Seq::<Seq<ActionView>>::empty());
    } else {
        lemma_bootstrap_blocks(fastboot, heimdall, serial, dir, steps, n - 1);
        let prev = Seq::new((n - 1) as nat, |i: int| bootstrap_block(fastboot, heimdall, serial, dir, steps, i));
        assert(blocks =~= prev.push(bootstrap_block(fastboot, heimdall, serial, dir, steps, n - 1)));
        prev.lemma_flatten_push(bootstrap_block(fastboot, heimdall, serial, dir, steps, n - 1));
        assert(bootstrap_spec(fastboot, heimdall, serial, dir, steps, n) =~= prev.flatten() + bootstrap_block(
            fastboot,
            heimdall,
            serial,
            dir,
            steps,
            n - 1,
        ));
    }
}

/// The checksum steps of the flat firmware list.
pub open spec fn firmware_checks_spec(dir: Seq<char>, fw: Seq<FirmwareImage>, n: int) -> Seq<ActionView>
    decreases n,
{
    if n <= 0 {
        seq![]
    } else {
        firmware_checks_spec(dir, fw, n - 1) + seq![
            verifying_view(n as usize, fw.len() as usize, fw[n - 1].filename@),
            ActionView::Verify {
                path: join_spec(dir, fw[n - 1].filename@),
                sha256: fw[n - 1].sha256@,
                mismatch: "Checksum mismatch for "@ + fw[n - 1].filename@ + " — expected "@ + fw[n - 1].sha256@,
            },
        ]
    }
}

/// The system files that carry a checksum, in order.
pub open spec fn checked_files(fs: Seq<SystemFile>) -> Seq<SystemFile>
    decreases fs.len(),
{
    if fs.len() == 0 {
        seq![]
    } else if fs.last().checksum@.len() > 0 {
        checked_files(fs.drop_last()).push(fs.last())
    } else {
        checked_files(fs.drop_last())
    }
}

/// The checksum steps of the system files (those with a checksum).
pub open spec fn system_checks_spec(cs: Seq<SystemFile>, n: int) -> Seq<ActionView>
    decreases n,
{
    if n <= 0 {
        seq![]
    } else {
        system_checks_spec(cs, n - 1) + seq![
            verifying_view(n as usize, cs.len() as usize, cs[n - 1].remote_name@),
            ActionView::Verify {
                path: cs[n - 1].local_path@,
                sha256: cs[n - 1].checksum@,
                mismatch: "Checksum mismatch for "@ + cs[n - 1].remote_name@,
            },
        ]
    }
}

/// The lines of `ubuntu_command`: format and load the keyrings, then update
/// each system `.tar.xz` file with its signature.
pub open spec fn update_lines(fs: Seq<SystemFile>) -> Seq<Seq<char>>
    decreases fs.len(),
{
    if fs.len() == 0 {
        seq![]
    } else if ends_with_spec(fs.last().remote_name@, ".tar.xz"@) {
        update_lines(fs.drop_last()).push(
            "update "@ + fs.last().remote_name@ + " "@ + fs.last().remote_name@ + ".asc"@,
        )
    } else {
        update_lines(fs.drop_last())
    }
}

pub open spec fn command_lines(fs: Seq<SystemFile>) -> Seq<Seq<char>> {
    seq![
        "format system"@,
        "load_keyring image-master.tar.xz image-master.tar.xz.asc"@,
        "load_keyring image-signing.tar.xz image-signing.tar.xz.asc"@,
        "mount system"@,
        "format data"@,
    ] + update_lines(fs) + seq!["unmount system"@]
}

/// A system file that recovery installs: a `.tar.xz` tarball.
pub open spec fn is_system_tarball(f: SystemFile) -> bool {
    ends_with_spec(f.remote_name@, ".tar.xz"@)
}

/// The recovery line that installs a tarball with its detached signature.
pub open spec fn install_line(f: SystemFile) -> Seq<char> {
    "update "@ + f.remote_name@ + " "@ + f.remote_name@ + ".asc"@
}

proof fn lemma_update_lines_filtered(fs: Seq<SystemFile>)
    ensures
        update_lines(fs) == fs.filter(|f: SystemFile| is_system_tarball(f)).map_values(|f: SystemFile| install_line(f)),
    decreases fs.len(),
{
    reveal(Seq::filter);
    let p = |f: SystemFile| is_system_tarball(f);
    let m = |f: SystemFile| install_line(f);
    if fs.len() == 0 {
        assert(fs.filter(p) =~= Seq::<SystemFile>::empty());
        assert(fs.filter(p).map_values(m) =~= Seq::<Seq<char>>::empty());
    } else {
        lemma_update_lines_filtered(fs.drop_last());
        let prev = fs.drop_last().filter(p);
        if p(fs.last()) {
            assert(fs.filter(p) == prev.push(fs.last()));
            assert(prev.push(fs.last()).map_values(m) =~= prev.map_values(m).push(m(fs.last())));
        } else {
            assert(fs.filter(p) == prev);
        }
    }
}

/// Every system tarball is installed, once, in order: the recovery script
/// formats, loads the keyrings, mounts and wipes, then has exactly one
/// `update F F.asc` line for each system file `F` whose name ends in
/// `.tar.xz`, in the order of the files, and unmounts. So it has as many
/// update lines as there are tarballs.
pub proof fn lemma_every_tarball_installed(fs: Seq<SystemFile>)
    ensures
        command_lines(fs) == seq![
            "format system"@,
            "load_keyring image-master.tar.xz image-master.tar.xz.asc"@,
            "load_keyring image-signing.tar.xz image-signing.tar.xz.asc"@,
            "mount system"@,
            "format data"@,
        ] + fs.filter(|f: SystemFile| is_system_tarball(f)).map_values(|f: SystemFile| install_line(f)) + seq![
            "unmount system"@,
        ],
        command_lines(fs).len() == 6 + fs.filter(|f: SystemFile| is_system_tarball(f)).len(),
{
    lemma_update_lines_filtered(fs);
}

/// `s` with each `'` written as `'\''` (inside a single-quoted shell word).
pub open spec fn quote_escape(s: Seq<char>) -> Seq<char>
    decreases s.len(),
{
    if s.len() == 0 {
        seq![]
    } else if s.last() == '\'' {
        quote_escape(s.drop_last()) + "'\\''"@
    } else {
        quote_escape(s.drop_last()).push(s.last())
    }
}

/// The GPG keyrings of a system-image install, relative to the server.
pub open spec fn gpg_keyrings() -> Seq<Seq<char>> {
    seq![
        "gpg/image-master.tar.xz"@,
        "gpg/image-master.tar.xz.asc"@,
        "gpg/image-signing.tar.xz"@,
        "gpg/image-signing.tar.xz.asc"@,
    ]
}

impl UbportsInstaller {
    pub fn new(
        serial: String,
        channel_path: String,
        firmware: Vec<FirmwareImage>,
        downloads: Vec<UbportsDownload>,
        bootstrap: Vec<BootstrapStep>,
        base_download_dir: &str,
    ) -> (r: Self)
        ensures
            r.serial == serial,
            r.channel_path == channel_path,
            r.firmware == firmware,
            r.downloads == downloads,
            r.bootstrap == bootstrap,
            r.download_dir@ == join_spec(base_download_dir@, "ubports"@),
    {
        UbportsInstaller {
            serial,
            channel_path,
            firmware,
            downloads,
            bootstrap,
            download_dir: join_path(base_download_dir, "ubports"),
        }
    }

    /// An installation needs a bootstrap sequence or firmware.
    pub fn check(&self) -> (r: Result<(), UbportsError>)
        ensures
            r is Err <==> (self.firmware.len() == 0 && self.bootstrap.len() == 0),
            r matches Err(e) ==> e == UbportsError::NoFirmware,
    {
        if self.firmware.len() == 0 && self.bootstrap.len() == 0 {
            Err(UbportsError::NoFirmware)
        } else {
            Ok(())
        }
    }

    /// Whether the device is set up by its bootstrap sequence (rather than by
    /// the flat firmware list).
    pub fn use_bootstrap(&self) -> (r: bool)
        ensures
            r == (self.bootstrap.len() > 0),
    {
        self.bootstrap.len() > 0
    }

    /// Whether the device flashes in Samsung download mode: its bootstrap
    /// holds a Heimdall flash.
    pub fn heimdall_boot(&self) -> (r: bool)
        ensures
            r == (self.bootstrap.len() > 0 && exists|i: int|
                0 <= i < self.bootstrap.len() && (#[trigger] self.bootstrap@[i]) is HeimdallFlash),
    {
        for i in 0..self.bootstrap.len()
            invariant
                forall|j: int| 0 <= j < i ==> !((#[trigger] self.bootstrap@[j]) is HeimdallFlash),
        {
            match &self.bootstrap[i] {
                BootstrapStep::HeimdallFlash { .. } => {
                    return true;
                },
                _ => {},
            }
        }
        false
    }

    /// Resolve a bootstrap file reference (a plain name or
    /// `unpacked/<path>`) to its path in the download directory.
    pub fn resolve_file(&self, file: &str) -> (r: String)
        ensures
            r@ == join_spec(self.download_dir@, file@),
    {
        join_path(self.download_dir.as_str(), file)
    }

    /// The URL of the channel's system-image index.
    pub fn index_url(&self) -> (r: String)
        ensures
            r@ == system_image_server() + "/"@ + self.channel_path@ + "/index.json"@,
    {
        let mut r = cat3("https://system-image.ubports.com", "/", self.channel_path.as_str());
        r.append("/index.json");
        r
    }

    /// The checksum steps of the flat firmware list: each file counted and
    /// checked; a mismatch names the expected hash.
    pub fn verify_firmware(&self) -> (r: Vec<Action>)
        ensures
            actions_view(r@) == firmware_checks_spec(self.download_dir@, self.firmware@, self.firmware@.len() as int),
    {
        let mut plan: Vec<Action> = Vec::new();
        let total = self.firmware.len();
        for i in 0..self.firmware.len()
            invariant
                total == self.firmware.len(),
                actions_view(plan@) == firmware_checks_spec(self.download_dir@, self.firmware@, i as int),
        {
            let fw = &self.firmware[i];
            let ghost before = actions_view(plan@);
            let path = join_path(self.download_dir.as_str(), fw.filename.as_str());
            let mut m = cat3("Checksum mismatch for ", fw.filename.as_str(), " — expected ");
            m.append(fw.sha256.as_str());
            plan.push(verifying(i + 1, total, fw.filename.as_str()));
            plan.push(verify(path.as_str(), fw.sha256.as_str(), m.as_str()));
            assert(actions_view(plan@) =~= firmware_checks_spec(self.download_dir@, self.firmware@, i + 1));
        }
        plan
    }

    /// The checksum steps of the downloaded system files that carry a
    /// checksum, counted out of those.
    pub fn verify_system_image(&self, system_files: &Vec<SystemFile>) -> (r: Vec<Action>)
        ensures
            actions_view(r@) == system_checks_spec(
                checked_files(system_files@),
                checked_files(system_files@).len() as int,
            ),
    {
        let mut checked: Vec<&SystemFile> = Vec::new();
        for i in 0..system_files.len()
            invariant
                checked@.map_values(|f: &SystemFile| *f) == checked_files(system_files@.take(i as int)),
        {
            assert(system_files@.take(i + 1).drop_last() =~= system_files@.take(i as int));
            let ghost before = checked@.map_values(|f: &SystemFile| *f);
            if chars_of(system_files[i].checksum.as_str()).len() > 0 {
                checked.push(&system_files[i]);
                assert(checked@.map_values(|f: &SystemFile| *f) =~= before.push(system_files@[i as int]));
            } else {
                assert(checked@.map_values(|f: &SystemFile| *f) =~= before);
            }
        }
        assert(system_files@.take(system_files.len() as int) =~= system_files@);
        let ghost cs = checked_files(system_files@);
        let total = checked.len();
        let mut plan: Vec<Action> = Vec::new();
        for i in 0..checked.len()
            invariant
                total == checked.len(),
                checked@.map_values(|f: &SystemFile| *f) == cs,
                actions_view(plan@) == system_checks_spec(cs, i as int),
        {
            let f = checked[i];
            assert(cs[i as int] == *f);
            let m = cat("Checksum mismatch for ", f.remote_name.as_str());
            plan.push(verifying(i + 1, total, f.remote_name.as_str()));
            plan.push(verify(f.local_path.as_str(), f.checksum.as_str(), m.as_str()));
            assert(actions_view(plan@) =~= system_checks_spec(cs, i + 1));
        }
        plan
    }

    /// The steps of the device bootstrap: each step's progress report, then
    /// its fastboot (or Heimdall) work.
    pub fn bootstrap_plan(&self, fastboot: &Fastboot, heimdall: &Heimdall) -> (r: Vec<Action>)
        ensures
            actions_view(r@) == bootstrap_spec(
                fastboot.binary_path(),
                heimdall.binary_path(),
                self.serial@,
                self.download_dir@,
                self.bootstrap@,
                self.bootstrap@.len() as int,
            ),
    {
        let serial = self.serial.as_str();
        let total = self.bootstrap.len();
        let mut plan: Vec<Action> = Vec::new();
        for i in 0..self.bootstrap.len()
            invariant
                total == self.bootstrap.len(),
                serial@ == self.serial@,
                actions_view(plan@) == bootstrap_spec(
                    fastboot.binary_path(),
                    heimdall.binary_path(),
                    self.serial@,
                    self.download_dir@,
                    self.bootstrap@,
                    i as int,
                ),
        {
            let step = &self.bootstrap[i];
            let ghost before = actions_view(plan@);
            let label = bootstrap_label(step);
            plan.push(flashing(i + 1, total, label.as_str()));
            let ghost mid = actions_view(plan@);
            match step {
                BootstrapStep::Flash { partition, file, flags } => {
                    let path = self.resolve_file(file.as_str());
                    let cmd = if flags.len() == 0 {
                        fastboot.flash(serial, partition.as_str(), path.as_str())
                    } else {
                        fastboot.flash_with_flags(serial, partition.as_str(), path.as_str(), flags)
                    };
                    let ctx = cat("Failed to flash ", partition.as_str());
                    plan.push(run(cmd, ctx.as_str()));
                },
                BootstrapStep::Format { partition, fs } => {
                    plan.push(run_plain(fastboot.format(serial, partition.as_str(), fs.as_str())));
                },
                BootstrapStep::Erase { partition } => {
                    plan.push(run_plain(fastboot.erase(serial, partition.as_str())));
                },
                BootstrapStep::SetActive { slot } => {
                    plan.push(run_plain(fastboot.set_active(serial, slot.as_str())));
                },
                BootstrapStep::DeleteLogicalPartition { partition } => {
                    plan.push(run_plain(fastboot.delete_logical_partition(serial, partition.as_str())));
                },
                BootstrapStep::ResizeLogicalPartition { partition, size } => {
                    let sz = string_of(&decimal(*size));
                    plan.push(run_plain(fastboot.resize_logical_partition(serial, partition.as_str(), sz.as_str())));
                },
                BootstrapStep::WipeSuper => {
                    plan.push(run_plain(fastboot.wipe_super(serial)));
                },
                BootstrapStep::RebootBootloader => {
                    plan.push(run_plain(fastboot.reboot_bootloader(serial)));
                    plan.push(Action::WaitForFastboot);
                },
                BootstrapStep::RebootFastboot => {
                    plan.push(run_plain(fastboot.reboot_fastboot(serial)));
                    plan.push(Action::WaitForFastboot);
                },
                BootstrapStep::RebootRecovery => {
                    plan.push(run_plain(fastboot.reboot_recovery(serial)));
                },
                BootstrapStep::Reboot => {
                    plan.push(run_plain(fastboot.reboot(serial)));
                },
                BootstrapStep::Wait => {
                    plan.push(Action::WaitForFastboot);
                },
                BootstrapStep::AssertVar { variable, value } => {
                    plan.push(
                        Action::AssertVar {
                            command: fastboot.getvar(serial, variable.as_str()),
                            variable: owned(variable.as_str()),
                            value: owned(value.as_str()),
                        },
                    );
                },
                BootstrapStep::UserAction { message } => {
                    plan.push(report(InstallProgress::WaitingForUserAction(owned(message.as_str()))));
                },
                BootstrapStep::HeimdallFlash { partition, file } => {
                    let path = self.resolve_file(file.as_str());
                    let mut flashes: Vec<HeimdallFlash> = Vec::new();
                    flashes.push(Heimdall::flash_entry(partition.as_str(), path.as_str()));
                    assert(flashes@.drop_last() =~= Seq::<HeimdallFlash>::empty());
                    assert(flash_pairs(flashes@.drop_last()) =~= Seq::<Seq<char>>::empty());
                    assert(flashes@.last().partition@ == partition@ && flashes@.last().image@ == path@);
                    assert(flash_pairs(flashes@) =~= seq!["--"@ + partition@, path@]);
                    assert(flash_args_spec(flashes@, false) =~= seq![
                        "flash"@,
                        "--"@ + partition@,
                        path@,
                        "--no-reboot"@,
                    ]);
                    match heimdall.flash(&flashes, false) {
                        Ok(cmd) => {
                            plan.push(run_plain(cmd));
                        },
                        Err(_) => {
                            assert(false);
                        },
                    }
                },
            }
            assert(actions_view(plan@) =~= mid + bootstrap_work_spec(
                fastboot.binary_path(),
                heimdall.binary_path(),
                self.serial@,
                self.download_dir@,
                *step,
            ));
            assert(actions_view(plan@) =~= bootstrap_spec(
                fastboot.binary_path(),
                heimdall.binary_path(),
                self.serial@,
                self.download_dir@,
                self.bootstrap@,
                i + 1,
            ));
        }
        plan
    }

    /// Whether a bootstrap precondition failed, and its message: the
    /// variable read `got` (trimmed) must be `expected`.
    pub fn precondition_failure(variable: &str, got: &str, expected: &str) -> (r: Option<String>)
        ensures
            match r {
                None => trim_spec(got@) == expected@,
                Some(m) => trim_spec(got@) != expected@ && m@ == "Device precondition failed: "@ + variable@ + " is '"@
                    + trim_spec(got@) + "', expected '"@ + expected@ + "'"@,
            },
    {
        let t = string_of(&trim(&chars_of(got)));
        if crate::models::device::str_eq(t.as_str(), expected) {
            return None;
        }
        let mut m = cat3("Device precondition failed: ", variable, " is '");
        m.append(t.as_str());
        m.append("', expected '");
        m.append(expected);
        m.append("'");
        Some(m)
    }

    /// The shell command that writes the recovery's `ubuntu_command`: its
    /// lines joined by newlines, single-quoted.
    pub fn ubuntu_command(system_files: &Vec<SystemFile>) -> (r: String)
        ensures
            r@ == "echo '"@ + quote_escape(crate::text::joined(command_lines(system_files@), "\n"@))
                + "' > /cache/recovery/ubuntu_command"@,
    {
        let mut lines: Vec<String> = Vec::new();
        lines.push(owned("format system"));
        lines.push(owned("load_keyring image-master.tar.xz image-master.tar.xz.asc"));
        lines.push(owned("load_keyring image-signing.tar.xz image-signing.tar.xz.asc"));
        lines.push(owned("mount system"));
        lines.push(owned("format data"));
        let ghost head = seq![
            "format system"@,
            "load_keyring image-master.tar.xz image-master.tar.xz.asc"@,
            "load_keyring image-signing.tar.xz image-signing.tar.xz.asc"@,
            "mount system"@,
            "format data"@,
        ];
        assert(strings_view(lines@) =~= head);
        let sfx = chars_of(".tar.xz");
        for i in 0..system_files.len()
            invariant
                sfx@ == ".tar.xz"@,
                strings_view(lines@) == head + update_lines(system_files@.take(i as int)),
        {
            assert(system_files@.take(i + 1).drop_last() =~= system_files@.take(i as int));
            let f = &system_files[i];
            let ghost before = strings_view(lines@);
            if ends_with(&chars_of(f.remote_name.as_str()), &sfx) {
                let mut l = cat3("update ", f.remote_name.as_str(), " ");
                l.append(f.remote_name.as_str());
                l.append(".asc");
                let ghost lv = l@;
                lines.push(l);
                assert(strings_view(lines@) =~= before.push(lv));
            } else {
                assert(strings_view(lines@) =~= before);
            }
        }
        assert(system_files@.take(system_files.len() as int) =~= system_files@);
        let ghost mid = strings_view(lines@);
        lines.push(owned("unmount system"));
        assert(strings_view(lines@) =~= command_lines(system_files@));
        let content = crate::text::join_strings(&lines, "\n");
        let escaped = escape_quotes(content.as_str());
        let mut r = cat("echo '", escaped.as_str());
        r.append("' > /cache/recovery/ubuntu_command");
        r
    }
}

/// Each `'` of `s` written as `'\''`.
pub fn escape_quotes(s: &str) -> (r: String)
    ensures
        r@ == quote_escape(s@),
{
    let v = chars_of(s);
    let mut r: Vec<char> = Vec::new();
    for i in 0..v.len()
        invariant
            r@ == quote_escape(v@.take(i as int)),
    {
        assert(v@.take(i + 1).drop_last() =~= v@.take(i as int));
        assert(v@.take(i + 1).last() == v@[i as int]);
        if v[i] == '\'' {
            r.push('\'');
            r.push('\\');
            r.push('\'');
            r.push('\'');
            proof {
                reveal_strlit("'\\''");
            }
            assert(r@ =~= quote_escape(v@.take(i as int)) + "'\\''"@);
        } else {
            r.push(v[i]);
        }
    }
    assert(v@.take(v.len() as int) =~= v@);
    string_of(&r)
}

/// A file to download: its URL, its file name and (for a checked one) its
/// checksum.
#[derive(Debug, Clone)]
pub struct DownloadItem {
    pub url: String,
    pub file_name: String,
    pub checksum: Option<String>,
}

pub open spec fn item_view(i: DownloadItem) -> (Seq<char>, Seq<char>, Option<Seq<char>>) {
    (i.url@, i.file_name@, match i.checksum {
        Some(c) => Some(c@),
        None => None,
    })
}

pub open spec fn items_view(v: Seq<DownloadItem>) -> Seq<(Seq<char>, Seq<char>, Option<Seq<char>>)> {
    Seq::new(v.len(), |i: int| item_view(v[i]))
}

/// The downloads of a system image: each file (checked against its
/// checksum), then its signature, named by the last part of their paths.
pub open spec fn system_items_spec(files: Seq<crate::models::system_image::SystemImageFile>) -> Seq<
    (Seq<char>, Seq<char>, Option<Seq<char>>),
>
    decreases files.len(),
{
    if files.len() == 0 {
        seq![]
    } else {
        let f = files.last();
        system_items_spec(files.drop_last()) + seq![
            (system_image_server() + f.path@, crate::text::last_segment(f.path@), Some(f.checksum@)),
            (system_image_server() + f.signature@, crate::text::last_segment(f.signature@), None),
        ]
    }
}

/// The total size of the files of a system image.
pub open spec fn files_size(files: Seq<crate::models::system_image::SystemImageFile>) -> nat
    decreases files.len(),
{
    if files.len() == 0 {
        0
    } else {
        files_size(files.drop_last()) + (files.last().size as nat)
    }
}

/// Pushing each file to `/cache/recovery/` on the device, counted out of all.
pub open spec fn push_spec(adb: Seq<char>, serial: Seq<char>, files: Seq<(Seq<char>, Seq<char>)>, n: int) -> Seq<
    ActionView,
>
    decreases n,
{
    if n <= 0 {
        seq![]
    } else {
        let (local, remote) = files[n - 1];
        push_spec(adb, serial, files, n - 1) + seq![
            flashing_view(n as usize, files.len() as usize, "Pushing "@ + remote + "..."@),
            ActionView::Run {
                command: command_view(adb, seq!["-s"@, serial, "push"@, local, "/cache/recovery/"@ + remote]),
                context: Some("Failed to push "@ + remote),
                tolerant: false,
            },
        ]
    }
}

/// The files pushed to recovery: the system files, then the keyrings that
/// were downloaded (`present[i]` for the `i`-th).
pub open spec fn pushed_files(dir: Seq<char>, system: Seq<SystemFile>, present: Seq<bool>) -> Seq<(Seq<char>, Seq<char>)> {
    Seq::new(system.len(), |i: int| (system[i].local_path@, system[i].remote_name@)) + present_keyrings(dir, present, 4)
}

pub open spec fn present_keyrings(dir: Seq<char>, present: Seq<bool>, n: int) -> Seq<(Seq<char>, Seq<char>)>
    decreases n,
{
    if n <= 0 {
        seq![]
    } else {
        let name = crate::text::last_segment(gpg_keyrings()[n - 1]);
        present_keyrings(dir, present, n - 1) + if n - 1 < present.len() && present[n - 1] {
            seq![(join_spec(dir, name), name)]
        } else {
            seq![]
        }
    }
}

impl UbportsInstaller {
    /// The downloads of the chosen system image, in order.
    pub fn system_items(entry: &crate::models::system_image::SystemImageEntry) -> (r: Vec<DownloadItem>)
        ensures
            items_view(r@) == system_items_spec(entry.files@),
    {
        let mut r: Vec<DownloadItem> = Vec::new();
        for i in 0..entry.files.len()
            invariant
                items_view(r@) == system_items_spec(entry.files@.take(i as int)),
        {
            let f = &entry.files[i];
            assert(entry.files@.take(i + 1).drop_last() =~= entry.files@.take(i as int));
            let ghost before = items_view(r@);
            let a = DownloadItem {
                url: cat("https://system-image.ubports.com", f.path.as_str()),
                file_name: crate::text::last_segment_of(f.path.as_str()),
                checksum: Some(owned(f.checksum.as_str())),
            };
            let b = DownloadItem {
                url: cat("https://system-image.ubports.com", f.signature.as_str()),
                file_name: crate::text::last_segment_of(f.signature.as_str()),
                checksum: None,
            };
            let ghost av = item_view(a);
            let ghost bv = item_view(b);
            r.push(a);
            r.push(b);
            assert(items_view(r@) =~= before + seq![av, bv]);
        }
        assert(entry.files@.take(entry.files.len() as int) =~= entry.files@);
        r
    }

    /// The total size of the files of a system image, when it fits.
    pub fn total_size(entry: &crate::models::system_image::SystemImageEntry) -> (r: Option<u64>)
        ensures
            match r {
                Some(t) => t == files_size(entry.files@),
                None => files_size(entry.files@) > u64::MAX,
            },
    {
        let mut t: u64 = 0;
        for i in 0..entry.files.len()
            invariant
                t == files_size(entry.files@.take(i as int)),
        {
            assert(entry.files@.take(i + 1).drop_last() =~= entry.files@.take(i as int));
            match t.checked_add(entry.files[i].size) {
                Some(n) => {
                    t = n;
                },
                None => {
                    proof {
                        lemma_files_size_grows(entry.files@, i + 1);
                    }
                    return None;
                },
            }
        }
        assert(entry.files@.take(entry.files.len() as int) =~= entry.files@);
        Some(t)
    }

    /// The GPG keyrings to download: their URLs and file names.
    pub fn keyring_items() -> (r: Vec<DownloadItem>)
        ensures
            r.len() == 4,
            forall|i: int|
                0 <= i < 4 ==> item_view(#[trigger] r@[i]) == (system_image_server() + "/"@ + gpg_keyrings()[i], crate::text::last_segment(
                    gpg_keyrings()[i],
                ), None::<Seq<char>>),
    {
        let mut r: Vec<DownloadItem> = Vec::new();
        r.push(keyring_item("gpg/image-master.tar.xz"));
        r.push(keyring_item("gpg/image-master.tar.xz.asc"));
        r.push(keyring_item("gpg/image-signing.tar.xz"));
        r.push(keyring_item("gpg/image-signing.tar.xz.asc"));
        r
    }

    /// Pushing the system files and the downloaded keyrings to recovery.
    pub fn push_plan(
        &self,
        adb: &crate::hardware::adb::Adb,
        system_files: &Vec<SystemFile>,
        keyring_present: &Vec<bool>,
    ) -> (r: Vec<Action>)
        ensures
            ({
                let fs = pushed_files(self.download_dir@, system_files@, keyring_present@);
                actions_view(r@) == push_spec(adb.binary_path(), self.serial@, fs, fs.len() as int)
            }),
    {
        let mut files: Vec<(String, String)> = Vec::new();
        for i in 0..system_files.len()
            invariant
                files@.len() == i,
                forall|j: int| 0 <= j < i ==> ((#[trigger] files@[j]).0@, files@[j].1@) == (system_files@[j].local_path@, system_files@[j].remote_name@),
        {
            files.push((owned(system_files[i].local_path.as_str()), owned(system_files[i].remote_name.as_str())));
        }
        let keys = Self::keyring_items();
        let ghost sys = Seq::new(system_files@.len(), |i: int| (system_files@[i].local_path@, system_files@[i].remote_name@));
        let mut k: usize = 0;
        while k < 4
            invariant
                k <= 4,
                keys.len() == 4,
                forall|i: int|
                    0 <= i < 4 ==> item_view(#[trigger] keys@[i]) == (system_image_server() + "/"@ + gpg_keyrings()[i], crate::text::last_segment(
                        gpg_keyrings()[i],
                    ), None::<Seq<char>>),
                Seq::new(files@.len(), |i: int| (files@[i].0@, files@[i].1@)) == sys + present_keyrings(self.download_dir@, keyring_present@, k as int),
            decreases 4 - k,
        {
            let ghost before = Seq::new(files@.len(), |i: int| (files@[i].0@, files@[i].1@));
            assert(item_view(keys@[k as int]).1 == keys@[k as int].file_name@);
            if k < keyring_present.len() && keyring_present[k] {
                let name = owned(keys[k].file_name.as_str());
                let local = join_path(self.download_dir.as_str(), name.as_str());
                let ghost pair = (local@, name@);
                files.push((local, name));
                assert(Seq::new(files@.len(), |i: int| (files@[i].0@, files@[i].1@)) =~= before.push(pair));
            }
            assert(Seq::new(files@.len(), |i: int| (files@[i].0@, files@[i].1@)) =~= sys + present_keyrings(
                self.download_dir@,
                keyring_present@,
                k + 1,
            ));
            k = k + 1;
        }
        let ghost fs = Seq::new(files@.len(), |i: int| (files@[i].0@, files@[i].1@));
        assert(fs =~= pushed_files(self.download_dir@, system_files@, keyring_present@));
        let total = files.len();
        let mut plan: Vec<Action> = Vec::new();
        for i in 0..files.len()
            invariant
                total == files.len(),
                fs == Seq::new(files@.len(), |i: int| (files@[i].0@, files@[i].1@)),
                actions_view(plan@) == push_spec(adb.binary_path(), self.serial@, fs, i as int),
        {
            let (local, remote) = &files[i];
            let desc = cat3("Pushing ", remote.as_str(), "...");
            let dest = cat("/cache/recovery/", remote.as_str());
            let ctx = cat("Failed to push ", remote.as_str());
            plan.push(flashing(i + 1, total, desc.as_str()));
            plan.push(run(adb.push(self.serial.as_str(), local.as_str(), dest.as_str()), ctx.as_str()));
            assert(actions_view(plan@) =~= push_spec(adb.binary_path(), self.serial@, fs, i + 1));
        }
        plan
    }
}

fn keyring_item(path: &str) -> (r: DownloadItem)
    ensures
        item_view(r) == (system_image_server() + "/"@ + path@, crate::text::last_segment(path@), None::<Seq<char>>),
{
    DownloadItem {
        url: cat3("https://system-image.ubports.com", "/", path),
        file_name: crate::text::last_segment_of(path),
        checksum: None,
    }
}

proof fn lemma_files_size_grows(files: Seq<crate::models::system_image::SystemImageFile>, n: int)
    requires
        0 <= n <= files.len(),
    ensures
        files_size(files.take(n)) <= files_size(files),
    decreases files.len(),
{
    if n < files.len() {
        lemma_files_size_grows(files.drop_last(), n);
        assert(files.drop_last().take(n) =~= files.take(n));
    } else {
        assert(files.take(n) =~= files);
    }
}

/// The flat firmware flash (older configs): each image to its partition,
/// then userdata formatted, counted out of the images and two.
pub open spec fn legacy_flash_spec(fastboot: Seq<char>, serial: Seq<char>, dir: Seq<char>, fw: Seq<FirmwareImage>, n: int) -> Seq<
    ActionView,
>
    decreases n,
{
    if n <= 0 {
        seq![status_view_of("Flashing firmware..."@)]
    } else {
        let f = fw[n - 1];
        let path = join_spec(dir, f.filename@);
        let args = if f.flags@.len() == 0 {
            seq!["-s"@, serial, "flash"@, f.partition@, path]
        } else {
            seq!["-s"@, serial, "flash"@, f.partition@] + strings_view(f.flags@) + seq![path]
        };
        legacy_flash_spec(fastboot, serial, dir, fw, n - 1) + seq![
            flashing_view(n as usize, (fw.len() + 2) as usize, "Flashing "@ + f.partition@ + "..."@),
            ActionView::Run {
                command: command_view(fastboot, args),
                context: Some("Failed to flash "@ + f.partition@),
                tolerant: false,
            },
        ]
    }
}

pub open spec fn status_view_of(s: Seq<char>) -> ActionView {
    ActionView::Report(ProgressView::StatusChanged(s))
}

/// Getting the device into its flashing mode: Samsung download mode for a
/// Heimdall bootstrap (a failed reboot is only logged), fastboot otherwise.
pub open spec fn device_mode_spec(inst: UbportsInstaller, adb: Seq<char>) -> Seq<ActionView> {
    let serial = inst.serial@;
    let heimdall_boot = inst.bootstrap@.len() > 0 && exists|i: int|
        0 <= i < inst.bootstrap@.len() && (#[trigger] inst.bootstrap@[i]) is HeimdallFlash;
    if heimdall_boot {
        seq![
            status_view_of("Rebooting to download mode..."@),
            ActionView::Run {
                command: command_view(adb, seq!["-s"@, serial, "reboot"@, "download"@]),
                context: None,
                tolerant: true,
            },
            ActionView::WaitForDownloadMode { seconds: 120, context: "Device did not enter download mode"@ },
        ]
    } else {
        seq![
            status_view_of("Rebooting to bootloader..."@),
            plain_run(command_view(adb, seq!["-s"@, serial, "reboot"@, "bootloader"@])),
            status_view_of("Waiting for device in fastboot mode..."@),
            ActionView::WaitForFastboot,
        ]
    }
}

/// Preparing recovery for the system image.
pub open spec fn recovery_prep_spec(adb: Seq<char>, serial: Seq<char>) -> Seq<ActionView> {
    seq![
        ActionView::Report(ProgressView::WaitingForRecovery),
        plain_run(command_view(adb, seq!["-s"@, serial, "wait-for-recovery"@])),
        ActionView::Report(ProgressView::RecoveryDetected),
        status_view_of("Preparing system image..."@),
        ActionView::Run { command: command_view(adb, seq!["-s"@, serial, "shell"@, "mount -a"@]), context: None, tolerant: true },
        ActionView::Run {
            command: command_view(adb, seq!["-s"@, serial, "shell"@, "rm -rf /cache/recovery"@]),
            context: None,
            tolerant: true,
        },
        ActionView::Run {
            command: command_view(adb, seq!["-s"@, serial, "shell"@, "mkdir -p /cache/recovery"@]),
            context: Some("Failed to create /cache/recovery"@),
            tolerant: false,
        },
        status_view_of("Pushing system image files to device..."@),
    ]
}

/// The end: write the install command and reboot into recovery to apply it.
pub open spec fn apply_spec(adb: Seq<char>, serial: Seq<char>, system: Seq<SystemFile>) -> Seq<ActionView> {
    seq![
        status_view_of("Writing install command..."@),
        plain_run(
            command_view(
                adb,
                seq![
                    "-s"@,
                    serial,
                    "shell"@,
                    "echo '"@ + quote_escape(crate::text::joined(command_lines(system), "\n"@))
                        + "' > /cache/recovery/ubuntu_command"@,
                ],
            ),
        ),
        status_view_of("Rebooting into recovery to apply update..."@),
        plain_run(command_view(adb, seq!["-s"@, serial, "shell"@, "reboot recovery"@])),
        ActionView::Report(ProgressView::Complete),
    ]
}

/// The steps of a UBports installation once every file is downloaded: check
/// the system image, get the device into its flashing mode, set it up (its
/// bootstrap sequence, or the flat firmware and a userdata format), prepare
/// recovery, push the system image and keyrings, and apply them.
pub open spec fn ubports_install_spec(
    inst: UbportsInstaller,
    adb: Seq<char>,
    fastboot: Seq<char>,
    heimdall: Seq<char>,
    system: Seq<SystemFile>,
    present: Seq<bool>,
) -> Seq<ActionView> {
    let serial = inst.serial@;
    let dir = inst.download_dir@;
    let cs = checked_files(system);
    let fs = pushed_files(dir, system, present);
    let setup = if inst.bootstrap@.len() > 0 {
        bootstrap_spec(fastboot, heimdall, serial, dir, inst.bootstrap@, inst.bootstrap@.len() as int)
    } else {
        legacy_flash_spec(fastboot, serial, dir, inst.firmware@, inst.firmware@.len() as int) + seq![
            flashing_view((inst.firmware@.len() + 1) as usize, (inst.firmware@.len() + 2) as usize, "Formatting userdata..."@),
            ActionView::Run {
                command: command_view(fastboot, seq!["-s"@, serial, "format:ext4"@, "userdata"@]),
                context: Some("Failed to format userdata"@),
                tolerant: false,
            },
        ]
    };
    seq![status_view_of("Verifying system image checksums..."@)] + system_checks_spec(cs, cs.len() as int)
        + device_mode_spec(inst, adb) + setup + recovery_prep_spec(adb, serial) + push_spec(
        adb,
        serial,
        fs,
        fs.len() as int,
    ) + apply_spec(adb, serial, system)
}

impl UbportsInstaller {
    fn push_legacy_flash(&self, plan: &mut Vec<Action>, fastboot: &Fastboot)
        requires
            self.firmware.len() + 2 <= usize::MAX,
        ensures
            actions_view(final(plan)@) == actions_view(old(plan)@) + legacy_flash_spec(
                fastboot.binary_path(),
                self.serial@,
                self.download_dir@,
                self.firmware@,
                self.firmware@.len() as int,
            ),
    {
        let ghost start = actions_view(plan@);
        let serial = self.serial.as_str();
        let total = self.firmware.len() + 2;
        plan.push(crate::flashing::progress::status("Flashing firmware..."));
        assert(actions_view(plan@) =~= start + legacy_flash_spec(fastboot.binary_path(), self.serial@, self.download_dir@, self.firmware@, 0));
        for i in 0..self.firmware.len()
            invariant
                total == self.firmware.len() + 2,
                serial@ == self.serial@,
                actions_view(plan@) == start + legacy_flash_spec(
                    fastboot.binary_path(),
                    self.serial@,
                    self.download_dir@,
                    self.firmware@,
                    i as int,
                ),
        {
            let fw = &self.firmware[i];
            assert(self.firmware@[i as int] == *fw);
            let ghost before = actions_view(plan@);
            let path = join_path(self.download_dir.as_str(), fw.filename.as_str());
            let desc = cat3("Flashing ", fw.partition.as_str(), "...");
            let cmd = if fw.flags.len() == 0 {
                fastboot.flash(serial, fw.partition.as_str(), path.as_str())
            } else {
                fastboot.flash_with_flags(serial, fw.partition.as_str(), path.as_str(), &fw.flags)
            };
            let ctx = cat("Failed to flash ", fw.partition.as_str());
            let a = flashing(i + 1, total, desc.as_str());
            let b = run(cmd, ctx.as_str());
            let ghost av = a@;
            let ghost bv = b@;
            plan.push(a);
            plan.push(b);
            assert(actions_view(plan@) =~= before + seq![av, bv]);
            assert(actions_view(plan@) =~= start + legacy_flash_spec(
                fastboot.binary_path(),
                self.serial@,
                self.download_dir@,
                self.firmware@,
                i + 1,
            ));
        }
    }

    fn push_device_mode(&self, plan: &mut Vec<Action>, adb: &crate::hardware::adb::Adb)
        ensures
            actions_view(final(plan)@) == actions_view(old(plan)@) + device_mode_spec(*self, adb.binary_path()),
    {
        let ghost start = actions_view(plan@);
        let serial = self.serial.as_str();
        if self.heimdall_boot() {
            plan.push(crate::flashing::progress::status("Rebooting to download mode..."));
            plan.push(crate::flashing::progress::try_run(adb.reboot_download(serial)));
            plan.push(Action::WaitForDownloadMode { seconds: 120, context: owned("Device did not enter download mode") });
        } else {
            plan.push(crate::flashing::progress::status("Rebooting to bootloader..."));
            plan.push(run_plain(adb.reboot_bootloader(serial)));
            plan.push(crate::flashing::progress::status("Waiting for device in fastboot mode..."));
            plan.push(Action::WaitForFastboot);
        }
        assert(actions_view(plan@) =~= start + device_mode_spec(*self, adb.binary_path()));
    }

    fn push_recovery_prep(&self, plan: &mut Vec<Action>, adb: &crate::hardware::adb::Adb)
        ensures
            actions_view(final(plan)@) == actions_view(old(plan)@) + recovery_prep_spec(adb.binary_path(), self.serial@),
    {
        let ghost start = actions_view(plan@);
        let serial = self.serial.as_str();
        plan.push(report(InstallProgress::WaitingForRecovery));
        plan.push(run_plain(adb.wait_for_recovery(serial)));
        plan.push(report(InstallProgress::RecoveryDetected));
        plan.push(crate::flashing::progress::status("Preparing system image..."));
        plan.push(crate::flashing::progress::try_run(adb.shell(serial, "mount -a")));
        plan.push(crate::flashing::progress::try_run(adb.shell(serial, "rm -rf /cache/recovery")));
        plan.push(run(adb.shell(serial, "mkdir -p /cache/recovery"), "Failed to create /cache/recovery"));
        plan.push(crate::flashing::progress::status("Pushing system image files to device..."));
        assert(actions_view(plan@) =~= start + recovery_prep_spec(adb.binary_path(), self.serial@));
    }

    fn push_apply(&self, plan: &mut Vec<Action>, adb: &crate::hardware::adb::Adb, system_files: &Vec<SystemFile>)
        ensures
            actions_view(final(plan)@) == actions_view(old(plan)@) + apply_spec(adb.binary_path(), self.serial@, system_files@),
    {
        let ghost start = actions_view(plan@);
        let serial = self.serial.as_str();
        plan.push(crate::flashing::progress::status("Writing install command..."));
        let cmd = Self::ubuntu_command(system_files);
        plan.push(run_plain(adb.shell(serial, cmd.as_str())));
        plan.push(crate::flashing::progress::status("Rebooting into recovery to apply update..."));
        plan.push(run_plain(adb.shell(serial, "reboot recovery")));
        plan.push(report(InstallProgress::Complete));
        assert(actions_view(plan@) =~= start + apply_spec(adb.binary_path(), self.serial@, system_files@));
    }

    /// The steps of the installation once every file is downloaded.
    pub fn install_plan(
        &self,
        adb: &crate::hardware::adb::Adb,
        fastboot: &Fastboot,
        heimdall: &Heimdall,
        system_files: &Vec<SystemFile>,
        keyring_present: &Vec<bool>,
    ) -> (r: Vec<Action>)
        requires
            self.firmware.len() + 2 <= usize::MAX,
        ensures
            actions_view(r@) == ubports_install_spec(
                *self,
                adb.binary_path(),
                fastboot.binary_path(),
                heimdall.binary_path(),
                system_files@,
                keyring_present@,
            ),
    {
        let mut plan: Vec<Action> = Vec::new();
        plan.push(crate::flashing::progress::status("Verifying system image checksums..."));
        let ghost p0 = actions_view(plan@);
        let checks = self.verify_system_image(system_files);
        let ghost cv = actions_view(checks@);
        let mut checks = checks;
        plan.append(&mut checks);
        assert(actions_view(plan@) =~= p0 + cv);
        let ghost p1 = actions_view(plan@);
        self.push_device_mode(&mut plan, adb);
        let ghost p2 = actions_view(plan@);
        let ghost serial = self.serial@;
        let ghost dir = self.download_dir@;
        let ghost setup = if self.bootstrap@.len() > 0 {
            bootstrap_spec(fastboot.binary_path(), heimdall.binary_path(), serial, dir, self.bootstrap@, self.bootstrap@.len() as int)
        } else {
            legacy_flash_spec(fastboot.binary_path(), serial, dir, self.firmware@, self.firmware@.len() as int) + seq![
                flashing_view((self.firmware@.len() + 1) as usize, (self.firmware@.len() + 2) as usize, "Formatting userdata..."@),
                ActionView::Run {
                    command: command_view(fastboot.binary_path(), seq!["-s"@, serial, "format:ext4"@, "userdata"@]),
                    context: Some("Failed to format userdata"@),
                    tolerant: false,
                },
            ]
        };
        if self.use_bootstrap() {
            let mut b = self.bootstrap_plan(fastboot, heimdall);
            let ghost bv = actions_view(b@);
            plan.append(&mut b);
            assert(actions_view(plan@) =~= p2 + bv);
        } else {
            self.push_legacy_flash(&mut plan, fastboot);
            let ghost pl = actions_view(plan@);
            let n = self.firmware.len();
            proof {
                reveal_strlit("format:");
                reveal_strlit("ext4");
                reveal_strlit("format:ext4");
                assert("format:"@ + "ext4"@ =~= "format:ext4"@);
            }
            let a = flashing(n + 1, n + 2, "Formatting userdata...");
            let b = run(fastboot.format(self.serial.as_str(), "userdata", "ext4"), "Failed to format userdata");
            let ghost av = a@;
            let ghost bv = b@;
            plan.push(a);
            plan.push(b);
            assert(actions_view(plan@) =~= pl + seq![av, bv]);
        }
        let ghost p3 = actions_view(plan@);
        assert(p3 =~= p2 + setup);
        self.push_recovery_prep(&mut plan, adb);
        let ghost p4 = actions_view(plan@);
        assert(p4 =~= p3 + recovery_prep_spec(adb.binary_path(), self.serial@));
        let mut pushes = self.push_plan(adb, system_files, keyring_present);
        let ghost pv = actions_view(pushes@);
        plan.append(&mut pushes);
        assert(actions_view(plan@) =~= p4 + pv);
        let ghost p5 = actions_view(plan@);
        self.push_apply(&mut plan, adb, system_files);
        assert(actions_view(plan@) =~= p5 + apply_spec(adb.binary_path(), self.serial@, system_files@));
        assert(p2 =~= p1 + device_mode_spec(*self, adb.binary_path()));
        assert(actions_view(plan@) =~= ubports_install_spec(
            *self,
            adb.binary_path(),
            fastboot.binary_path(),
            heimdall.binary_path(),
            system_files@,
            keyring_present@,
        ));
        plan
    }
}

/// The steps of one bootstrap download: the download, its check when it has
/// a checksum, and its unpacking into `unpacked/` when asked.
pub open spec fn bootstrap_download_spec(dir: Seq<char>, d: UbportsDownload) -> Seq<ActionView> {
    let f = d.filename@;
    let path = join_spec(dir, crate::flashing::downloader::plain_component(f)->0);
    seq![
        ActionView::Download {
            url: d.url@,
            file_name: f,
            sha256: crate::flashing::progress::opt_view(d.sha256),
            label: f,
            context: "Failed to download "@ + f,
        },
    ] + (if d.sha256 is Some {
        seq![ActionView::Verify { path, sha256: d.sha256->0@, mismatch: "Checksum mismatch for "@ + f }]
    } else {
        seq![]
    }) + (if d.unpack {
        seq![
            status_view_of("Unpacking "@ + f + "..."@),
            ActionView::UnpackZip { archive: path, dir: join_spec(dir, "unpacked"@) },
        ]
    } else {
        seq![]
    })
}

/// The first `n` bootstrap downloads.
pub open spec fn bootstrap_downloads_spec(dir: Seq<char>, ds: Seq<UbportsDownload>, n: int) -> Seq<ActionView>
    decreases n,
{
    if n <= 0 {
        seq![]
    } else {
        bootstrap_downloads_spec(dir, ds, n - 1) + bootstrap_download_spec(dir, ds[n - 1])
    }
}

/// The index of the first download whose file name is refused, or the
/// number of downloads.
pub open spec fn first_refused_download(ds: Seq<UbportsDownload>, i: int) -> int
    decreases ds.len() - i,
{
    if i < 0 || i >= ds.len() {
        ds.len() as int
    } else if crate::flashing::downloader::plain_component(ds[i].filename@) is None {
        i
    } else {
        first_refused_download(ds, i + 1)
    }
}

/// The bootstrap downloads, stopping at one whose file name is refused.
pub open spec fn bootstrap_files_spec(inst: UbportsInstaller) -> Seq<ActionView> {
    let ds = inst.downloads@;
    let k = first_refused_download(ds, 0);
    if k < ds.len() {
        bootstrap_downloads_spec(inst.download_dir@, ds, k) + seq![
            ActionView::Download {
                url: ds[k].url@,
                file_name: ds[k].filename@,
                sha256: crate::flashing::progress::opt_view(ds[k].sha256),
                label: ds[k].filename@,
                context: "Failed to download "@ + ds[k].filename@,
            },
        ]
    } else {
        bootstrap_downloads_spec(inst.download_dir@, ds, ds.len() as int)
    }
}

impl UbportsInstaller {
    /// The downloads the bootstrap needs: each file downloaded, checked when
    /// it has a checksum and unpacked when asked.
    pub fn bootstrap_files_plan(&self) -> (r: Vec<Action>)
        ensures
            actions_view(r@) == bootstrap_files_spec(*self),
    {
        let downloader = crate::flashing::downloader::ImageDownloader::new(self.download_dir.as_str());
        let unpack_dir = join_path(self.download_dir.as_str(), "unpacked");
        let mut plan: Vec<Action> = Vec::new();
        for i in 0..self.downloads.len()
            invariant
                downloader.download_dir@ == self.download_dir@,
                unpack_dir@ == join_spec(self.download_dir@, "unpacked"@),
                first_refused_download(self.downloads@, 0) == first_refused_download(self.downloads@, i as int),
                actions_view(plan@) == bootstrap_downloads_spec(self.download_dir@, self.downloads@, i as int),
        {
            let d = &self.downloads[i];
            assert(self.downloads@[i as int] == *d);
            let ghost before = actions_view(plan@);
            let ctx = cat("Failed to download ", d.filename.as_str());
            let sha: Option<&str> = match &d.sha256 {
                Some(h) => Some(h.as_str()),
                None => None,
            };
            plan.push(crate::flashing::progress::download(d.url.as_str(), d.filename.as_str(), sha, d.filename.as_str(), ctx.as_str()));
            let path = match downloader.safe_dest(d.filename.as_str()) {
                Ok(p) => p,
                Err(_) => {
                    assert(first_refused_download(self.downloads@, i as int) == i);
                    assert(actions_view(plan@) =~= bootstrap_files_spec(*self));
                    return plan;
                },
            };
            let ghost p1 = actions_view(plan@);
            match &d.sha256 {
                Some(h) => {
                    let m = cat("Checksum mismatch for ", d.filename.as_str());
                    plan.push(verify(path.as_str(), h.as_str(), m.as_str()));
                },
                None => {},
            }
            let ghost p2 = actions_view(plan@);
            if d.unpack {
                let st = cat3("Unpacking ", d.filename.as_str(), "...");
                plan.push(crate::flashing::progress::status(st.as_str()));
                plan.push(Action::UnpackZip { archive: owned(path.as_str()), dir: owned(unpack_dir.as_str()) });
            }
            assert(actions_view(plan@) =~= before + bootstrap_download_spec(self.download_dir@, *d));
        }
        assert(actions_view(plan@) =~= bootstrap_files_spec(*self));
        plan
    }
}

/// The downloads of the flat firmware list: each file with its checksum.
pub open spec fn firmware_downloads_spec(fw: Seq<FirmwareImage>) -> Seq<ActionView>
    decreases fw.len(),
{
    if fw.len() == 0 {
        seq![]
    } else {
        let f = fw.last();
        firmware_downloads_spec(fw.drop_last()).push(
            ActionView::Download {
                url: f.url@,
                file_name: f.filename@,
                sha256: Some(f.sha256@),
                label: f.filename@,
                context: "Failed to download "@ + f.filename@,
            },
        )
    }
}

impl UbportsInstaller {
    /// The downloads of the flat firmware list (configs without a bootstrap).
    pub fn firmware_downloads_plan(&self) -> (r: Vec<Action>)
        ensures
            actions_view(r@) == firmware_downloads_spec(self.firmware@),
    {
        let mut plan: Vec<Action> = Vec::new();
        for i in 0..self.firmware.len()
            invariant
                plan.len() == i,
                actions_view(plan@) == firmware_downloads_spec(self.firmware@.take(i as int)),
        {
            let f = &self.firmware[i];
            assert(self.firmware@.take(i + 1).drop_last() =~= self.firmware@.take(i as int));
            assert(self.firmware@.take(i + 1).last() == *f);
            let ctx = cat("Failed to download ", f.filename.as_str());
            let ghost before = actions_view(plan@);
            plan.push(
                crate::flashing::progress::download(
                    f.url.as_str(),
                    f.filename.as_str(),
                    Some(f.sha256.as_str()),
                    f.filename.as_str(),
                    ctx.as_str(),
                ),
            );
            assert(actions_view(plan@) =~= before.push(plan@[i as int]@));
        }
        assert(self.firmware@.take(self.firmware.len() as int) =~= self.firmware@);
        plan
    }
}

/// The local path of a downloaded file, when its name is a plain one.
pub open spec fn local_spec(dir: Seq<char>, name: Seq<char>) -> Option<Seq<char>> {
    match crate::flashing::downloader::plain_component(name) {
        Some(c) => Some(join_spec(dir, c)),
        None => None,
    }
}

/// The system files of a system image once downloaded, in order: each file
/// (with its checksum) then its signature (with none), each with its path in
/// the download directory and the name it is pushed under (the last segment
/// of its server path); none when a file name is refused.
pub open spec fn system_files_spec(
    dir: Seq<char>,
    files: Seq<crate::models::system_image::SystemImageFile>,
) -> Option<Seq<(Seq<char>, Seq<char>, Seq<char>)>>
    decreases files.len(),
{
    if files.len() == 0 {
        Some(seq![])
    } else {
        let f = files.last();
        let n = crate::text::last_segment(f.path@);
        let sn = crate::text::last_segment(f.signature@);
        match (system_files_spec(dir, files.drop_last()), local_spec(dir, n), local_spec(dir, sn)) {
            (Some(s), Some(p), Some(sp)) => Some(s + seq![(p, n, f.checksum@), (sp, sn, seq![])]),
            _ => None,
        }
    }
}

pub open spec fn system_files_view(v: Seq<SystemFile>) -> Seq<(Seq<char>, Seq<char>, Seq<char>)> {
    Seq::new(v.len(), |i: int| (v[i].local_path@, v[i].remote_name@, v[i].checksum@))
}

proof fn lemma_system_files_refused(
    dir: Seq<char>,
    files: Seq<crate::models::system_image::SystemImageFile>,
    i: int,
)
    requires
        0 <= i <= files.len(),
        system_files_spec(dir, files.take(i)) is None,
    ensures
        system_files_spec(dir, files) is None,
    decreases files.len() - i,
{
    if i < files.len() {
        assert(files.take(i + 1).drop_last() =~= files.take(i));
        lemma_system_files_refused(dir, files, i + 1);
    } else {
        assert(files.take(i) =~= files);
    }
}

/// The downloads of a system image: each file with its checksum, then its
/// signature.
pub open spec fn system_image_plan_spec(files: Seq<crate::models::system_image::SystemImageFile>) -> Seq<ActionView>
    decreases files.len(),
{
    if files.len() == 0 {
        seq![]
    } else {
        let f = files.last();
        let n = crate::text::last_segment(f.path@);
        let sn = crate::text::last_segment(f.signature@);
        system_image_plan_spec(files.drop_last()) + seq![
            ActionView::Download {
                url: system_image_server() + f.path@,
                file_name: n,
                sha256: Some(f.checksum@),
                label: n,
                context: "Failed to download "@ + n,
            },
            ActionView::Download {
                url: system_image_server() + f.signature@,
                file_name: sn,
                sha256: None,
                label: sn,
                context: "Failed to download signature "@ + sn,
            },
        ]
    }
}

/// The downloads of the GPG keyrings, each announced.
pub open spec fn keyrings_plan_spec(n: int) -> Seq<ActionView>
    decreases n,
{
    if n <= 0 {
        seq![]
    } else {
        let name = crate::text::last_segment(gpg_keyrings()[n - 1]);
        keyrings_plan_spec(n - 1) + seq![
            status_view_of("Downloading "@ + name + "..."@),
            ActionView::Download {
                url: system_image_server() + "/"@ + gpg_keyrings()[n - 1],
                file_name: name,
                sha256: None,
                label: name,
                context: "Failed to download GPG keyring "@ + name,
            },
        ]
    }
}

impl UbportsInstaller {
    fn local_path(downloader: &crate::flashing::downloader::ImageDownloader, name: &String) -> (r: Option<String>)
        ensures
            r matches Some(p) ==> local_spec(downloader.download_dir@, name@) == Some(p@),
            r is None ==> local_spec(downloader.download_dir@, name@) is None,
    {
        match downloader.safe_dest(name.as_str()) {
            Ok(p) => Some(p),
            Err(_) => None,
        }
    }

    /// The downloaded system files of the chosen image, to verify and push.
    pub fn system_files(&self, entry: &crate::models::system_image::SystemImageEntry) -> (r: Result<
        Vec<SystemFile>,
        crate::flashing::downloader::DownloadError,
    >)
        ensures
            r is Ok <==> system_files_spec(self.download_dir@, entry.files@) is Some,
            r matches Ok(v) ==> system_files_spec(self.download_dir@, entry.files@) == Some(system_files_view(v@)),
    {
        let downloader = crate::flashing::downloader::ImageDownloader::new(self.download_dir.as_str());
        let mut r: Vec<SystemFile> = Vec::new();
        assert(system_files_view(r@) =~= seq![]);
        for i in 0..entry.files.len()
            invariant
                downloader.download_dir@ == self.download_dir@,
                system_files_spec(self.download_dir@, entry.files@.take(i as int)) == Some(system_files_view(r@)),
        {
            let f = &entry.files[i];
            assert(entry.files@.take(i + 1).drop_last() =~= entry.files@.take(i as int));
            assert(entry.files@.take(i + 1).last() == *f);
            let name = crate::text::last_segment_of(f.path.as_str());
            let sig = crate::text::last_segment_of(f.signature.as_str());
            let p = Self::local_path(&downloader, &name);
            let sp = Self::local_path(&downloader, &sig);
            if p.is_none() || sp.is_none() {
                proof {
                    lemma_system_files_refused(self.download_dir@, entry.files@, i + 1);
                }
                let refused = if p.is_none() { name } else { sig };
                return Err(crate::flashing::downloader::DownloadError::UnsafeFilename(refused));
            }
            let ghost before = system_files_view(r@);
            r.push(SystemFile { local_path: p.unwrap(), remote_name: name, checksum: owned(f.checksum.as_str()) });
            r.push(SystemFile { local_path: sp.unwrap(), remote_name: sig, checksum: String::new() });
            assert(system_files_view(r@) =~= before + seq![system_files_view(r@)[r.len() - 2], system_files_view(r@).last()]);
        }
        assert(entry.files@.take(entry.files.len() as int) =~= entry.files@);
        Ok(r)
    }

    /// The downloads of the chosen system image.
    pub fn system_image_plan(entry: &crate::models::system_image::SystemImageEntry) -> (r: Vec<Action>)
        ensures
            actions_view(r@) == system_image_plan_spec(entry.files@),
    {
        let mut plan: Vec<Action> = Vec::new();
        for i in 0..entry.files.len()
            invariant
                actions_view(plan@) == system_image_plan_spec(entry.files@.take(i as int)),
        {
            let f = &entry.files[i];
            assert(entry.files@.take(i + 1).drop_last() =~= entry.files@.take(i as int));
            assert(entry.files@.take(i + 1).last() == *f);
            let name = crate::text::last_segment_of(f.path.as_str());
            let sig = crate::text::last_segment_of(f.signature.as_str());
            let url = cat("https://system-image.ubports.com", f.path.as_str());
            let sig_url = cat("https://system-image.ubports.com", f.signature.as_str());
            let ctx = cat("Failed to download ", name.as_str());
            let sig_ctx = cat("Failed to download signature ", sig.as_str());
            let ghost before = actions_view(plan@);
            let a = crate::flashing::progress::download(
                url.as_str(),
                name.as_str(),
                Some(f.checksum.as_str()),
                name.as_str(),
                ctx.as_str(),
            );
            let b = crate::flashing::progress::download(sig_url.as_str(), sig.as_str(), None, sig.as_str(), sig_ctx.as_str());
            let ghost (av, bv) = (a@, b@);
            plan.push(a);
            plan.push(b);
            assert(actions_view(plan@) =~= before + seq![av, bv]);
        }
        assert(entry.files@.take(entry.files.len() as int) =~= entry.files@);
        plan
    }

    /// The downloads of the GPG keyrings.
    pub fn keyrings_plan() -> (r: Vec<Action>)
        ensures
            actions_view(r@) == keyrings_plan_spec(4),
    {
        let items = Self::keyring_items();
        let mut plan: Vec<Action> = Vec::new();
        for i in 0..4
            invariant
                items.len() == 4,
                forall|j: int|
                    0 <= j < 4 ==> item_view(#[trigger] items@[j]) == (system_image_server() + "/"@ + gpg_keyrings()[j], crate::text::last_segment(
                        gpg_keyrings()[j],
                    ), None::<Seq<char>>),
                actions_view(plan@) == keyrings_plan_spec(i as int),
        {
            let k = &items[i];
            assert(item_view(items@[i as int]) == item_view(*k));
            let announce = cat3("Downloading ", k.file_name.as_str(), "...");
            let ctx = cat("Failed to download GPG keyring ", k.file_name.as_str());
            let ghost before = actions_view(plan@);
            let a = crate::flashing::progress::status(announce.as_str());
            let b = crate::flashing::progress::download(k.url.as_str(), k.file_name.as_str(), None, k.file_name.as_str(), ctx.as_str());
            let ghost (av, bv) = (a@, b@);
            plan.push(a);
            plan.push(b);
            assert(actions_view(plan@) =~= before + seq![av, bv]);
        }
        plan
    }
}

/// File `i` of `files` in the push steps `st`: announced as step `i + 1` of
/// all at `2 i`, then copied by `adb push` from its local path to
/// `/cache/recovery/` under its remote name at `2 i + 1`.
pub open spec fn pushed_at(st: Seq<ActionView>, i: int, adb: Seq<char>, serial: Seq<char>, files: Seq<(Seq<char>, Seq<char>)>) -> bool {
    &&& st[2 * i] matches ActionView::Report(ProgressView::FlashProgress { current, total, .. }) && current == i + 1
        && total == files.len()
    &&& st[2 * i + 1] == (ActionView::Run {
        command: command_view(adb, seq!["-s"@, serial, "push"@, files[i].0, "/cache/recovery/"@ + files[i].1]),
        context: Some("Failed to push "@ + files[i].1),
        tolerant: false,
    })
}

/// Every file reaches recovery, in order: pushing `n` files is `2 n`
/// steps, and file `i` is announced, then pushed (see `pushed_at`).
pub proof fn lemma_push_every_file(adb: Seq<char>, serial: Seq<char>, files: Seq<(Seq<char>, Seq<char>)>, n: int)
    requires
        0 <= n <= files.len(),
        files.len() <= usize::MAX,
    ensures
        push_spec(adb, serial, files, n).len() == 2 * n,
        forall|i: int| 0 <= i < n ==> #[trigger] pushed_at(push_spec(adb, serial, files, n), i, adb, serial, files),
    decreases n,
{
    if n > 0 {
        lemma_push_every_file(adb, serial, files, n - 1);
        let prev = push_spec(adb, serial, files, n - 1);
        let st = push_spec(adb, serial, files, n);
        assert forall|i: int| 0 <= i < n implies #[trigger] pushed_at(st, i, adb, serial, files) by {
            if i < n - 1 {
                assert(pushed_at(prev, i, adb, serial, files));
                assert(st[2 * i] == prev[2 * i] && st[2 * i + 1] == prev[2 * i + 1]);
            } else {
                let (local, remote) = files[n - 1];
                let tail = seq![
                    flashing_view(n as usize, files.len() as usize, "Pushing "@ + remote + "..."@),
                    ActionView::Run {
                        command: command_view(adb, seq!["-s"@, serial, "push"@, local, "/cache/recovery/"@ + remote]),
                        context: Some("Failed to push "@ + remote),
                        tolerant: false,
                    },
                ];
                assert(st == prev + tail);
                assert(st[2 * i] == tail[0]);
                assert(st[2 * i + 1] == tail[1]);
            }
        }
    }
}

/// The files pushed to recovery are the system files, each from its local
/// path under its remote name, in order, followed by the keyrings that were
/// downloaded.
pub proof fn lemma_pushed_system_files_first(dir: Seq<char>, system: Seq<SystemFile>, present: Seq<bool>)
    ensures
        pushed_files(dir, system, present).len() >= system.len(),
        forall|i: int|
            0 <= i < system.len() ==> #[trigger] pushed_files(dir, system, present)[i] == (
                system[i].local_path@,
                system[i].remote_name@,
            ),
{
}

/// Image `i` of the flat firmware in the flash steps `st`: at `2 + 2 i`,
/// `fastboot flash` writes it to its own partition from its file in the
/// download directory, with its flags before the path.
pub open spec fn flashed_at(st: Seq<ActionView>, i: int, fastboot: Seq<char>, serial: Seq<char>, dir: Seq<char>, fw: Seq<FirmwareImage>) -> bool {
    run_command(st[2 + 2 * i]) matches Some(c) && {
        &&& c.program == fastboot
        &&& c.args.len() == 5 + fw[i].flags@.len()
        &&& c.args[0] == "-s"@ && c.args[1] == serial && c.args[2] == "flash"@ && c.args[3] == fw[i].partition@
        &&& c.args.last() == join_spec(dir, fw[i].filename@)
        &&& c.args.subrange(4, c.args.len() - 1) == strings_view(fw[i].flags@)
    }
}

/// The flat firmware goes to its partitions: every image, in order, is
/// flashed to its own partition from its own file (see `flashed_at`).
pub proof fn lemma_legacy_flash_each_image(
    fastboot: Seq<char>,
    serial: Seq<char>,
    dir: Seq<char>,
    fw: Seq<FirmwareImage>,
    n: int,
)
    requires
        0 <= n <= fw.len(),
    ensures
        legacy_flash_spec(fastboot, serial, dir, fw, n).len() == 1 + 2 * n,
        forall|i: int| 0 <= i < n ==> #[trigger] flashed_at(legacy_flash_spec(fastboot, serial, dir, fw, n), i, fastboot, serial, dir, fw),
    decreases n,
{
    if n > 0 {
        lemma_legacy_flash_each_image(fastboot, serial, dir, fw, n - 1);
        let prev = legacy_flash_spec(fastboot, serial, dir, fw, n - 1);
        let st = legacy_flash_spec(fastboot, serial, dir, fw, n);
        assert forall|i: int| 0 <= i < n implies #[trigger] flashed_at(st, i, fastboot, serial, dir, fw) by {
            if i < n - 1 {
                assert(flashed_at(prev, i, fastboot, serial, dir, fw));
                assert(st[2 + 2 * i] == prev[2 + 2 * i]);
            } else {
                let c = run_command(st[2 + 2 * i])->0;
                assert(c.args.subrange(4, c.args.len() - 1) =~= strings_view(fw[i].flags@));
            }
        }
    }
}

} // verus!
