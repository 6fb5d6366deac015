use vstd::prelude::*;
use crate::flashing::progress::{Action, ActionView, ProgressView, flashing, run};
use crate::hardware::command::{command_view, owned};
use crate::hardware::fastboot::Fastboot;
use crate::models::device::{str_eq, strings_view};
use crate::models::installer::FlashOperation;
use crate::text::{cat, cat3, join_strings, joined};

verus! {

broadcast use vstd::string::group_string_axioms;

/// The file a flash operation's source names: the boot or rootfs image, or
/// else the source itself as a path.
pub open spec fn resolve_source_spec(source: Seq<char>, boot_img: Seq<char>, rootfs_img: Seq<char>) -> Seq<char> {
    if source == "boot"@ {
        boot_img
    } else if source == "rootfs"@ {
        rootfs_img
    } else {
        source
    }
}

/// Resolve a source name like `boot` or `rootfs` to an actual file path.
pub fn resolve_source(source: &str, boot_img: &str, rootfs_img: &str) -> (r: String)
    ensures
        r@ == resolve_source_spec(source@, boot_img@, rootfs_img@),
{
    if str_eq(source, "boot") {
        owned(boot_img)
    } else if str_eq(source, "rootfs") {
        owned(rootfs_img)
    } else {
        owned(source)
    }
}

/// The two steps of one flash operation: its progress report, then the
/// fastboot command, whose failure ends the installation.
pub open spec fn operation_steps_spec(
    fastboot: Seq<char>,
    serial: Seq<char>,
    op: FlashOperation,
    current: usize,
    total: usize,
    boot_img: Seq<char>,
    rootfs_img: Seq<char>,
) -> Seq<ActionView> {
    match op {
        FlashOperation::Flash { partition, source, flags } => {
            let path = resolve_source_spec(source@, boot_img, rootfs_img);
            let args = if flags@.len() == 0 {
                seq!["-s"@, serial, "flash"@, partition@, path]
            } else {
                seq!["-s"@, serial, "flash"@, partition@] + strings_view(flags@) + seq![path]
            };
            seq![
                ActionView::Report(
                    ProgressView::FlashProgress { current, total, description: "Flashing "@ + partition@ + "..."@ },
                ),
                ActionView::Run {
                    command: command_view(fastboot, args),
                    context: Some("Failed to flash "@ + partition@),
                    tolerant: false,
                },
            ]
        },
        FlashOperation::FlashSparse { partition, source, chunk_size } => {
            let path = resolve_source_spec(source@, boot_img, rootfs_img);
            seq![
                ActionView::Report(
                    ProgressView::FlashProgress {
                        current,
                        total,
                        description: "Flashing "@ + partition@ + " (this may take a while)..."@,
                    },
                ),
                ActionView::Run {
                    command: command_view(fastboot, seq!["-s"@, serial, "-S"@, chunk_size@, "flash"@, partition@, path]),
                    context: Some("Failed to flash "@ + partition@ + " (sparse)"@),
                    tolerant: false,
                },
            ]
        },
        FlashOperation::Format { partition, fs_type } => seq![
            ActionView::Report(
                ProgressView::FlashProgress { current, total, description: "Formatting "@ + partition@ + "..."@ },
            ),
            ActionView::Run {
                command: command_view(fastboot, seq!["-s"@, serial, "format:"@ + fs_type@, partition@]),
                context: Some("Failed to format "@ + partition@ + " as "@ + fs_type@),
                tolerant: false,
            },
        ],
        FlashOperation::Erase { partition } => seq![
            ActionView::Report(
                ProgressView::FlashProgress { current, total, description: "Erasing "@ + partition@ + "..."@ },
            ),
            ActionView::Run {
                command: command_view(fastboot, seq!["-s"@, serial, "erase"@, partition@]),
                context: Some("Failed to erase "@ + partition@),
                tolerant: false,
            },
        ],
        FlashOperation::Oem { args } => {
            let desc = "oem "@ + joined(strings_view(args@), " "@);
            seq![
                ActionView::Report(
                    ProgressView::FlashProgress { current, total, description: "Running "@ + desc + "..."@ },
                ),
                ActionView::Run {
                    command: command_view(fastboot, seq!["-s"@, serial, "oem"@] + strings_view(args@)),
                    context: Some("Failed to run "@ + desc),
                    tolerant: false,
                },
            ]
        },
    }
}

/// Appends the steps of one flash operation (step `current` of `total`),
/// its source resolved to the boot or rootfs image.
pub fn push_operation_steps(
    plan: &mut Vec<Action>,
    fastboot: &Fastboot,
    serial: &str,
    op: &FlashOperation,
    current: usize,
    total: usize,
    boot_img: &str,
    rootfs_img: &str,
)
    ensures
        crate::flashing::progress::actions_view(final(plan)@) == crate::flashing::progress::actions_view(old(plan)@)
            + operation_steps_spec(fastboot.binary_path(), serial@, *op, current, total, boot_img@, rootfs_img@),
{
    let ghost before = crate::flashing::progress::actions_view(plan@);
    let (a, b) = match op {
        FlashOperation::Flash { partition, source, flags } => {
            let path = resolve_source(source.as_str(), boot_img, rootfs_img);
            let desc = cat3("Flashing ", partition.as_str(), "...");
            let cmd = if flags.len() == 0 {
                fastboot.flash(serial, partition.as_str(), path.as_str())
            } else {
                fastboot.flash_with_flags(serial, partition.as_str(), path.as_str(), flags)
            };
            let ctx = cat("Failed to flash ", partition.as_str());
            (flashing(current, total, desc.as_str()), run(cmd, ctx.as_str()))
        },
        FlashOperation::FlashSparse { partition, source, chunk_size } => {
            let path = resolve_source(source.as_str(), boot_img, rootfs_img);
            let desc = cat3("Flashing ", partition.as_str(), " (this may take a while)...");
            let cmd = fastboot.flash_sparse(serial, partition.as_str(), path.as_str(), chunk_size.as_str());
            let ctx = cat3("Failed to flash ", partition.as_str(), " (sparse)");
            (flashing(current, total, desc.as_str()), run(cmd, ctx.as_str()))
        },
        FlashOperation::Format { partition, fs_type } => {
            let desc = cat3("Formatting ", partition.as_str(), "...");
            let cmd = fastboot.format(serial, partition.as_str(), fs_type.as_str());
            let mut ctx = cat3("Failed to format ", partition.as_str(), " as ");
            ctx.append(fs_type.as_str());
            (flashing(current, total, desc.as_str()), run(cmd, ctx.as_str()))
        },
        FlashOperation::Erase { partition } => {
            let desc = cat3("Erasing ", partition.as_str(), "...");
            let cmd = fastboot.erase(serial, partition.as_str());
            let ctx = cat("Failed to erase ", partition.as_str());
            (flashing(current, total, desc.as_str()), run(cmd, ctx.as_str()))
        },
        FlashOperation::Oem { args } => {
            let joined_args = join_strings(args, " ");
            let d = cat("oem ", joined_args.as_str());
            let desc = cat3("Running ", d.as_str(), "...");
            let cmd = fastboot.oem(serial, args);
            let ctx = cat("Failed to run ", d.as_str());
            (flashing(current, total, desc.as_str()), run(cmd, ctx.as_str()))
        },
    };
    let ghost av = a@;
    let ghost bv = b@;
    plan.push(a);
    plan.push(b);
    assert(crate::flashing::progress::actions_view(plan@) =~= before + seq![av, bv]);
}

} // verus!

verus! {

/// The steps of the first `n` operations of `ops`, numbered from 1 of
/// `ops.len()`.
pub open spec fn operations_steps(
    fastboot: Seq<char>,
    serial: Seq<char>,
    ops: Seq<FlashOperation>,
    n: int,
    boot_img: Seq<char>,
    rootfs_img: Seq<char>,
) -> Seq<ActionView>
    decreases n,
{
    if n <= 0 {
        seq![]
    } else {
        operations_steps(fastboot, serial, ops, n - 1, boot_img, rootfs_img) + operation_steps_spec(
            fastboot,
            serial,
            ops[n - 1],
            n as usize,
            ops.len() as usize,
            boot_img,
            rootfs_img,
        )
    }
}

/// The image a flash writes: the decompressed boot image for the source
/// `boot`, the rootfs image for `rootfs`, and otherwise the file the source
/// names.
proof fn lemma_source_images(source: Seq<char>, boot_img: Seq<char>, rootfs_img: Seq<char>)
    ensures
        source == "boot"@ ==> resolve_source_spec(source, boot_img, rootfs_img) == boot_img,
        source == "rootfs"@ ==> resolve_source_spec(source, boot_img, rootfs_img) == rootfs_img,
        source != "boot"@ && source != "rootfs"@ ==> resolve_source_spec(source, boot_img, rootfs_img) == source,
{
    reveal_strlit("boot");
    reveal_strlit("rootfs");
    assert("boot"@.len() == 4 && "rootfs"@.len() == 6);
}

/// The device command an operation runs, written out: each operation acts
/// on its own partition, and a flash writes the image its source names
/// (`boot` the boot image, `rootfs` the rootfs image, any other source that
/// file) as the last argument, after its flags.
pub open spec fn operation_runs(
    fastboot: Seq<char>,
    serial: Seq<char>,
    op: FlashOperation,
    boot_img: Seq<char>,
    rootfs_img: Seq<char>,
    c: crate::hardware::command::CommandView,
) -> bool {
    &&& c.program == fastboot
    &&& c.args.len() >= 3 && c.args[0] == "-s"@ && c.args[1] == serial
    &&& match op {
        FlashOperation::Flash { partition, source, flags } => {
            &&& c.args.len() == 5 + flags@.len()
            &&& c.args[2] == "flash"@ && c.args[3] == partition@
            &&& c.args.subrange(4, c.args.len() - 1) == strings_view(flags@)
            &&& source@ == "boot"@ ==> c.args.last() == boot_img
            &&& source@ == "rootfs"@ ==> c.args.last() == rootfs_img
            &&& (source@ != "boot"@ && source@ != "rootfs"@) ==> c.args.last() == source@
        },
        FlashOperation::FlashSparse { partition, source, chunk_size } => {
            &&& c.args.len() == 7 && c.args[2] == "-S"@ && c.args[3] == chunk_size@
            &&& c.args[4] == "flash"@ && c.args[5] == partition@
            &&& source@ == "boot"@ ==> c.args[6] == boot_img
            &&& source@ == "rootfs"@ ==> c.args[6] == rootfs_img
            &&& (source@ != "boot"@ && source@ != "rootfs"@) ==> c.args[6] == source@
        },
        FlashOperation::Format { partition, fs_type } => c.args.len() == 4 && c.args[2] == "format:"@ + fs_type@
            && c.args[3] == partition@,
        FlashOperation::Erase { partition } => c.args.len() == 4 && c.args[2] == "erase"@ && c.args[3] == partition@,
        FlashOperation::Oem { args } => c.args.len() == 3 + args@.len() && c.args[2] == "oem"@ && c.args.skip(3)
            == strings_view(args@),
    }
}

/// Operation `i` of `ops` in the steps `st`: announced as step `i + 1` of all
/// at `2 i`, its command (not tolerated to fail) at `2 i + 1`.
pub open spec fn operation_at(
    st: Seq<ActionView>,
    i: int,
    fastboot: Seq<char>,
    serial: Seq<char>,
    ops: Seq<FlashOperation>,
    boot_img: Seq<char>,
    rootfs_img: Seq<char>,
) -> bool {
    &&& st[2 * i] matches ActionView::Report(ProgressView::FlashProgress { current, total, .. }) && current == i + 1
        && total == ops.len()
    &&& st[2 * i + 1] matches ActionView::Run { command, tolerant, .. } && !tolerant && operation_runs(
        fastboot,
        serial,
        ops[i],
        boot_img,
        rootfs_img,
        command,
    )
}

/// The flash operations run one by one, in their order: operation `i`
/// (of `n`) is announced as step `i + 1` of `n` at position `2 i` and its
/// fastboot command, whose failure ends the installation, follows at
/// `2 i + 1`; that command acts on the operation's own partition with the
/// image its source names.
pub proof fn lemma_operations_in_order(
    fastboot: Seq<char>,
    serial: Seq<char>,
    ops: Seq<FlashOperation>,
    n: int,
    boot_img: Seq<char>,
    rootfs_img: Seq<char>,
)
    requires
        0 <= n <= ops.len(),
        ops.len() <= usize::MAX,
    ensures
        operations_steps(fastboot, serial, ops, n, boot_img, rootfs_img).len() == 2 * n,
        forall|i: int|
            0 <= i < n ==> #[trigger] operation_at(
                operations_steps(fastboot, serial, ops, n, boot_img, rootfs_img),
                i,
                fastboot,
                serial,
                ops,
                boot_img,
                rootfs_img,
            ),
    decreases n,
{
    if n > 0 {
        lemma_operations_in_order(fastboot, serial, ops, n - 1, boot_img, rootfs_img);
        let prev = operations_steps(fastboot, serial, ops, n - 1, boot_img, rootfs_img);
        let last = operation_steps_spec(fastboot, serial, ops[n - 1], n as usize, ops.len() as usize, boot_img, rootfs_img);
        let st = operations_steps(fastboot, serial, ops, n, boot_img, rootfs_img);
        assert(st == prev + last);
        assert(last.len() == 2);
        assert forall|i: int| 0 <= i < n implies #[trigger] operation_at(st, i, fastboot, serial, ops, boot_img, rootfs_img) by {
            if i < n - 1 {
                assert(operation_at(prev, i, fastboot, serial, ops, boot_img, rootfs_img));
                assert(st[2 * i] == prev[2 * i]);
                assert(st[2 * i + 1] == prev[2 * i + 1]);
            } else {
                assert(st[2 * i] == last[0]);
                assert(st[2 * i + 1] == last[1]);
                reveal_strlit("boot");
                reveal_strlit("rootfs");
                match ops[i] {
                    FlashOperation::Flash { partition, source, flags } => {
                        lemma_source_images(source@, boot_img, rootfs_img);
                        let c = last[1]->Run_command;
                        if flags@.len() > 0 {
                            assert(c.args.subrange(4, c.args.len() - 1) =~= strings_view(flags@));
                        } else {
                            assert(c.args.subrange(4, c.args.len() - 1) =~= strings_view(flags@));
                        }
                    },
                    FlashOperation::FlashSparse { partition, source, chunk_size } => {
                        lemma_source_images(source@, boot_img, rootfs_img);
                    },
                    FlashOperation::Oem { args } => {
                        let c = last[1]->Run_command;
                        assert(c.args.skip(3) =~= strings_view(args@));
                    },
                    _ => {},
                }
            }
        }
    }
}

/// Appends the steps of every operation, in order.
pub fn push_all_operations(
    plan: &mut Vec<Action>,
    fastboot: &Fastboot,
    serial: &str,
    ops: &Vec<FlashOperation>,
    boot_img: &str,
    rootfs_img: &str,
)
    ensures
        crate::flashing::progress::actions_view(final(plan)@) == crate::flashing::progress::actions_view(old(plan)@)
            + operations_steps(fastboot.binary_path(), serial@, ops@, ops.len() as int, boot_img@, rootfs_img@),
{
    let ghost start = crate::flashing::progress::actions_view(plan@);
    for i in 0..ops.len()
        invariant
            crate::flashing::progress::actions_view(plan@) == start + operations_steps(
                fastboot.binary_path(),
                serial@,
                ops@,
                i as int,
                boot_img@,
                rootfs_img@,
            ),
    {
        let ghost mid = crate::flashing::progress::actions_view(plan@);
        push_operation_steps(plan, fastboot, serial, &ops[i], i + 1, ops.len(), boot_img, rootfs_img);
        assert(crate::flashing::progress::actions_view(plan@) =~= start + operations_steps(
            fastboot.binary_path(),
            serial@,
            ops@,
            i + 1,
            boot_img@,
            rootfs_img@,
        ));
    }
}

} // verus!

verus! {

/// The end of a fastboot installation: reboot to the bootloader (a failure
/// is only logged: the device may be in fastboot already), wait for
/// fastboot, run every flash operation, reboot, and report completion.
pub open spec fn fastboot_tail_spec(
    adb: Seq<char>,
    fastboot: Seq<char>,
    serial: Seq<char>,
    ops: Seq<FlashOperation>,
    boot_img: Seq<char>,
    rootfs_img: Seq<char>,
) -> Seq<ActionView> {
    seq![
        crate::flashing::progress::status_view("Rebooting to bootloader..."@),
        ActionView::Run {
            command: command_view(adb, seq!["-s"@, serial, "reboot"@, "bootloader"@]),
            context: None,
            tolerant: true,
        },
        crate::flashing::progress::status_view("Waiting for device in fastboot mode..."@),
        ActionView::WaitForFastboot,
    ] + operations_steps(fastboot, serial, ops, ops.len() as int, boot_img, rootfs_img) + seq![
        crate::flashing::progress::status_view("Rebooting device..."@),
        ActionView::Run { command: command_view(fastboot, seq!["-s"@, serial, "reboot"@]), context: None, tolerant: false },
        ActionView::Report(ProgressView::Complete),
    ]
}

/// Appends the end of a fastboot installation.
pub fn push_fastboot_tail(
    plan: &mut Vec<Action>,
    adb: &crate::hardware::adb::Adb,
    fastboot: &Fastboot,
    serial: &str,
    ops: &Vec<FlashOperation>,
    boot_img: &str,
    rootfs_img: &str,
)
    ensures
        crate::flashing::progress::actions_view(final(plan)@) == crate::flashing::progress::actions_view(old(plan)@)
            + fastboot_tail_spec(adb.binary_path(), fastboot.binary_path(), serial@, ops@, boot_img@, rootfs_img@),
{
    let ghost start = crate::flashing::progress::actions_view(plan@);
    plan.push(crate::flashing::progress::status("Rebooting to bootloader..."));
    plan.push(crate::flashing::progress::try_run(adb.reboot_bootloader(serial)));
    plan.push(crate::flashing::progress::status("Waiting for device in fastboot mode..."));
    plan.push(Action::WaitForFastboot);
    let ghost head = crate::flashing::progress::actions_view(plan@);
    assert(head =~= start + seq![
        crate::flashing::progress::status_view("Rebooting to bootloader..."@),
        ActionView::Run {
            command: command_view(adb.binary_path(), seq!["-s"@, serial@, "reboot"@, "bootloader"@]),
            context: None,
            tolerant: true,
        },
        crate::flashing::progress::status_view("Waiting for device in fastboot mode..."@),
        ActionView::WaitForFastboot,
    ]);
    push_all_operations(plan, fastboot, serial, ops, boot_img, rootfs_img);
    let ghost mid = crate::flashing::progress::actions_view(plan@);
    plan.push(crate::flashing::progress::status("Rebooting device..."));
    plan.push(crate::flashing::progress::run_plain(fastboot.reboot(serial)));
    plan.push(crate::flashing::progress::report(crate::flashing::progress::InstallProgress::Complete));
    assert(crate::flashing::progress::actions_view(plan@) =~= mid + seq![
        crate::flashing::progress::status_view("Rebooting device..."@),
        ActionView::Run { command: command_view(fastboot.binary_path(), seq!["-s"@, serial@, "reboot"@]), context: None, tolerant: false },
        ActionView::Report(ProgressView::Complete),
    ]);
    assert(crate::flashing::progress::actions_view(plan@) =~= start + fastboot_tail_spec(
        adb.binary_path(),
        fastboot.binary_path(),
        serial@,
        ops@,
        boot_img@,
        rootfs_img@,
    ));
}

/// The end of a fastboot installation runs every flash operation, in
/// order, between getting into fastboot and rebooting: after the four steps
/// that reboot to the bootloader and wait for fastboot, operation `i` is
/// step `i + 1` of all, on its own partition, with `boot` and `rootfs`
/// naming the given images; then the device reboots.
pub proof fn lemma_fastboot_tail_runs_operations(
    adb: Seq<char>,
    fastboot: Seq<char>,
    serial: Seq<char>,
    ops: Seq<FlashOperation>,
    boot_img: Seq<char>,
    rootfs_img: Seq<char>,
)
    requires
        ops.len() <= usize::MAX,
    ensures
        ({
            let t = fastboot_tail_spec(adb, fastboot, serial, ops, boot_img, rootfs_img);
            &&& t.len() == 4 + 2 * ops.len() + 3
            &&& t[3] == ActionView::WaitForFastboot
            &&& forall|i: int|
                0 <= i < ops.len() ==> #[trigger] operation_at(t.skip(4), i, fastboot, serial, ops, boot_img, rootfs_img)
            &&& t[t.len() - 2] matches ActionView::Run { command, .. } && command == command_view(
                fastboot,
                seq!["-s"@, serial, "reboot"@],
            )
        }),
{
    let n = ops.len() as int;
    lemma_operations_in_order(fastboot, serial, ops, n, boot_img, rootfs_img);
    let t = fastboot_tail_spec(adb, fastboot, serial, ops, boot_img, rootfs_img);
    let st = operations_steps(fastboot, serial, ops, n, boot_img, rootfs_img);
    assert forall|i: int| 0 <= i < n implies #[trigger] operation_at(t.skip(4), i, fastboot, serial, ops, boot_img, rootfs_img) by {
        assert(operation_at(st, i, fastboot, serial, ops, boot_img, rootfs_img));
        assert(t.skip(4)[2 * i] == st[2 * i]);
        assert(t.skip(4)[2 * i + 1] == st[2 * i + 1]);
    }
}

} // verus!
