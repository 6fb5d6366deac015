use vstd::prelude::*;
use crate::hardware::command::{CommandLine, CommandView, command, command_view, args1, args2, args3, args4, args5, owned};
use crate::models::device::{str_eq, strings_view};
use crate::text::{
    chars_of, contains, contains_spec, lines, lines_spec, parse_unsigned, parse_unsigned_spec, slice_of,
    starts_with, starts_with_spec, string_of, trim, trim_spec, words, words_spec, cat, cat3, join_strings, joined,
};
use crate::paths::{join_path, join_spec};

verus! {

broadcast use vstd::string::group_string_axioms;

/// A device as `adb devices` lists it.
#[derive(Debug, Clone)]
pub struct AdbDevice {
    pub serial: String,
    pub state: String,
}

/// Where a partition is dumped on the device before it is pulled.
pub open spec fn backup_remote_spec(partition: Seq<char>) -> Seq<char> {
    "/data/local/tmp/sidestep-"@ + partition + ".img"@
}

/// ADB command wrapper: the `adb` program to run.
#[derive(Debug, Clone)]
pub struct Adb {
    binary_path: String,
}

/// `s` with leading and trailing whitespace removed (`str::trim`).
pub fn trim_str(s: &str) -> (r: String)
    ensures
        r@ == trim_spec(s@),
{
    let v = chars_of(s);
    let t = trim(&v);
    string_of(&t)
}

/// The lines after the first (the header line of `adb devices`).
pub open spec fn after_header(ls: Seq<Seq<char>>) -> Seq<Seq<char>> {
    if ls.len() > 0 {
        ls.drop_first()
    } else {
        ls
    }
}

/// The (serial, state) pairs of the lines that have at least two words.
pub open spec fn adb_device_rows(ls: Seq<Seq<char>>) -> Seq<(Seq<char>, Seq<char>)>
    decreases ls.len(),
{
    if ls.len() == 0 {
        seq![]
    } else {
        let w = words_spec(ls.last());
        let rest = adb_device_rows(ls.drop_last());
        if w.len() >= 2 {
            rest.push((w[0], w[1]))
        } else {
            rest
        }
    }
}

pub open spec fn adb_devices_view(v: Seq<AdbDevice>) -> Seq<(Seq<char>, Seq<char>)> {
    Seq::new(v.len(), |i: int| (v[i].serial@, v[i].state@))
}

/// The value that a `dumpsys battery` line gives: the trimmed line starts
/// with `level:` and what follows, trimmed, is a number from 0 to 255.
pub open spec fn level_of_line(l: Seq<char>) -> Option<nat> {
    let t = trim_spec(l);
    if starts_with_spec(t, "level:"@) {
        parse_unsigned_spec(trim_spec(t.skip(6)), 255)
    } else {
        None
    }
}

/// The level of the first line that gives one.
pub open spec fn first_level(ls: Seq<Seq<char>>) -> Option<nat>
    decreases ls.len(),
{
    if ls.len() == 0 {
        None
    } else if level_of_line(ls[0]) is Some {
        level_of_line(ls[0])
    } else {
        first_level(ls.drop_first())
    }
}

pub open spec fn as_u8(o: Option<nat>) -> Option<u8> {
    match o {
        Some(n) => Some(n as u8),
        None => None,
    }
}

/// Whether the bootloader is unlocked, from `ro.boot.flash.locked` and, when
/// that is not `0`, `ro.boot.verifiedbootstate` (`orange` means unverified).
pub open spec fn unlocked_spec(flash_locked: Seq<char>, boot_state: Seq<char>) -> bool {
    flash_locked == "0"@ || boot_state == "orange"@
}

impl Adb {
    /// The wrapper for the `adb` found in `ADB_PATH` (its value, if set) or
    /// else on the search path.
    pub fn new(adb_path: Option<String>) -> (r: Self)
        ensures
            r.binary_path() == (match adb_path {
                Some(p) => p@,
                None => "adb"@,
            }),
    {
        match adb_path {
            Some(p) => Adb { binary_path: p },
            None => Adb { binary_path: owned("adb") },
        }
    }

    pub closed spec fn binary_path(&self) -> Seq<char> {
        self.binary_path@
    }

    fn run(&self, args: Vec<String>) -> (r: CommandLine)
        ensures
            r@ == command_view(self.binary_path(), strings_view(args@)),
    {
        command(self.binary_path.as_str(), args)
    }

    /// `adb devices`.
    pub fn devices(&self) -> (r: CommandLine)
        ensures
            r@ == command_view(self.binary_path(), seq!["devices"@]),
    {
        self.run(args1("devices"))
    }

    /// The devices listed in the output of `adb devices`: after the header
    /// line, every line with at least two words gives its first two.
    pub fn parse_devices(stdout: &str) -> (r: Vec<AdbDevice>)
        ensures
            adb_devices_view(r@) == adb_device_rows(after_header(lines_spec(stdout@))),
    {
        let v = chars_of(stdout);
        let ls = lines(&v);
        let ghost all = lines_spec(stdout@);
        let ghost hs = after_header(all);
        let mut r: Vec<AdbDevice> = Vec::new();
        if ls.len() == 0 {
            assert(adb_devices_view(r@) =~= adb_device_rows(hs));
            return r;
        }
        let mut i: usize = 1;
        while i < ls.len()
            invariant
                1 <= i <= ls.len(),
                all.len() == ls.len(),
                forall|j: int| 0 <= j < ls.len() ==> (#[trigger] ls@[j])@ == all[j],
                hs == all.drop_first(),
                adb_devices_view(r@) == adb_device_rows(hs.take(i - 1)),
            decreases ls.len() - i,
        {
            let w = words(&ls[i]);
            assert(hs.take(i as int).drop_last() =~= hs.take(i - 1));
            assert(hs.take(i as int).last() == all[i as int]);
            let ghost before = adb_devices_view(r@);
            if w.len() >= 2 {
                let d = AdbDevice { serial: string_of(&w[0]), state: string_of(&w[1]) };
                r.push(d);
                assert(adb_devices_view(r@) =~= before.push((w@[0]@, w@[1]@)));
            }
            i = i + 1;
        }
        assert(hs.take(ls.len() - 1) =~= hs);
        r
    }

    /// `adb -s SERIAL shell getprop PROP`.
    pub fn getprop(&self, serial: &str, prop: &str) -> (r: CommandLine)
        ensures
            r@ == command_view(self.binary_path(), seq!["-s"@, serial@, "shell"@, "getprop"@, prop@]),
    {
        self.run(args5("-s", serial, "shell", "getprop", prop))
    }

    /// The value a `getprop` printed: its output, trimmed.
    pub fn prop_value(stdout: &str) -> (r: String)
        ensures
            r@ == trim_spec(stdout@),
    {
        trim_str(stdout)
    }

    /// The device codename (`ro.product.device`).
    pub fn get_codename(&self, serial: &str) -> (r: CommandLine)
        ensures
            r@ == command_view(self.binary_path(), seq!["-s"@, serial@, "shell"@, "getprop"@, "ro.product.device"@]),
    {
        self.getprop(serial, "ro.product.device")
    }

    /// The device model name (`ro.product.model`).
    pub fn get_model(&self, serial: &str) -> (r: CommandLine)
        ensures
            r@ == command_view(self.binary_path(), seq!["-s"@, serial@, "shell"@, "getprop"@, "ro.product.model"@]),
    {
        self.getprop(serial, "ro.product.model")
    }

    /// The Android version (`ro.build.version.release`).
    pub fn get_android_version(&self, serial: &str) -> (r: CommandLine)
        ensures
            r@ == command_view(
                self.binary_path(),
                seq!["-s"@, serial@, "shell"@, "getprop"@, "ro.build.version.release"@],
            ),
    {
        self.getprop(serial, "ro.build.version.release")
    }

    /// The build display id (`ro.build.display.id`).
    pub fn get_build_id(&self, serial: &str) -> (r: CommandLine)
        ensures
            r@ == command_view(self.binary_path(), seq!["-s"@, serial@, "shell"@, "getprop"@, "ro.build.display.id"@]),
    {
        self.getprop(serial, "ro.build.display.id")
    }

    /// `adb -s SERIAL shell CMD`.
    pub fn shell(&self, serial: &str, cmd: &str) -> (r: CommandLine)
        ensures
            r@ == command_view(self.binary_path(), seq!["-s"@, serial@, "shell"@, cmd@]),
    {
        self.run(args4("-s", serial, "shell", cmd))
    }

    /// `adb -s SERIAL reboot bootloader`.
    pub fn reboot_bootloader(&self, serial: &str) -> (r: CommandLine)
        ensures
            r@ == command_view(self.binary_path(), seq!["-s"@, serial@, "reboot"@, "bootloader"@]),
    {
        self.run(args4("-s", serial, "reboot", "bootloader"))
    }

    /// `adb -s SERIAL reboot recovery`.
    pub fn reboot_recovery(&self, serial: &str) -> (r: CommandLine)
        ensures
            r@ == command_view(self.binary_path(), seq!["-s"@, serial@, "reboot"@, "recovery"@]),
    {
        self.run(args4("-s", serial, "reboot", "recovery"))
    }

    /// `adb -s SERIAL reboot download` (Samsung download mode).
    pub fn reboot_download(&self, serial: &str) -> (r: CommandLine)
        ensures
            r@ == command_view(self.binary_path(), seq!["-s"@, serial@, "reboot"@, "download"@]),
    {
        self.run(args4("-s", serial, "reboot", "download"))
    }

    /// `adb -s SERIAL wait-for-recovery`.
    pub fn wait_for_recovery(&self, serial: &str) -> (r: CommandLine)
        ensures
            r@ == command_view(self.binary_path(), seq!["-s"@, serial@, "wait-for-recovery"@]),
    {
        self.run(args3("-s", serial, "wait-for-recovery"))
    }

    /// `adb -s SERIAL wait-for-sideload`.
    pub fn wait_for_sideload(&self, serial: &str) -> (r: CommandLine)
        ensures
            r@ == command_view(self.binary_path(), seq!["-s"@, serial@, "wait-for-sideload"@]),
    {
        self.run(args3("-s", serial, "wait-for-sideload"))
    }

    /// `adb -s SERIAL sideload ZIP`.
    pub fn sideload(&self, serial: &str, zip_path: &str) -> (r: CommandLine)
        ensures
            r@ == command_view(self.binary_path(), seq!["-s"@, serial@, "sideload"@, zip_path@]),
    {
        self.run(args4("-s", serial, "sideload", zip_path))
    }

    /// Whether a finished `adb sideload` failed: a non-zero exit is only a
    /// failure when the error output reports one (`sideload connection
    /// failed`, or `error`), since adb may exit non-zero after serving the
    /// whole file.
    pub fn sideload_failed(success: bool, stderr: &str) -> (r: bool)
        ensures
            r == (!success && (contains_spec(stderr@, "sideload connection failed"@) || contains_spec(stderr@, "error"@))),
    {
        if success {
            return false;
        }
        let e = chars_of(stderr);
        let p1 = chars_of("sideload connection failed");
        let p2 = chars_of("error");
        contains(&e, &p1) || contains(&e, &p2)
    }

    /// `adb -s SERIAL push LOCAL REMOTE`.
    pub fn push(&self, serial: &str, local: &str, remote: &str) -> (r: CommandLine)
        ensures
            r@ == command_view(self.binary_path(), seq!["-s"@, serial@, "push"@, local@, remote@]),
    {
        self.run(args5("-s", serial, "push", local, remote))
    }

    /// `adb -s SERIAL pull REMOTE LOCAL`.
    pub fn pull(&self, serial: &str, remote: &str, local: &str) -> (r: CommandLine)
        ensures
            r@ == command_view(self.binary_path(), seq!["-s"@, serial@, "pull"@, remote@, local@]),
    {
        self.run(args5("-s", serial, "pull", remote, local))
    }

    /// The battery level that `cat /sys/class/power_supply/battery/capacity`
    /// printed, if its trimmed output is a number from 0 to 255.
    pub fn battery_from_capacity(stdout: &str) -> (r: Option<u8>)
        ensures
            r == as_u8(parse_unsigned_spec(trim_spec(stdout@), 255)),
    {
        let t = trim_str(stdout);
        match parse_unsigned(t.as_str(), 255) {
            Some(n) => Some(n as u8),
            None => None,
        }
    }

    /// The battery level of the first `level:` line of `dumpsys battery`
    /// output that holds one.
    pub fn battery_from_dumpsys(dump: &str) -> (r: Option<u8>)
        ensures
            r == as_u8(first_level(lines_spec(dump@))),
    {
        let v = chars_of(dump);
        let ls = lines(&v);
        let ghost all = lines_spec(dump@);
        let prefix = chars_of("level:");
        proof {
            reveal_strlit("level:");
        }
        let mut i: usize = 0;
        assert(all.skip(0) =~= all);
        while i < ls.len()
            invariant
                i <= ls.len(),
                all.len() == ls.len(),
                all == lines_spec(dump@),
                prefix@ == "level:"@,
                prefix@.len() == 6,
                forall|j: int| 0 <= j < ls.len() ==> (#[trigger] ls@[j])@ == all[j],
                first_level(all) == first_level(all.skip(i as int)),
            decreases ls.len() - i,
        {
            assert(all.skip(i as int)[0] == all[i as int]);
            assert(all.skip(i as int).drop_first() =~= all.skip(i + 1));
            let t = trim(&ls[i]);
            if starts_with(&t, &prefix) {
                let rest = slice_of(&t, 6, t.len());
                assert(rest@ =~= t@.skip(6));
                let rt = trim(&rest);
                let rs = string_of(&rt);
                match parse_unsigned(rs.as_str(), 255) {
                    Some(n) => {
                        return Some(n as u8);
                    },
                    None => {},
                }
            }
            i = i + 1;
        }
        assert(all.skip(i as int) =~= Seq::<Seq<char>>::empty());
        None
    }

    /// Whether the bootloader is unlocked, from the `ro.boot.flash.locked`
    /// value and, needed only when that is not `0`, the
    /// `ro.boot.verifiedbootstate` value.
    pub fn unlocked_from_props(flash_locked: &str, boot_state: &str) -> (r: bool)
        ensures
            r == unlocked_spec(flash_locked@, boot_state@),
    {
        str_eq(flash_locked, "0") || str_eq(boot_state, "orange")
    }

    /// Whether `su -c id` printed the id of root (`uid=0`).
    pub fn has_root(id_output: &str) -> (r: bool)
        ensures
            r == contains_spec(id_output@, "uid=0"@),
    {
        let o = chars_of(id_output);
        let p = chars_of("uid=0");
        contains(&o, &p)
    }

    /// The partitions that carry cellular identity (IMEI, modem
    /// calibration), in the order they are backed up.
    pub fn critical_partitions() -> (r: Vec<String>)
        ensures
            strings_view(r@) == seq!["efs"@, "modemst1"@, "modemst2"@, "persist"@, "fsg"@, "nvram"@],
    {
        let mut r: Vec<String> = Vec::new();
        r.push(owned("efs"));
        r.push(owned("modemst1"));
        r.push(owned("modemst2"));
        r.push(owned("persist"));
        r.push(owned("fsg"));
        r.push(owned("nvram"));
        assert(strings_view(r@) =~= seq!["efs"@, "modemst1"@, "modemst2"@, "persist"@, "fsg"@, "nvram"@]);
        r
    }

    /// The root check that a backup starts with: `su -c id` in a shell.
    pub fn root_check(&self, serial: &str) -> (r: CommandLine)
        ensures
            r@ == command_view(self.binary_path(), seq!["-s"@, serial@, "shell"@, "su -c id 2>/dev/null"@]),
    {
        self.shell(serial, "su -c id 2>/dev/null")
    }

    /// Where a partition is dumped on the device before it is pulled.
    pub fn backup_remote_path(partition: &str) -> (r: String)
        ensures
            r@ == backup_remote_spec(partition@),
    {
        cat3("/data/local/tmp/sidestep-", partition, ".img")
    }

    /// Dump a partition, by its portable by-name link, to its remote path
    /// as root.
    pub fn backup_dump(&self, serial: &str, partition: &str) -> (r: CommandLine)
        ensures
            r@ == command_view(
                self.binary_path(),
                seq![
                    "-s"@,
                    serial@,
                    "shell"@,
                    "su -c 'dd if=/dev/block/bootdevice/by-name/"@ + partition@ + " of="@ + backup_remote_spec(
                        partition@,
                    ) + " 2>/dev/null'"@,
                ],
            ),
    {
        let remote = Self::backup_remote_path(partition);
        let mut dd = cat3("su -c 'dd if=/dev/block/bootdevice/by-name/", partition, " of=");
        dd.append(remote.as_str());
        dd.append(" 2>/dev/null'");
        self.shell(serial, dd.as_str())
    }

    /// Remove a partition's dump from the device.
    pub fn backup_cleanup(&self, serial: &str, partition: &str) -> (r: CommandLine)
        ensures
            r@ == command_view(
                self.binary_path(),
                seq!["-s"@, serial@, "shell"@, "su -c 'rm -f "@ + backup_remote_spec(partition@) + "'"@],
            ),
    {
        let remote = Self::backup_remote_path(partition);
        let mut rm = cat("su -c 'rm -f ", remote.as_str());
        rm.append("'");
        self.shell(serial, rm.as_str())
    }

    /// The local file a partition is pulled to: `{dest_dir}/{partition}.img`.
    pub fn backup_local_path(dest_dir: &str, partition: &str) -> (r: String)
        ensures
            r@ == join_spec(dest_dir@, partition@ + ".img"@),
    {
        let name = cat(partition, ".img");
        join_path(dest_dir, name.as_str())
    }

    /// Where the partitions of a device are backed up:
    /// `{base}/imei-backup/{serial}`.
    pub fn backup_dir(base_download_dir: &str, serial: &str) -> (r: String)
        ensures
            r@ == join_spec(join_spec(base_download_dir@, "imei-backup"@), serial@),
    {
        let d = join_path(base_download_dir, "imei-backup");
        join_path(d.as_str(), serial)
    }

    /// The status line after a backup: which partitions were saved and
    /// where, or nothing when none was.
    pub fn backup_report(saved: &Vec<String>, backup_dir: &str) -> (r: Option<String>)
        ensures
            saved.len() == 0 ==> r is None,
            saved.len() > 0 ==> r is Some && r->Some_0@ == "Backed up "@ + joined(strings_view(saved@), ", "@)
                + " to "@ + backup_dir@,
    {
        if saved.len() == 0 {
            return None;
        }
        let names = join_strings(saved, ", ");
        let mut r = cat("Backed up ", names.as_str());
        r.append(" to ");
        r.append(backup_dir);
        Some(r)
    }

    /// A pulled partition is kept only when the pull succeeded and gave a
    /// non-empty file: an empty one means the partition does not exist.
    pub fn backup_kept(pulled: bool, local_size: Option<u64>) -> (r: bool)
        ensures
            r == (pulled && local_size is Some && local_size->Some_0 > 0),
    {
        pulled && match local_size {
            Some(n) => n > 0,
            None => false,
        }
    }
}

} // verus!
