use vstd::prelude::*;
use crate::hardware::command::{
    CommandLine, command, command_view, args1, args3, args4, args5, extend_strings, lemma_strings_view_push, owned,
};
use crate::models::device::{str_eq, strings_view};
use crate::text::{chars_of, lines, lines_spec, slice_of, starts_with, starts_with_spec, string_of, words, words_spec};

verus! {

broadcast use vstd::string::group_string_axioms;

/// A device in fastboot mode.
#[derive(Debug, Clone)]
pub struct FastbootDevice {
    pub serial: String,
    pub product: Option<String>,
}

/// Fastboot command wrapper: the `fastboot` program to run.
#[derive(Debug, Clone)]
pub struct Fastboot {
    binary_path: String,
}

/// The serials of the lines whose last word is `fastboot`.
pub open spec fn fastboot_rows(ls: Seq<Seq<char>>) -> Seq<Seq<char>>
    decreases ls.len(),
{
    if ls.len() == 0 {
        seq![]
    } else {
        let w = words_spec(ls.last());
        let rest = fastboot_rows(ls.drop_last());
        if w.len() > 0 && w.last() == "fastboot"@ {
            rest.push(w[0])
        } else {
            rest
        }
    }
}

pub open spec fn fastboot_serials(v: Seq<FastbootDevice>) -> Seq<Seq<char>> {
    Seq::new(v.len(), |i: int| v[i].serial@)
}

/// The value a `getvar` line gives: what follows `VAR: ` on the first line
/// that starts with it, or nothing.
pub open spec fn getvar_value(ls: Seq<Seq<char>>, var: Seq<char>) -> Seq<char>
    decreases ls.len(),
{
    let p = var + ": "@;
    if ls.len() == 0 {
        seq![]
    } else if starts_with_spec(ls[0], p) {
        ls[0].skip(p.len() as int)
    } else {
        getvar_value(ls.drop_first(), var)
    }
}

impl Fastboot {
    /// The wrapper for the `fastboot` found in `FASTBOOT_PATH` (its value,
    /// if set) or else on the search path.
    pub fn new(fastboot_path: Option<String>) -> (r: Self)
        ensures
            r.binary_path() == (match fastboot_path {
                Some(p) => p@,
                None => "fastboot"@,
            }),
    {
        match fastboot_path {
            Some(p) => Fastboot { binary_path: p },
            None => Fastboot { binary_path: owned("fastboot") },
        }
    }

    /// The wrapper for the `fastboot` at `path`.
    pub fn with_path(path: String) -> (r: Self)
        ensures
            r.binary_path() == path@,
    {
        Fastboot { binary_path: path }
    }

    pub closed spec fn binary_path(&self) -> Seq<char> {
        self.binary_path@
    }

    fn run(&self, args: Vec<String>) -> (r: CommandLine)
        ensures
            r@ == command_view(self.binary_path(), strings_view(args@)),
    {
        command(self.binary_path.as_str(), args)
    }

    /// `fastboot devices`.
    pub fn devices(&self) -> (r: CommandLine)
        ensures
            r@ == command_view(self.binary_path(), seq!["devices"@]),
    {
        self.run(args1("devices"))
    }

    /// The devices listed in the output of `fastboot devices`: each line
    /// whose last word is `fastboot` gives its first word as the serial.
    pub fn parse_devices(stdout: &str) -> (r: Vec<FastbootDevice>)
        ensures
            fastboot_serials(r@) == fastboot_rows(lines_spec(stdout@)),
            forall|i: int| 0 <= i < r.len() ==> (#[trigger] r@[i]).product is None,
    {
        let v = chars_of(stdout);
        let ls = lines(&v);
        let ghost all = lines_spec(stdout@);
        let mut r: Vec<FastbootDevice> = Vec::new();
        let fb = chars_of("fastboot");
        let mut i: usize = 0;
        while i < ls.len()
            invariant
                i <= ls.len(),
                all.len() == ls.len(),
                fb@ == "fastboot"@,
                forall|j: int| 0 <= j < ls.len() ==> (#[trigger] ls@[j])@ == all[j],
                fastboot_serials(r@) == fastboot_rows(all.take(i as int)),
                forall|j: int| 0 <= j < r.len() ==> (#[trigger] r@[j]).product is None,
            decreases ls.len() - i,
        {
            let w = words(&ls[i]);
            assert(all.take(i + 1).drop_last() =~= all.take(i as int));
            assert(all.take(i + 1).last() == all[i as int]);
            let ghost before = fastboot_serials(r@);
            if w.len() > 0 && crate::text::chars_equal(&w[w.len() - 1], &fb) {
                let d = FastbootDevice { serial: string_of(&w[0]), product: None };
                r.push(d);
                assert(fastboot_serials(r@) =~= before.push(w@[0]@));
            } else {
                assert(fastboot_serials(r@) =~= before);
            }
            i = i + 1;
        }
        assert(all.take(ls.len() as int) =~= all);
        r
    }

    /// Whether a device list holds the device with this serial.
    pub fn lists_serial(devices: &Vec<FastbootDevice>, serial: &str) -> (r: bool)
        ensures
            r == fastboot_serials(devices@).contains(serial@),
    {
        for i in 0..devices.len()
            invariant
                forall|j: int| 0 <= j < i ==> (#[trigger] devices@[j]).serial@ != serial@,
        {
            if str_eq(devices[i].serial.as_str(), serial) {
                assert(fastboot_serials(devices@)[i as int] == serial@);
                return true;
            }
        }
        assert(!fastboot_serials(devices@).contains(serial@)) by {
            if fastboot_serials(devices@).contains(serial@) {
                let k = choose|k: int| 0 <= k < devices.len() && fastboot_serials(devices@)[k] == serial@;
                assert(devices@[k].serial@ == serial@);
            }
        }
        false
    }

    /// `fastboot -s SERIAL getvar VAR`.
    pub fn getvar(&self, serial: &str, var: &str) -> (r: CommandLine)
        ensures
            r@ == command_view(self.binary_path(), seq!["-s"@, serial@, "getvar"@, var@]),
    {
        self.run(args4("-s", serial, "getvar", var))
    }

    /// The value of `var` in the (error) output of `getvar`: what follows
    /// `VAR: ` on the first line that starts with it, or empty.
    pub fn parse_getvar(stderr: &str, var: &str) -> (r: String)
        ensures
            r@ == getvar_value(lines_spec(stderr@), var@),
    {
        let v = chars_of(stderr);
        let ls = lines(&v);
        let ghost all = lines_spec(stderr@);
        let mut p = chars_of(var);
        p.push(':');
        p.push(' ');
        proof {
            reveal_strlit(": ");
        }
        assert(p@ =~= var@ + ": "@);
        let mut i: usize = 0;
        assert(all.skip(0) =~= all);
        while i < ls.len()
            invariant
                i <= ls.len(),
                all.len() == ls.len(),
                all == lines_spec(stderr@),
                p@ == var@ + ": "@,
                forall|j: int| 0 <= j < ls.len() ==> (#[trigger] ls@[j])@ == all[j],
                getvar_value(all, var@) == getvar_value(all.skip(i as int), var@),
            decreases ls.len() - i,
        {
            assert(all.skip(i as int)[0] == all[i as int]);
            assert(all.skip(i as int).drop_first() =~= all.skip(i + 1));
            if starts_with(&ls[i], &p) {
                let rest = slice_of(&ls[i], p.len(), ls[i].len());
                assert(rest@ =~= all[i as int].skip(p@.len() as int));
                return string_of(&rest);
            }
            i = i + 1;
        }
        assert(all.skip(i as int) =~= Seq::<Seq<char>>::empty());
        String::new()
    }

    /// Whether an `unlocked` value says the bootloader is unlocked.
    pub fn is_unlocked_value(value: &str) -> (r: bool)
        ensures
            r == (value@ == "yes"@),
    {
        str_eq(value, "yes")
    }

    /// `fastboot -s SERIAL oem unlock`.
    pub fn oem_unlock(&self, serial: &str) -> (r: CommandLine)
        ensures
            r@ == command_view(self.binary_path(), seq!["-s"@, serial@, "oem"@, "unlock"@]),
    {
        self.run(args4("-s", serial, "oem", "unlock"))
    }

    /// `fastboot -s SERIAL flash PARTITION IMAGE`.
    pub fn flash(&self, serial: &str, partition: &str, image: &str) -> (r: CommandLine)
        ensures
            r@ == command_view(self.binary_path(), seq!["-s"@, serial@, "flash"@, partition@, image@]),
    {
        self.run(args5("-s", serial, "flash", partition, image))
    }

    /// `fastboot -s SERIAL flash PARTITION FLAGS... IMAGE`: the flags stand
    /// between the partition and the image.
    pub fn flash_with_flags(&self, serial: &str, partition: &str, image: &str, flags: &Vec<String>) -> (r: CommandLine)
        ensures
            r@ == command_view(
                self.binary_path(),
                seq!["-s"@, serial@, "flash"@, partition@] + strings_view(flags@) + seq![image@],
            ),
    {
        let mut args = args4("-s", serial, "flash", partition);
        extend_strings(&mut args, flags);
        let x = owned(image);
        proof {
            lemma_strings_view_push(args@, x);
        }
        args.push(x);
        assert((seq!["-s"@, serial@, "flash"@, partition@] + strings_view(flags@)).push(image@)
            =~= seq!["-s"@, serial@, "flash"@, partition@] + strings_view(flags@) + seq![image@]);
        self.run(args)
    }

    /// `fastboot -s SERIAL -S CHUNK flash PARTITION IMAGE`: a sparse flash in
    /// chunks of the given size.
    pub fn flash_sparse(&self, serial: &str, partition: &str, image: &str, chunk_size: &str) -> (r: CommandLine)
        ensures
            r@ == command_view(
                self.binary_path(),
                seq!["-s"@, serial@, "-S"@, chunk_size@, "flash"@, partition@, image@],
            ),
    {
        let mut args = args4("-s", serial, "-S", chunk_size);
        let tail = args3("flash", partition, image);
        extend_strings(&mut args, &tail);
        assert(seq!["-s"@, serial@, "-S"@, chunk_size@] + seq!["flash"@, partition@, image@]
            =~= seq!["-s"@, serial@, "-S"@, chunk_size@, "flash"@, partition@, image@]);
        self.run(args)
    }

    /// `fastboot -s SERIAL oem ARGS...`.
    pub fn oem(&self, serial: &str, oem_args: &Vec<String>) -> (r: CommandLine)
        ensures
            r@ == command_view(self.binary_path(), seq!["-s"@, serial@, "oem"@] + strings_view(oem_args@)),
    {
        let mut args = args3("-s", serial, "oem");
        extend_strings(&mut args, oem_args);
        self.run(args)
    }

    /// `fastboot -s SERIAL reboot`.
    pub fn reboot(&self, serial: &str) -> (r: CommandLine)
        ensures
            r@ == command_view(self.binary_path(), seq!["-s"@, serial@, "reboot"@]),
    {
        self.run(args3("-s", serial, "reboot"))
    }

    /// `fastboot -s SERIAL reboot recovery`.
    pub fn reboot_recovery(&self, serial: &str) -> (r: CommandLine)
        ensures
            r@ == command_view(self.binary_path(), seq!["-s"@, serial@, "reboot"@, "recovery"@]),
    {
        self.run(args4("-s", serial, "reboot", "recovery"))
    }

    /// `fastboot -s SERIAL erase PARTITION`.
    pub fn erase(&self, serial: &str, partition: &str) -> (r: CommandLine)
        ensures
            r@ == command_view(self.binary_path(), seq!["-s"@, serial@, "erase"@, partition@]),
    {
        self.run(args4("-s", serial, "erase", partition))
    }

    /// `fastboot -s SERIAL set_active SLOT` (A/B devices).
    pub fn set_active(&self, serial: &str, slot: &str) -> (r: CommandLine)
        ensures
            r@ == command_view(self.binary_path(), seq!["-s"@, serial@, "set_active"@, slot@]),
    {
        self.run(args4("-s", serial, "set_active", slot))
    }

    /// `fastboot -s SERIAL format:FS PARTITION`.
    pub fn format(&self, serial: &str, partition: &str, fs_type: &str) -> (r: CommandLine)
        ensures
            r@ == command_view(self.binary_path(), seq!["-s"@, serial@, "format:"@ + fs_type@, partition@]),
    {
        let f = crate::text::str_then("format:", &chars_of(fs_type));
        self.run(args4("-s", serial, f.as_str(), partition))
    }

    /// `fastboot -s SERIAL reboot bootloader`.
    pub fn reboot_bootloader(&self, serial: &str) -> (r: CommandLine)
        ensures
            r@ == command_view(self.binary_path(), seq!["-s"@, serial@, "reboot"@, "bootloader"@]),
    {
        self.run(args4("-s", serial, "reboot", "bootloader"))
    }

    /// `fastboot -s SERIAL reboot fastboot` (into fastbootd).
    pub fn reboot_fastboot(&self, serial: &str) -> (r: CommandLine)
        ensures
            r@ == command_view(self.binary_path(), seq!["-s"@, serial@, "reboot"@, "fastboot"@]),
    {
        self.run(args4("-s", serial, "reboot", "fastboot"))
    }

    /// `fastboot -s SERIAL delete-logical-partition PARTITION`.
    pub fn delete_logical_partition(&self, serial: &str, partition: &str) -> (r: CommandLine)
        ensures
            r@ == command_view(self.binary_path(), seq!["-s"@, serial@, "delete-logical-partition"@, partition@]),
    {
        self.run(args4("-s", serial, "delete-logical-partition", partition))
    }

    /// `fastboot -s SERIAL resize-logical-partition PARTITION SIZE`.
    pub fn resize_logical_partition(&self, serial: &str, partition: &str, size: &str) -> (r: CommandLine)
        ensures
            r@ == command_view(
                self.binary_path(),
                seq!["-s"@, serial@, "resize-logical-partition"@, partition@, size@],
            ),
    {
        self.run(args5("-s", serial, "resize-logical-partition", partition, size))
    }

    /// `fastboot -s SERIAL wipe-super`.
    pub fn wipe_super(&self, serial: &str) -> (r: CommandLine)
        ensures
            r@ == command_view(self.binary_path(), seq!["-s"@, serial@, "wipe-super"@]),
    {
        self.run(args3("-s", serial, "wipe-super"))
    }

    /// `fastboot -s SERIAL [-w] update ZIP`: flash every partition of a
    /// factory image zip, wiping user data with `wipe`.
    pub fn update(&self, serial: &str, image_zip: &str, wipe: bool) -> (r: CommandLine)
        ensures
            r@ == command_view(
                self.binary_path(),
                if wipe {
                    seq!["-s"@, serial@, "-w"@, "update"@, image_zip@]
                } else {
                    seq!["-s"@, serial@, "update"@, image_zip@]
                },
            ),
    {
        if wipe {
            self.run(args5("-s", serial, "-w", "update", image_zip))
        } else {
            self.run(args4("-s", serial, "update", image_zip))
        }
    }
}

} // verus!
