use vstd::prelude::*;
use crate::hardware::command::{CommandLine, command, command_view, args1, lemma_strings_view_push, owned};
use crate::models::device::strings_view;
use crate::text::{chars_of, str_then};

verus! {

broadcast use vstd::string::group_string_axioms;

/// A partition to flash: the PIT entry name and the image to write to it.
#[derive(Debug, Clone)]
pub struct HeimdallFlash {
    pub partition: String,
    pub image: String,
}

/// Heimdall command wrapper (Samsung download mode): the `heimdall` program
/// to run.
#[derive(Debug, Clone)]
pub struct Heimdall {
    binary_path: String,
}

/// Why a flash cannot be run.
#[derive(Debug, Clone, Copy, PartialEq, Eq)]
pub enum HeimdallError {
    /// No partitions to flash.
    NoPartitions,
}

/// `--PART IMAGE` for each flash, in order.
pub open spec fn flash_pairs(fs: Seq<HeimdallFlash>) -> Seq<Seq<char>>
    decreases fs.len(),
{
    if fs.len() == 0 {
        seq![]
    } else {
        flash_pairs(fs.drop_last()) + seq!["--"@ + fs.last().partition@, fs.last().image@]
    }
}

/// The arguments of `heimdall flash`: `flash --PART IMAGE ... [--no-reboot]`.
pub open spec fn flash_args_spec(fs: Seq<HeimdallFlash>, reboot: bool) -> Seq<Seq<char>> {
    seq!["flash"@] + flash_pairs(fs) + if reboot {
        seq![]
    } else {
        seq!["--no-reboot"@]
    }
}

impl Heimdall {
    /// The wrapper for the `heimdall` found in `HEIMDALL_PATH` (its value,
    /// if set) or else on the search path.
    pub fn new(heimdall_path: Option<String>) -> (r: Self)
        ensures
            r.binary_path() == (match heimdall_path {
                Some(p) => p@,
                None => "heimdall"@,
            }),
    {
        match heimdall_path {
            Some(p) => Heimdall { binary_path: p },
            None => Heimdall { binary_path: owned("heimdall") },
        }
    }

    pub closed spec fn binary_path(&self) -> Seq<char> {
        self.binary_path@
    }

    /// `heimdall detect`: succeeds when a device is in download mode.
    pub fn detect(&self) -> (r: CommandLine)
        ensures
            r@ == command_view(self.binary_path(), seq!["detect"@]),
    {
        command(self.binary_path.as_str(), args1("detect"))
    }

    /// The arguments of a `heimdall flash` invocation:
    /// `flash --<PART> <image> ... [--no-reboot]`.
    pub fn flash_args(flashes: &Vec<HeimdallFlash>, reboot: bool) -> (r: Vec<String>)
        ensures
            strings_view(r@) == flash_args_spec(flashes@, reboot),
    {
        let mut args = args1("flash");
        for i in 0..flashes.len()
            invariant
                strings_view(args@) == seq!["flash"@] + flash_pairs(flashes@.take(i as int)),
        {
            let f = &flashes[i];
            let p = str_then("--", &chars_of(f.partition.as_str()));
            let ghost a0 = args@;
            proof {
                lemma_strings_view_push(a0, p);
            }
            args.push(p);
            let im = owned(f.image.as_str());
            proof {
                lemma_strings_view_push(args@, im);
            }
            args.push(im);
            assert(flashes@.take(i + 1).drop_last() =~= flashes@.take(i as int));
            assert(seq!["flash"@] + flash_pairs(flashes@.take(i + 1)) =~= (seq!["flash"@] + flash_pairs(
                flashes@.take(i as int),
            )).push("--"@ + f.partition@).push(f.image@));
        }
        assert(flashes@.take(flashes.len() as int) =~= flashes@);
        if !reboot {
            let n = owned("--no-reboot");
            proof {
                lemma_strings_view_push(args@, n);
            }
            args.push(n);
        }
        assert(strings_view(args@) =~= flash_args_spec(flashes@, reboot));
        args
    }

    /// `heimdall flash ...` for a set of partitions in one session; `reboot`
    /// says whether the device reboots afterwards. Refused with no partitions.
    pub fn flash(&self, flashes: &Vec<HeimdallFlash>, reboot: bool) -> (r: Result<CommandLine, HeimdallError>)
        ensures
            flashes.len() == 0 <==> r is Err,
            r matches Ok(c) ==> c@ == command_view(self.binary_path(), flash_args_spec(flashes@, reboot)),
    {
        if flashes.len() == 0 {
            return Err(HeimdallError::NoPartitions);
        }
        Ok(command(self.binary_path.as_str(), Self::flash_args(flashes, reboot)))
    }

    /// A partition name and an image path as a flash entry.
    pub fn flash_entry(partition: &str, image: &str) -> (r: HeimdallFlash)
        ensures
            r.partition@ == partition@,
            r.image@ == image@,
    {
        HeimdallFlash { partition: owned(partition), image: owned(image) }
    }
}

/// `--PART IMAGE` for each (partition, image) pair, in order.
pub open spec fn pairs_args(ps: Seq<(Seq<char>, Seq<char>)>) -> Seq<Seq<char>>
    decreases ps.len(),
{
    if ps.len() == 0 {
        seq![]
    } else {
        pairs_args(ps.drop_last()) + seq!["--"@ + ps.last().0, ps.last().1]
    }
}

pub open spec fn flash_views(fs: Seq<HeimdallFlash>) -> Seq<(Seq<char>, Seq<char>)> {
    Seq::new(fs.len(), |i: int| (fs[i].partition@, fs[i].image@))
}

/// The arguments of a flash, by the partitions and images as plain values.
pub proof fn lemma_flash_pairs_views(fs: Seq<HeimdallFlash>)
    ensures
        flash_pairs(fs) == pairs_args(flash_views(fs)),
    decreases fs.len(),
{
    if fs.len() > 0 {
        lemma_flash_pairs_views(fs.drop_last());
        assert(flash_views(fs.drop_last()) =~= flash_views(fs).drop_last());
    }
}

} // verus!
