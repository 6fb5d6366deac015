use vstd::prelude::*;
use crate::flashing::decompressor::extension_spec;
use crate::flashing::progress::{Action, ActionView, actions_view, run};
use crate::hardware::command::{command_view, owned};
use crate::hardware::fastboot::Fastboot;
use crate::models::distro::PartitionImage;
use crate::paths::{join_path, join_spec};
use crate::text::{chars_of, last_segment, last_segment_of, slice_of, string_of};

verus! {

broadcast use vstd::string::group_string_axioms;

/// Executes a flashing sequence of partition images.
#[derive(Debug)]
pub struct FlashExecutor {
    pub fastboot: Fastboot,
}

/// Why a partition cannot be flashed.
#[derive(Debug, Clone, PartialEq, Eq)]
pub enum ExecutorError {
    /// Neither the image nor its decompressed form exists.
    ImageNotFound(String),
}

/// A path without the `.xz` or `.gz` extension of its file name, when it has
/// one.
pub open spec fn stripped_spec(path: Seq<char>) -> Option<Seq<char>> {
    match extension_spec(last_segment(path)) {
        Some(e) => if e == "xz"@ || e == "gz"@ {
            Some(path.take(path.len() - e.len() - 1))
        } else {
            None
        },
        None => None,
    }
}

/// The steps of one partition: erase it first when asked, then flash it.
pub open spec fn partition_steps_spec(fastboot: Seq<char>, serial: Seq<char>, p: PartitionImage, path: Seq<char>) -> Seq<
    ActionView,
> {
    (if p.erase_first {
        seq![
            ActionView::Run {
                command: command_view(fastboot, seq!["-s"@, serial, "erase"@, p.partition@]),
                context: Some("Failed to erase partition"@),
                tolerant: false,
            },
        ]
    } else {
        seq![]
    }) + seq![
        ActionView::Run {
            command: command_view(fastboot, seq!["-s"@, serial, "flash"@, p.partition@, path]),
            context: Some("Failed to flash partition"@),
            tolerant: false,
        },
    ]
}

impl FlashExecutor {
    /// An executor running the fastboot found in `FASTBOOT_PATH` (its value,
    /// if set) or on the search path.
    pub fn new(fastboot_path: Option<String>) -> (r: Self)
        ensures
            r.fastboot.binary_path() == (match fastboot_path {
                Some(p) => p@,
                None => "fastboot"@,
            }),
    {
        FlashExecutor { fastboot: Fastboot::new(fastboot_path) }
    }

    /// The path of a partition's image in the images directory.
    pub fn image_path(images_dir: &str, partition: &PartitionImage) -> (r: String)
        ensures
            r@ == join_spec(images_dir@, partition.image@),
    {
        join_path(images_dir, partition.image.as_str())
    }

    /// A path without the `.xz` or `.gz` extension of its file name.
    pub fn stripped_path(path: &str) -> (r: Option<String>)
        ensures
            match r {
                Some(s) => stripped_spec(path@) == Some(s@),
                None => stripped_spec(path@) is None,
            },
    {
        let name = last_segment_of(path);
        let fmt = crate::flashing::decompressor::Decompressor::format_of(name.as_str());
        let v = chars_of(path);
        proof {
            crate::text::lemma_last_segment(path@);
            crate::flashing::decompressor::lemma_extension(last_segment(path@));
            reveal_strlit("xz");
            reveal_strlit("gz");
        }
        assert(name@ == last_segment(path@));
        match fmt {
            crate::flashing::decompressor::Compression::Xz => {
                let s = slice_of(&v, 0, v.len() - 3);
                assert(s@ =~= path@.take(path@.len() - 2 - 1));
                Some(string_of(&s))
            },
            crate::flashing::decompressor::Compression::Gz => {
                let s = slice_of(&v, 0, v.len() - 3);
                assert(s@ =~= path@.take(path@.len() - 2 - 1));
                Some(string_of(&s))
            },
            crate::flashing::decompressor::Compression::Plain => None,
        }
    }

    /// The image to flash: the image when it exists (`exists`), else its
    /// decompressed form when the image is `.xz` or `.gz` and that exists
    /// (`stripped_exists`); otherwise the image is not found.
    pub fn resolve_image(path: &str, exists: bool, stripped_exists: bool) -> (r: Result<String, ExecutorError>)
        ensures
            exists ==> (r matches Ok(p) && p@ == path@),
            !exists ==> match r {
                Ok(p) => stripped_exists && stripped_spec(path@) == Some(p@),
                Err(ExecutorError::ImageNotFound(p)) => p@ == path@ && !(stripped_exists && stripped_spec(path@) is Some),
            },
    {
        if exists {
            return Ok(owned(path));
        }
        match Self::stripped_path(path) {
            Some(s) => if stripped_exists {
                Ok(s)
            } else {
                Err(ExecutorError::ImageNotFound(owned(path)))
            },
            None => Err(ExecutorError::ImageNotFound(owned(path))),
        }
    }

    /// The steps of flashing one partition from the image at `path`.
    pub fn partition_steps(&self, serial: &str, partition: &PartitionImage, path: &str) -> (r: Vec<Action>)
        ensures
            actions_view(r@) == partition_steps_spec(self.fastboot.binary_path(), serial@, *partition, path@),
    {
        let mut plan: Vec<Action> = Vec::new();
        if partition.erase_first {
            plan.push(run(self.fastboot.erase(serial, partition.partition.as_str()), "Failed to erase partition"));
        }
        plan.push(run(self.fastboot.flash(serial, partition.partition.as_str(), path), "Failed to flash partition"));
        assert(actions_view(plan@) =~= partition_steps_spec(self.fastboot.binary_path(), serial@, *partition, path@));
        plan
    }

    /// `fastboot -s SERIAL reboot` after flashing.
    pub fn reboot(&self, serial: &str) -> (r: crate::hardware::command::CommandLine)
        ensures
            r@ == command_view(self.fastboot.binary_path(), seq!["-s"@, serial@, "reboot"@]),
    {
        self.fastboot.reboot(serial)
    }
}

} // verus!
