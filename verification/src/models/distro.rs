use vstd::prelude::*;
use crate::text::{decimal, decimal_spec, digit_char, push_char, string_of};

verus! {

broadcast use vstd::string::group_string_axioms;

/// A partition image to flash.
#[derive(Debug, Clone)]
pub struct PartitionImage {
    /// Partition name (e.g. "boot", "system", "userdata").
    pub partition: String,
    /// Relative path or URL to the image file.
    pub image: String,
    /// Whether this partition should be erased before flashing.
    pub erase_first: bool,
}

/// A mobile Linux distribution available for a device.
#[derive(Debug, Clone)]
pub struct Distro {
    /// Distribution name (e.g. "postmarketOS").
    pub name: String,
    /// Distribution version.
    pub version: String,
    /// Description of this distribution.
    pub description: String,
    /// Base URL for downloading images.
    pub download_base_url: String,
    /// URL to the checksum file (SHA256SUMS).
    pub checksum_url: Option<String>,
    /// List of partition images to flash.
    pub partitions: Vec<PartitionImage>,
    /// Homepage URL.
    pub homepage: Option<String>,
    /// Estimated download size in bytes.
    pub download_size_bytes: Option<u64>,
    /// Whether this requires an unlocked bootloader.
    pub requires_unlock: bool,
    /// Post-installation instructions.
    pub post_install_notes: Option<String>,
}

/// Whether a distribution needs an unlocked bootloader when its config does not say.
pub fn default_requires_unlock() -> (r: bool)
    ensures
        r,
{
    true
}

/// `n / d` rounded to the nearest integer, ties to the even one.
pub open spec fn div_round_half_even(n: nat, d: nat) -> nat
    recommends
        d > 0,
{
    let q = n / d;
    let r = n % d;
    if 2 * r > d || (2 * r == d && q % 2 == 1) {
        q + 1
    } else {
        q
    }
}

/// A number of tenths of a gigabyte as shown: one decimal, then ` GB`.
pub open spec fn gb_text(tenths: nat) -> Seq<char> {
    decimal_spec(tenths / 10) + seq!['.', digit_char(tenths % 10)] + " GB"@
}

/// The exponent of `n / 20` as a binary float: the greatest `k` with
/// `20 * 2^k <= n`.
pub open spec fn binary_exponent(n: nat) -> nat
    decreases n,
{
    if n < 40 {
        0
    } else {
        1 + binary_exponent(n / 2)
    }
}

/// `2^(50 - k)` modulo 5, for the exponents that occur (`k <= 50`): 4 at 0,
/// each further step multiplying by 3 (the inverse of 2 modulo 5).
pub open spec fn scale_mod5(k: nat) -> nat
    decreases k,
{
    if k == 0 {
        4
    } else {
        (scale_mod5((k - 1) as nat) * 3) % 5
    }
}

/// The tenths shown for a size exactly between `q` and `q + 1` tenths of a
/// gigabyte, `(2q + 1) / 20` GB. As a binary float with 53 significant bits
/// that value is exact when 5 divides `2q + 1`, and then ties go to the even
/// tenth; otherwise the float lies just above it (and shows `q + 1`) when
/// `(2q + 1) * 2^(50 - k)` leaves 3 or 4 modulo 5, and just below (and shows
/// `q`) when it leaves 1 or 2, `k` being its exponent.
pub open spec fn tie_tenths(q: nat) -> nat {
    let n = 2 * q + 1;
    if n % 5 == 0 {
        if q % 2 == 0 {
            q
        } else {
            q + 1
        }
    } else if (n * scale_mod5(binary_exponent(n))) % 5 >= 3 {
        q + 1
    } else {
        q
    }
}

/// The text shown for a download size. From 1 GB: gigabytes with one
/// decimal, rounded to the nearest tenth of the binary float the size makes
/// (below 2^53 bytes that float is exact up to rounding, so only a size
/// exactly between two tenths depends on it, see `tie_tenths`; from 2^53
/// bytes the float itself is rounded, and one of the two nearest tenths
/// shows). From 1 MB: whole megabytes, rounded to nearest, ties to even.
/// Below: whole kilobytes, rounded down. `Unknown` when the size is not
/// known. Units are decimal (1 GB = 10^9 bytes).
pub open spec fn download_size_shown(size: Option<u64>, text: Seq<char>) -> bool {
    match size {
        Some(bytes) => if bytes >= 1_000_000_000 {
            let q = bytes as nat / 100_000_000;
            let rem = bytes as nat % 100_000_000;
            if bytes >= 0x20_0000_0000_0000 {
                text == gb_text(q) || text == gb_text(q + 1)
            } else if rem < 50_000_000 {
                text == gb_text(q)
            } else if rem > 50_000_000 {
                text == gb_text(q + 1)
            } else {
                text == gb_text(tie_tenths(q))
            }
        } else if bytes >= 1_000_000 {
            text == decimal_spec(div_round_half_even(bytes as nat, 1_000_000)) + " MB"@
        } else {
            text == decimal_spec((bytes / 1000) as nat) + " KB"@
        },
        None => text == "Unknown"@,
    }
}

fn tie_tenths_exec(q: u64) -> (r: u64)
    requires
        q < 0x1_0000_0000_0000,
    ensures
        r == tie_tenths(q as nat),
{
    let n: u64 = 2 * q + 1;
    if n % 5 == 0 {
        return if q % 2 == 0 {
            q
        } else {
            q + 1
        };
    }
    let mut m: u64 = n;
    let mut k: u64 = 0;
    let mut scale: u64 = 4;
    while m >= 40
        invariant
            m <= n,
            binary_exponent(n as nat) == k + binary_exponent(m as nat),
            scale == scale_mod5(k as nat),
            scale < 5,
            k + m <= n,
        decreases m,
    {
        m = m / 2;
        k = k + 1;
        scale = (scale * 3) % 5;
    }
    assert(binary_exponent(m as nat) == 0);
    assert((n % 5) * scale < 25) by (nonlinear_arith)
        requires
            n % 5 < 5,
            scale < 5,
    ;
    if ((n % 5) * scale) % 5 >= 3 {
        assert((n * scale) % 5 == ((n % 5) * scale) % 5) by (nonlinear_arith)
            requires
                scale < 5,
        ;
        q + 1
    } else {
        assert((n * scale) % 5 == ((n % 5) * scale) % 5) by (nonlinear_arith)
            requires
                scale < 5,
        ;
        q
    }
}

impl Distro {
    /// Get the formatted download size string.
    pub fn download_size_string(&self) -> (r: String)
        ensures
            download_size_shown(self.download_size_bytes, r@),
    {
        match self.download_size_bytes {
            Some(bytes) => {
                if bytes >= 1_000_000_000 {
                    let q = bytes / 100_000_000;
                    let rem = bytes % 100_000_000;
                    let tenths: u64 = if rem < 50_000_000 {
                        q
                    } else if rem > 50_000_000 || bytes >= 0x20_0000_0000_0000 {
                        q + 1
                    } else {
                        tie_tenths_exec(q)
                    };
                    let whole = decimal(tenths / 10);
                    let mut s = string_of(&whole);
                    push_char(&mut s, '.');
                    push_char(&mut s, ((48 + tenths % 10) as u8) as char);
                    s.append(" GB");
                    assert(s@ =~= gb_text(tenths as nat));
                    assert(bytes as nat / 100_000_000 == bytes / 100_000_000);
                    assert(bytes as nat % 100_000_000 == bytes % 100_000_000);
                    s
                } else if bytes >= 1_000_000 {
                    let q = bytes / 1_000_000;
                    let rem = bytes % 1_000_000;
                    let n = if 2 * rem > 1_000_000 || (2 * rem == 1_000_000 && q % 2 == 1) {
                        q + 1
                    } else {
                        q
                    };
                    let v = decimal(n);
                    let mut s = string_of(&v);
                    s.append(" MB");
                    s
                } else {
                    let v = decimal(bytes / 1000);
                    let mut s = string_of(&v);
                    s.append(" KB");
                    s
                }
            },
            None => String::from_str("Unknown"),
        }
    }
}

/// A node in the distribution selection tree.
#[derive(Debug)]
pub enum DistroTreeNode {
    Group { name: String, description: String, children: Vec<DistroTreeNode> },
    Item(Distro),
}

impl DistroTreeNode {
    pub fn name(&self) -> (r: &str)
        ensures
            r@ == match self {
                DistroTreeNode::Group { name, .. } => name@,
                DistroTreeNode::Item(d) => d.name@,
            },
    {
        match self {
            DistroTreeNode::Group { name, .. } => name.as_str(),
            DistroTreeNode::Item(d) => d.name.as_str(),
        }
    }

    pub fn description(&self) -> (r: &str)
        ensures
            r@ == match self {
                DistroTreeNode::Group { description, .. } => description@,
                DistroTreeNode::Item(d) => d.description@,
            },
    {
        match self {
            DistroTreeNode::Group { description, .. } => description.as_str(),
            DistroTreeNode::Item(d) => d.description.as_str(),
        }
    }
}

} // verus!
