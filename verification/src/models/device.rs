use vstd::prelude::*;
use crate::models::unlocking_step::opt_str_view;

verus! {

/// Represents an Android device with its metadata.
#[derive(Debug, Clone)]
pub struct Device {
    /// Device codename (e.g. "sargo" for Pixel 3a).
    pub codename: String,
    /// Human-readable device name.
    pub name: String,
    /// Manufacturer name.
    pub maker: String,
    /// Whether this device has experimental support.
    pub experimental: bool,
    /// Minimum battery level required before installation.
    pub battery_min: u8,
    /// Device-specific warnings to display.
    pub warnings: Vec<String>,
    /// Alternative codenames for this device.
    pub aliases: Vec<String>,
    /// Other marketing names of this device.
    pub variants: Vec<String>,
    /// Whether the bootloader is known to be locked.
    pub is_locked: Option<bool>,
    /// USB serial number (set at runtime by device detection).
    pub serial: Option<String>,
    /// Android version reported by the connected device.
    pub android_version: Option<String>,
    /// Build id reported by the connected device.
    pub build_id: Option<String>,
    /// Battery level reported by the connected device.
    pub battery_level: Option<u8>,
}

/// The contents of a device record, as plain values.
pub struct DeviceView {
    pub codename: Seq<char>,
    pub name: Seq<char>,
    pub maker: Seq<char>,
    pub experimental: bool,
    pub battery_min: u8,
    pub warnings: Seq<Seq<char>>,
    pub aliases: Seq<Seq<char>>,
    pub variants: Seq<Seq<char>>,
    pub is_locked: Option<bool>,
    pub serial: Option<Seq<char>>,
    pub android_version: Option<Seq<char>>,
    pub build_id: Option<Seq<char>>,
    pub battery_level: Option<u8>,
}

pub open spec fn strings_view(v: Seq<String>) -> Seq<Seq<char>> {
    Seq::new(v.len(), |i: int| v[i]@)
}

impl View for Device {
    type V = DeviceView;

    open spec fn view(&self) -> DeviceView {
        DeviceView {
            codename: self.codename@,
            name: self.name@,
            maker: self.maker@,
            experimental: self.experimental,
            battery_min: self.battery_min,
            warnings: strings_view(self.warnings@),
            aliases: strings_view(self.aliases@),
            variants: strings_view(self.variants@),
            is_locked: self.is_locked,
            serial: opt_str_view(self.serial),
            android_version: opt_str_view(self.android_version),
            build_id: opt_str_view(self.build_id),
            battery_level: self.battery_level,
        }
    }
}

/// Minimum battery level when a device config does not give one.
pub fn default_battery_min() -> (r: u8)
    ensures
        r == 50,
{
    50
}

/// `codename` names the device: its own codename or one of its aliases.
pub open spec fn matches_codename_spec(d: DeviceView, codename: Seq<char>) -> bool {
    d.codename == codename || d.aliases.contains(codename)
}

pub fn str_eq(a: &str, b: &str) -> (r: bool)
    ensures
        r == (a@ == b@),
{
    let x = crate::text::chars_of(a);
    let y = crate::text::chars_of(b);
    crate::text::chars_equal(&x, &y)
}

pub fn clone_strings(v: &Vec<String>) -> (r: Vec<String>)
    ensures
        r@ == v@,
{
    let mut r: Vec<String> = Vec::new();
    for i in 0..v.len()
        invariant
            r@ == v@.take(i as int),
    {
        r.push(v[i].clone());
        assert(v@.take(i as int).push(v@[i as int]) =~= v@.take(i + 1));
    }
    assert(v@.take(v.len() as int) =~= v@);
    r
}

pub fn clone_opt_string(o: &Option<String>) -> (r: Option<String>)
    ensures
        r == *o,
{
    match o {
        Some(s) => Some(s.clone()),
        None => None,
    }
}

impl Device {
    /// Check if a codename matches this device (including aliases).
    pub fn matches_codename(&self, codename: &str) -> (r: bool)
        ensures
            r == matches_codename_spec(self@, codename@),
    {
        if str_eq(self.codename.as_str(), codename) {
            return true;
        }
        let mut i: usize = 0;
        while i < self.aliases.len()
            invariant
                i <= self.aliases.len(),
                self.codename@ != codename@,
                forall|j: int| 0 <= j < i ==> self.aliases@[j]@ != codename@,
            decreases self.aliases.len() - i,
        {
            if str_eq(self.aliases[i].as_str(), codename) {
                assert(strings_view(self.aliases@)[i as int] == codename@);
                return true;
            }
            i = i + 1;
        }
        assert(!strings_view(self.aliases@).contains(codename@)) by {
            if strings_view(self.aliases@).contains(codename@) {
                let k = choose|k: int| 0 <= k < strings_view(self.aliases@).len() && strings_view(self.aliases@)[k] == codename@;
                assert(self.aliases@[k]@ == codename@);
            }
        }
        false
    }

    /// A field-for-field copy of the device.
    pub fn copy(&self) -> (r: Device)
        ensures
            r@ == self@,
    {
        Device {
            codename: self.codename.clone(),
            name: self.name.clone(),
            maker: self.maker.clone(),
            experimental: self.experimental,
            battery_min: self.battery_min,
            warnings: clone_strings(&self.warnings),
            aliases: clone_strings(&self.aliases),
            variants: clone_strings(&self.variants),
            is_locked: self.is_locked,
            serial: clone_opt_string(&self.serial),
            android_version: clone_opt_string(&self.android_version),
            build_id: clone_opt_string(&self.build_id),
            battery_level: self.battery_level,
        }
    }
}

} // verus!
