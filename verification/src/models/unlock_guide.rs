use vstd::prelude::*;
use crate::models::device::Device;
use crate::models::unlocking_step::{StepType, StepView, UnlockingStep};
use crate::text::{alnum_lower_spec, chars_of, filter_lower};

verus! {

broadcast use vstd::string::group_string_axioms;

/// A manual step with the given title and description and nothing else set.
pub open spec fn manual_spec(title: Seq<char>, description: Seq<char>) -> StepView {
    StepView {
        order: 0,
        title,
        description,
        step_type: StepType::Manual,
        command: None,
        duration_secs: None,
        optional: false,
        warning: None,
        link: None,
        link_label: None,
    }
}

/// An automated step that runs `command`, expected to take `duration_secs`.
pub open spec fn automated_spec(
    title: Seq<char>,
    description: Seq<char>,
    command: Seq<char>,
    duration_secs: u32,
) -> StepView {
    StepView {
        order: 0,
        title,
        description,
        step_type: StepType::Automated,
        command: Some(command),
        duration_secs: Some(duration_secs),
        optional: false,
        warning: None,
        link: None,
        link_label: None,
    }
}

fn manual(title: &str, description: &str) -> (s: UnlockingStep)
    ensures
        s@ == manual_spec(title@, description@),
{
    UnlockingStep {
        order: 0,
        title: String::from_str(title),
        description: String::from_str(description),
        step_type: StepType::Manual,
        command: None,
        duration_secs: None,
        optional: false,
        warning: None,
        link: None,
        link_label: None,
    }
}

fn automated(title: &str, description: &str, command: &str, duration_secs: u32) -> (s: UnlockingStep)
    ensures
        s@ == automated_spec(title@, description@, command@, duration_secs),
{
    UnlockingStep {
        order: 0,
        title: String::from_str(title),
        description: String::from_str(description),
        step_type: StepType::Automated,
        command: Some(String::from_str(command)),
        duration_secs: Some(duration_secs),
        optional: false,
        warning: None,
        link: None,
        link_label: None,
    }
}

pub open spec fn views_of(v: Seq<UnlockingStep>) -> Seq<StepView> {
    Seq::new(v.len(), |i: int| v[i]@)
}

/// Steps every device shares: enabling developer options and backing up data.
pub open spec fn common_preamble_spec() -> Seq<StepView> {
    seq![
        manual_spec("Enable Developer Options"@, "On your phone, open Settings → About phone and tap \"Build number\" seven times until you see \"You are now a developer\"."@),
        StepView { warning: Some("If \"OEM unlocking\" is greyed out, connect to the internet and wait a few minutes, or remove any active SIM lock."@), ..manual_spec("Enable OEM Unlocking & USB Debugging"@, "In Settings → System → Developer options, turn on both \"OEM unlocking\" and \"USB debugging\". Accept the prompt on the phone when you connect it."@) },
        StepView { warning: Some("This step wipes all user data. There is no way to recover it afterwards."@), ..manual_spec("Back Up Your Data"@, "Unlocking the bootloader erases everything on the device. Copy any photos, files, and accounts you want to keep before continuing."@) }
    ]
}

/// Steps every device shares: enabling developer options and backing up data.
fn common_preamble() -> (r: Vec<UnlockingStep>)
    ensures
        views_of(r@) == common_preamble_spec(),
{
    let mut s0 = manual("Enable Developer Options", "On your phone, open Settings → About phone and tap \"Build number\" seven times until you see \"You are now a developer\".");
    let mut s1 = manual("Enable OEM Unlocking & USB Debugging", "In Settings → System → Developer options, turn on both \"OEM unlocking\" and \"USB debugging\". Accept the prompt on the phone when you connect it.");
    s1.warning = Some(String::from_str("If \"OEM unlocking\" is greyed out, connect to the internet and wait a few minutes, or remove any active SIM lock."));
    let mut s2 = manual("Back Up Your Data", "Unlocking the bootloader erases everything on the device. Copy any photos, files, and accounts you want to keep before continuing.");
    s2.warning = Some(String::from_str("This step wipes all user data. There is no way to recover it afterwards."));
    let mut r: Vec<UnlockingStep> = Vec::new();
    r.push(s0);
    r.push(s1);
    r.push(s2);
    assert(views_of(r@) =~= common_preamble_spec());
    r
}

/// The standard fastboot unlock used by Google, Fairphone, OnePlus, and most others.
pub open spec fn generic_fastboot_steps_spec() -> Seq<StepView> {
    seq![
        automated_spec("Reboot to Bootloader"@, "Reboots the phone into fastboot/bootloader mode. The screen will show the fastboot/bootloader menu when ready."@, "adb reboot bootloader"@, 12),
        StepView { warning: Some("You must confirm on the device itself. This wipes all data and reboots."@), ..automated_spec("Unlock the Bootloader"@, "Runs the unlock command. On the phone, use the volume keys to highlight \"Unlock the bootloader\" and press the power button to confirm. The device will then factory-reset."@, "fastboot flashing unlock"@, 30) }
    ]
}

/// The standard fastboot unlock used by Google, Fairphone, OnePlus, and most others.
fn generic_fastboot_steps() -> (r: Vec<UnlockingStep>)
    ensures
        views_of(r@) == generic_fastboot_steps_spec(),
{
    let mut s0 = automated("Reboot to Bootloader", "Reboots the phone into fastboot/bootloader mode. The screen will show the fastboot/bootloader menu when ready.", "adb reboot bootloader", 12);
    let mut s1 = automated("Unlock the Bootloader", "Runs the unlock command. On the phone, use the volume keys to highlight \"Unlock the bootloader\" and press the power button to confirm. The device will then factory-reset.", "fastboot flashing unlock", 30);
    s1.warning = Some(String::from_str("You must confirm on the device itself. This wipes all data and reboots."));
    let mut r: Vec<UnlockingStep> = Vec::new();
    r.push(s0);
    r.push(s1);
    assert(views_of(r@) =~= generic_fastboot_steps_spec());
    r
}

/// Sony devices need a per-device unlock code from Sony's developer portal.
pub open spec fn sony_steps_spec() -> Seq<StepView> {
    seq![
        StepView { link: Some("https://developer.sony.com/open-source/aosp-on-xperia-open-devices/get-started/unlock-bootloader/"@), link_label: Some("Open Sony Portal"@), ..manual_spec("Request Your Unlock Code"@, "Sony issues a unique unlock code per device. Find your IMEI (dial *#06#), then register on Sony's Open Devices portal to receive your code."@) },
        automated_spec("Reboot to Bootloader"@, "Reboots the phone into fastboot/bootloader mode so the unlock code can be applied."@, "adb reboot bootloader"@, 12),
        StepView { warning: Some("This wipes all data. Use the exact code Sony provided for your device."@), ..manual_spec("Unlock With Your Code"@, "In a terminal, run `fastboot oem unlock 0xKEY`, replacing KEY with the code Sony gave you. This wipes the device. Then return here and continue."@) }
    ]
}

/// Sony devices need a per-device unlock code from Sony's developer portal.
fn sony_steps() -> (r: Vec<UnlockingStep>)
    ensures
        views_of(r@) == sony_steps_spec(),
{
    let mut s0 = manual("Request Your Unlock Code", "Sony issues a unique unlock code per device. Find your IMEI (dial *#06#), then register on Sony's Open Devices portal to receive your code.");
    s0.link = Some(String::from_str("https://developer.sony.com/open-source/aosp-on-xperia-open-devices/get-started/unlock-bootloader/"));
    s0.link_label = Some(String::from_str("Open Sony Portal"));
    let mut s1 = automated("Reboot to Bootloader", "Reboots the phone into fastboot/bootloader mode so the unlock code can be applied.", "adb reboot bootloader", 12);
    let mut s2 = manual("Unlock With Your Code", "In a terminal, run `fastboot oem unlock 0xKEY`, replacing KEY with the code Sony gave you. This wipes the device. Then return here and continue.");
    s2.warning = Some(String::from_str("This wipes all data. Use the exact code Sony provided for your device."));
    let mut r: Vec<UnlockingStep> = Vec::new();
    r.push(s0);
    r.push(s1);
    r.push(s2);
    assert(views_of(r@) =~= sony_steps_spec());
    r
}

/// Motorola/Lenovo devices need a code derived from `fastboot oem get_unlock_data`.
pub open spec fn motorola_steps_spec() -> Seq<StepView> {
    seq![
        automated_spec("Reboot to Bootloader"@, "Reboots the phone into fastboot/bootloader mode."@, "adb reboot bootloader"@, 12),
        automated_spec("Read Your Unlock Data"@, "Reads the device-specific unlock data. Copy the full string from the terminal output — you'll paste it into Motorola's website in the next step."@, "fastboot oem get_unlock_data"@, 8),
        StepView { link: Some("https://en-us.support.motorola.com/app/standalone/bootloader/unlock-your-device-b"@), link_label: Some("Open Motorola Portal"@), ..manual_spec("Request Your Unlock Code"@, "Paste your unlock data into Motorola's bootloader unlock page to receive an unlock code by email."@) },
        StepView { warning: Some("This wipes all data. Use the exact code from Motorola's email."@), ..manual_spec("Unlock With Your Code"@, "In a terminal, run `fastboot oem unlock CODE`, replacing CODE with the code Motorola emailed you. This wipes the device, then return here and continue."@) }
    ]
}

/// Motorola/Lenovo devices need a code derived from `fastboot oem get_unlock_data`.
fn motorola_steps() -> (r: Vec<UnlockingStep>)
    ensures
        views_of(r@) == motorola_steps_spec(),
{
    let mut s0 = automated("Reboot to Bootloader", "Reboots the phone into fastboot/bootloader mode.", "adb reboot bootloader", 12);
    let mut s1 = automated("Read Your Unlock Data", "Reads the device-specific unlock data. Copy the full string from the terminal output — you'll paste it into Motorola's website in the next step.", "fastboot oem get_unlock_data", 8);
    let mut s2 = manual("Request Your Unlock Code", "Paste your unlock data into Motorola's bootloader unlock page to receive an unlock code by email.");
    s2.link = Some(String::from_str("https://en-us.support.motorola.com/app/standalone/bootloader/unlock-your-device-b"));
    s2.link_label = Some(String::from_str("Open Motorola Portal"));
    let mut s3 = manual("Unlock With Your Code", "In a terminal, run `fastboot oem unlock CODE`, replacing CODE with the code Motorola emailed you. This wipes the device, then return here and continue.");
    s3.warning = Some(String::from_str("This wipes all data. Use the exact code from Motorola's email."));
    let mut r: Vec<UnlockingStep> = Vec::new();
    r.push(s0);
    r.push(s1);
    r.push(s2);
    r.push(s3);
    assert(views_of(r@) =~= motorola_steps_spec());
    r
}

/// Xiaomi/Redmi/POCO require the Mi Unlock tool, a bound account, and a waiting period.
pub open spec fn xiaomi_steps_spec() -> Seq<StepView> {
    seq![
        StepView { warning: Some("Xiaomi enforces a waiting period (often 7+ days) between binding and unlocking. Bind as early as possible."@), ..manual_spec("Add & Bind Your Mi Account"@, "In Settings → Developer options → \"Mi Unlock status\", bind your Mi account to this device. Make sure a SIM/mobile data is active during binding."@) },
        StepView { warning: Some("This wipes all data once the waiting period has elapsed."@), link: Some("https://en.miui.com/unlock/"@), link_label: Some("Open Mi Unlock"@), ..manual_spec("Use the Mi Unlock Tool"@, "Download Xiaomi's official Mi Unlock tool (Windows) and sign in with the same Mi account. Put the phone in fastboot mode, connect it, and click Unlock. Xiaomi does not allow unlocking with plain fastboot."@) }
    ]
}

/// Xiaomi/Redmi/POCO require the Mi Unlock tool, a bound account, and a waiting period.
fn xiaomi_steps() -> (r: Vec<UnlockingStep>)
    ensures
        views_of(r@) == xiaomi_steps_spec(),
{
    let mut s0 = manual("Add & Bind Your Mi Account", "In Settings → Developer options → \"Mi Unlock status\", bind your Mi account to this device. Make sure a SIM/mobile data is active during binding.");
    s0.warning = Some(String::from_str("Xiaomi enforces a waiting period (often 7+ days) between binding and unlocking. Bind as early as possible."));
    let mut s1 = manual("Use the Mi Unlock Tool", "Download Xiaomi's official Mi Unlock tool (Windows) and sign in with the same Mi account. Put the phone in fastboot mode, connect it, and click Unlock. Xiaomi does not allow unlocking with plain fastboot.");
    s1.warning = Some(String::from_str("This wipes all data once the waiting period has elapsed."));
    s1.link = Some(String::from_str("https://en.miui.com/unlock/"));
    s1.link_label = Some(String::from_str("Open Mi Unlock"));
    let mut r: Vec<UnlockingStep> = Vec::new();
    r.push(s0);
    r.push(s1);
    assert(views_of(r@) =~= xiaomi_steps_spec());
    r
}

/// Samsung devices don't use fastboot; they unlock via Download mode.
pub open spec fn samsung_steps_spec() -> Seq<StepView> {
    seq![
        manual_spec("Power Off the Device"@, "Fully power off the phone and unplug the USB cable. Samsung devices unlock through Download mode rather than fastboot."@),
        manual_spec("Boot Into Download Mode"@, "Hold both Volume Up and Volume Down together, then plug in the USB cable while still holding. Keep holding until the warning screen appears."@),
        StepView { warning: Some("This wipes all data. After it reboots, complete setup and re-enable OEM unlocking before installing."@), ..manual_spec("Unlock the Bootloader"@, "Press and hold Volume Up when prompted to enter the unlock screen, then press Volume Up again to confirm. The device factory-resets and reboots."@) }
    ]
}

/// Samsung devices don't use fastboot; they unlock via Download mode.
fn samsung_steps() -> (r: Vec<UnlockingStep>)
    ensures
        views_of(r@) == samsung_steps_spec(),
{
    let mut s0 = manual("Power Off the Device", "Fully power off the phone and unplug the USB cable. Samsung devices unlock through Download mode rather than fastboot.");
    let mut s1 = manual("Boot Into Download Mode", "Hold both Volume Up and Volume Down together, then plug in the USB cable while still holding. Keep holding until the warning screen appears.");
    let mut s2 = manual("Unlock the Bootloader", "Press and hold Volume Up when prompted to enter the unlock screen, then press Volume Up again to confirm. The device factory-resets and reboots.");
    s2.warning = Some(String::from_str("This wipes all data. After it reboots, complete setup and re-enable OEM unlocking before installing."));
    let mut r: Vec<UnlockingStep> = Vec::new();
    r.push(s0);
    r.push(s1);
    r.push(s2);
    assert(views_of(r@) =~= samsung_steps_spec());
    r
}

/// Lowercase the maker and strip non-alphanumeric characters so values like
/// "F(x)tec" or "Redmi (Xiaomi)" normalize predictably.
pub fn normalize_maker(maker: &str) -> (r: String)
    ensures
        r@ == alnum_lower_spec(maker@),
{
    filter_lower(maker, false)
}

/// The manufacturer-specific steps for a normalized maker name.
pub open spec fn maker_steps_spec(maker: Seq<char>) -> Seq<StepView> {
    if maker == "samsung"@ {
        samsung_steps_spec()
    } else if maker == "xiaomi"@ || maker == "redmi"@ || maker == "poco"@ {
        xiaomi_steps_spec()
    } else if maker == "sony"@ {
        sony_steps_spec()
    } else if maker == "motorola"@ || maker == "lenovo"@ {
        motorola_steps_spec()
    } else {
        generic_fastboot_steps_spec()
    }
}

/// `steps` numbered 1, 2, ... in order.
pub open spec fn renumbered(steps: Seq<StepView>) -> Seq<StepView> {
    Seq::new(steps.len(), |i: int| StepView { order: (i + 1) as u8, ..steps[i] })
}

/// The unlocking steps of a device of this maker: the common preamble, then the
/// steps of the maker, numbered from 1.
pub open spec fn unlock_steps_spec(maker: Seq<char>) -> Seq<StepView> {
    renumbered(common_preamble_spec() + maker_steps_spec(alnum_lower_spec(maker)))
}

fn is_str(s: &String, lit: &str) -> (b: bool)
    ensures
        b == (s@ == lit@),
{
    let a = chars_of(s.as_str());
    let l = chars_of(lit);
    crate::text::chars_equal(&a, &l)
}

/// Build the ordered list of unlocking steps for a device.
pub fn unlock_steps(device: &Device) -> (r: Vec<UnlockingStep>)
    ensures
        views_of(r@) == unlock_steps_spec(device.maker@),
{
    let maker = normalize_maker(device.maker.as_str());
    let mut steps = common_preamble();
    let mut extra = if is_str(&maker, "samsung") {
        samsung_steps()
    } else if is_str(&maker, "xiaomi") || is_str(&maker, "redmi") || is_str(&maker, "poco") {
        xiaomi_steps()
    } else if is_str(&maker, "sony") {
        sony_steps()
    } else if is_str(&maker, "motorola") || is_str(&maker, "lenovo") {
        motorola_steps()
    } else {
        generic_fastboot_steps()
    };
    let ghost pre = views_of(steps@);
    let ghost ext = views_of(extra@);
    steps.append(&mut extra);
    assert(views_of(steps@) =~= pre + ext);
    let ghost all = views_of(steps@);
    let n = steps.len();
    assert(ext.len() <= 4);
    assert(n <= 7);
    let mut out: Vec<UnlockingStep> = Vec::new();
    let mut i: usize = 0;
    while i < n
        invariant
            i <= n,
            n == all.len(),
            n <= 7,
            steps.len() == n - i,
            views_of(steps@) == all.skip(i as int),
            views_of(out@) == renumbered(all).take(i as int),
        decreases n - i,
    {
        let ghost before = views_of(steps@);
        let mut step = steps.remove(0);
        assert(step@ == before[0]);
        assert(views_of(steps@) =~= all.skip(i + 1)) by {
            assert(before.drop_first() =~= all.skip(i + 1));
            assert(views_of(steps@) =~= before.drop_first());
        }
        let ghost prev_out = views_of(out@);
        step.order = (i + 1) as u8;
        out.push(step);
        assert(views_of(out@) =~= prev_out.push(renumbered(all)[i as int]));
        assert(renumbered(all).take(i as int).push(renumbered(all)[i as int]) =~= renumbered(all).take(i + 1));
        i = i + 1;
    }
    assert(renumbered(all).take(n as int) =~= renumbered(all));
    out
}

} // verus!

verus! {

/// The unlocking steps are numbered 1, 2, … in order whatever the maker, and
/// they begin with the common preamble; the maker's own steps follow it.
pub proof fn lemma_steps_numbered(maker: Seq<char>)
    ensures
        forall|i: int| 0 <= i < unlock_steps_spec(maker).len() ==> (#[trigger] unlock_steps_spec(maker)[i]).order == i + 1,
        unlock_steps_spec(maker).len() == common_preamble_spec().len() + maker_steps_spec(alnum_lower_spec(maker)).len(),
        forall|i: int|
            0 <= i < common_preamble_spec().len() ==> (#[trigger] unlock_steps_spec(maker)[i]) == (StepView {
                order: (i + 1) as u8,
                ..common_preamble_spec()[i]
            }),
        forall|j: int|
            0 <= j < maker_steps_spec(alnum_lower_spec(maker)).len() ==> (#[trigger] unlock_steps_spec(
                maker,
            )[common_preamble_spec().len() + j]) == (StepView {
                order: (common_preamble_spec().len() + j + 1) as u8,
                ..maker_steps_spec(alnum_lower_spec(maker))[j]
            }),
{
    let pre = common_preamble_spec();
    let ext = maker_steps_spec(alnum_lower_spec(maker));
    assert(pre.len() == 3);
    assert(ext.len() <= 4);
    assert forall|i: int| 0 <= i < unlock_steps_spec(maker).len() implies (#[trigger] unlock_steps_spec(maker)[i]).order
        == i + 1 by {
        assert(i + 1 <= 7);
    }
    assert forall|j: int| 0 <= j < ext.len() implies (#[trigger] unlock_steps_spec(maker)[pre.len() + j]) == (StepView {
        order: (pre.len() + j + 1) as u8,
        ..ext[j]
    }) by {
        assert((pre + ext)[pre.len() + j] == ext[j]);
    }
}

/// The unlock method follows the maker. After the three-step preamble:
/// a Sony device gets the unlock-code route (step 4 asks for the code on
/// Sony's portal, step 6 applies it by hand) and nothing runs `fastboot
/// flashing unlock`; a Samsung device runs no command at all (it unlocks in
/// Download mode); Xiaomi, Redmi and POCO devices go through the Mi Unlock
/// tool and nothing runs `fastboot flashing unlock`; Motorola and Lenovo
/// devices read their unlock data with `fastboot oem get_unlock_data` and
/// nothing runs `fastboot flashing unlock`; every other maker reboots to the
/// bootloader and runs `fastboot flashing unlock` as its last step.
pub proof fn lemma_unlock_method_follows_maker(maker: Seq<char>)
    ensures
        ({
            let s = unlock_steps_spec(maker);
            let m = alnum_lower_spec(maker);
            let plain_unlock = Some("fastboot flashing unlock"@);
            &&& m == "sony"@ ==> {
                &&& s.len() == 6
                &&& s[3].title == "Request Your Unlock Code"@ && s[3].step_type == StepType::Manual
                &&& s[3].link == Some(
                    "https://developer.sony.com/open-source/aosp-on-xperia-open-devices/get-started/unlock-bootloader/"@,
                )
                &&& s[5].title == "Unlock With Your Code"@ && s[5].step_type == StepType::Manual
                &&& forall|i: int| 0 <= i < s.len() ==> (#[trigger] s[i]).command != plain_unlock
            }
            &&& m == "samsung"@ ==> s.len() == 6 && forall|i: int| 0 <= i < s.len() ==> (#[trigger] s[i]).command is None
            &&& (m == "xiaomi"@ || m == "redmi"@ || m == "poco"@) ==> {
                &&& s.len() == 5
                &&& s[4].link == Some("https://en.miui.com/unlock/"@)
                &&& forall|i: int| 0 <= i < s.len() ==> (#[trigger] s[i]).command != plain_unlock
            }
            &&& (m == "motorola"@ || m == "lenovo"@) ==> {
                &&& s.len() == 7
                &&& s[4].command == Some("fastboot oem get_unlock_data"@)
                &&& forall|i: int| 0 <= i < s.len() ==> (#[trigger] s[i]).command != plain_unlock
            }
            &&& (m != "sony"@ && m != "samsung"@ && m != "xiaomi"@ && m != "redmi"@ && m != "poco"@ && m != "motorola"@
                && m != "lenovo"@) ==> {
                &&& s.len() == 5
                &&& s[3].command == Some("adb reboot bootloader"@)
                &&& s[4].command == plain_unlock
            }
        }),
{
    reveal_strlit("sony");
    reveal_strlit("samsung");
    reveal_strlit("xiaomi");
    reveal_strlit("redmi");
    reveal_strlit("poco");
    reveal_strlit("motorola");
    reveal_strlit("lenovo");
    reveal_strlit("fastboot flashing unlock");
    reveal_strlit("adb reboot bootloader");
    reveal_strlit("fastboot oem get_unlock_data");
    assert("fastboot flashing unlock"@.len() == 24);
    assert("adb reboot bootloader"@.len() == 21);
    assert("fastboot oem get_unlock_data"@.len() == 28);
    assert("sony"@.len() == 4 && "samsung"@.len() == 7 && "xiaomi"@.len() == 6 && "redmi"@.len() == 5);
    assert("poco"@.len() == 4 && "motorola"@.len() == 8 && "lenovo"@.len() == 6);
    assert("sony"@ != "poco"@) by {
        assert("sony"@[0] != "poco"@[0]);
    }
    assert("lenovo"@ != "xiaomi"@) by {
        assert("lenovo"@[0] != "xiaomi"@[0]);
    }
    let m = alnum_lower_spec(maker);
    let s = unlock_steps_spec(maker);
    let pre = common_preamble_spec();
    let ext = maker_steps_spec(m);
    assert(s == renumbered(pre + ext));
    assert forall|i: int| 0 <= i < s.len() implies (#[trigger] s[i]).command == (pre + ext)[i].command by {}
    assert forall|i: int| 0 <= i < 3 implies (#[trigger] (pre + ext)[i]).command is None by {
        assert((pre + ext)[i] == pre[i]);
    }
    if m == "sony"@ {
        assert(ext == sony_steps_spec());
        assert(s[3] == StepView { order: 4, ..ext[0] });
        assert(s[5] == StepView { order: 6, ..ext[2] });
        assert forall|i: int| 0 <= i < s.len() implies (#[trigger] s[i]).command != Some("fastboot flashing unlock"@) by {
            if i >= 3 {
                assert((pre + ext)[i] == ext[i - 3]);
            }
        }
    } else if m == "samsung"@ {
        assert(ext == samsung_steps_spec());
        assert forall|i: int| 0 <= i < s.len() implies (#[trigger] s[i]).command is None by {
            if i >= 3 {
                assert((pre + ext)[i] == ext[i - 3]);
            }
        }
    } else if m == "xiaomi"@ || m == "redmi"@ || m == "poco"@ {
        assert(ext == xiaomi_steps_spec());
        assert(s[4] == StepView { order: 5, ..ext[1] });
        assert forall|i: int| 0 <= i < s.len() implies (#[trigger] s[i]).command != Some("fastboot flashing unlock"@) by {
            if i >= 3 {
                assert((pre + ext)[i] == ext[i - 3]);
            }
        }
    } else if m == "motorola"@ || m == "lenovo"@ {
        assert(ext == motorola_steps_spec());
        assert(s[4] == StepView { order: 5, ..ext[1] });
        assert forall|i: int| 0 <= i < s.len() implies (#[trigger] s[i]).command != Some("fastboot flashing unlock"@) by {
            if i >= 3 {
                assert((pre + ext)[i] == ext[i - 3]);
            }
        }
    } else {
        assert(ext == generic_fastboot_steps_spec());
        assert(s[3] == StepView { order: 4, ..ext[0] });
        assert(s[4] == StepView { order: 5, ..ext[1] });
    }
}

} // verus!
