use vstd::prelude::*;
use crate::hardware::adb::{AdbDevice, adb_devices_view};
use crate::hardware::command::owned;
use crate::hardware::fastboot::{FastbootDevice, fastboot_serials};
use crate::models::device::{Device, DeviceView, clone_opt_string, str_eq, strings_view};
use crate::models::unlocking_step::opt_str_view;
use crate::text::{chars_of, concat, string_of};

verus! {

broadcast use vstd::string::group_string_axioms;

/// A device event reported by the detector.
#[derive(Debug, Clone)]
pub enum DeviceEvent {
    Connected(Device),
    Disconnected,
}

/// Device detector that polls for USB-connected Android devices: whether it
/// runs and whether it is paused.
#[derive(Debug)]
pub struct DeviceDetector {
    running: bool,
    paused: bool,
}

impl DeviceDetector {
    pub closed spec fn is_running_spec(&self) -> bool {
        self.running
    }

    pub closed spec fn is_paused_spec(&self) -> bool {
        self.paused
    }

    /// A detector that is neither running nor paused.
    pub fn new() -> (r: Self)
        ensures
            !r.is_running_spec(),
            !r.is_paused_spec(),
    {
        DeviceDetector { running: false, paused: false }
    }

    /// Starts polling.
    pub fn start(&mut self)
        ensures
            final(self).is_running_spec(),
            final(self).is_paused_spec() == old(self).is_paused_spec(),
    {
        self.running = true;
    }

    /// Stops polling.
    pub fn stop(&mut self)
        ensures
            !final(self).is_running_spec(),
            final(self).is_paused_spec() == old(self).is_paused_spec(),
    {
        self.running = false;
    }

    /// Pauses detection: polls check no device and send no events.
    pub fn pause(&mut self)
        ensures
            final(self).is_paused_spec(),
            final(self).is_running_spec() == old(self).is_running_spec(),
    {
        self.paused = true;
    }

    /// Resumes detection; a device still connected is then detected afresh.
    pub fn resume(&mut self)
        ensures
            !final(self).is_paused_spec(),
            final(self).is_running_spec() == old(self).is_running_spec(),
    {
        self.paused = false;
    }

    pub fn is_running(&self) -> (r: bool)
        ensures
            r == self.is_running_spec(),
    {
        self.running
    }

    pub fn is_paused(&self) -> (r: bool)
        ensures
            r == self.is_paused_spec(),
    {
        self.paused
    }

    /// What the polling loop does next: end while the detector is stopped,
    /// skip the device checks while it is paused, check otherwise.
    pub fn next_poll(&self) -> (r: PollDecision)
        ensures
            r == poll_decision(self.is_running_spec(), self.is_paused_spec()),
    {
        if !self.running {
            PollDecision::Stop
        } else if self.paused {
            PollDecision::Skip
        } else {
            PollDecision::Check
        }
    }
}

/// What the polling loop does on its next iteration.
#[derive(Debug, Clone, Copy, PartialEq, Eq)]
pub enum PollDecision {
    /// The detector was stopped: the loop ends, with no further device check
    /// and no further event.
    Stop,
    /// The detector is paused: no device check this time, no event, and the
    /// device last reported is forgotten.
    Skip,
    /// List the devices and let `PollState::step` decide.
    Check,
}

/// The decision for a detector that is running (or not) and paused (or not).
pub open spec fn poll_decision(running: bool, paused: bool) -> PollDecision {
    if !running {
        PollDecision::Stop
    } else if paused {
        PollDecision::Skip
    } else {
        PollDecision::Check
    }
}

/// What a poll asks for next.
#[derive(Debug, Clone, PartialEq, Eq)]
pub enum PollAction {
    /// Nothing changed: nothing to report.
    Idle,
    /// A new device in adb mode, with this serial: identify it and report it
    /// connected.
    IdentifyAdb(String),
    /// A new device in fastboot mode, with this serial: identify it and
    /// report it connected.
    IdentifyFastboot(String),
    /// The device went away: report it disconnected.
    ReportDisconnected,
}

pub enum PollActionView {
    Idle,
    IdentifyAdb(Seq<char>),
    IdentifyFastboot(Seq<char>),
    ReportDisconnected,
}

impl View for PollAction {
    type V = PollActionView;

    open spec fn view(&self) -> PollActionView {
        match self {
            PollAction::Idle => PollActionView::Idle,
            PollAction::IdentifyAdb(s) => PollActionView::IdentifyAdb(s@),
            PollAction::IdentifyFastboot(s) => PollActionView::IdentifyFastboot(s@),
            PollAction::ReportDisconnected => PollActionView::ReportDisconnected,
        }
    }
}

/// The serial of the first adb device in state `device`.
pub open spec fn adb_pick(devs: Seq<(Seq<char>, Seq<char>)>) -> Option<Seq<char>>
    decreases devs.len(),
{
    if devs.len() == 0 {
        None
    } else if devs[0].1 == "device"@ {
        Some(devs[0].0)
    } else {
        adb_pick(devs.drop_first())
    }
}

/// The device a poll sees: the first ready adb device, else the first
/// fastboot device (fastboot being listed only when adb shows none).
pub open spec fn seen_device(
    adb: Option<Seq<(Seq<char>, Seq<char>)>>,
    fastboot: Option<Seq<Seq<char>>>,
) -> Option<(Seq<char>, bool)> {
    let a = match adb {
        Some(d) => adb_pick(d),
        None => None,
    };
    if a is Some {
        Some((a->0, true))
    } else if fastboot is Some && fastboot->0.len() > 0 {
        Some((fastboot->0[0], false))
    } else {
        None
    }
}

/// One poll: from the serial last reported and what was observed, the serial
/// to remember and what to do. A paused poll forgets the device; a device is
/// announced only when its serial differs from the one last reported; a
/// disconnection is reported only when a device had been reported.
pub open spec fn poll_spec(
    last: Option<Seq<char>>,
    paused: bool,
    adb: Option<Seq<(Seq<char>, Seq<char>)>>,
    fastboot: Option<Seq<Seq<char>>>,
) -> (Option<Seq<char>>, PollActionView) {
    if paused {
        (None, PollActionView::Idle)
    } else {
        match seen_device(adb, fastboot) {
            Some((s, via_adb)) => if last == Some(s) {
                (last, PollActionView::Idle)
            } else if via_adb {
                (Some(s), PollActionView::IdentifyAdb(s))
            } else {
                (Some(s), PollActionView::IdentifyFastboot(s))
            },
            None => if last is Some {
                (None, PollActionView::ReportDisconnected)
            } else {
                (None, PollActionView::Idle)
            },
        }
    }
}

/// An adb device list as plain values.
pub open spec fn adb_obs(adb: Option<Vec<AdbDevice>>) -> Option<Seq<(Seq<char>, Seq<char>)>> {
    match adb {
        Some(d) => Some(adb_devices_view(d@)),
        None => None,
    }
}

/// The serials of a fastboot device list.
pub open spec fn fastboot_obs(fastboot: Option<Vec<FastbootDevice>>) -> Option<Seq<Seq<char>>> {
    match fastboot {
        Some(f) => Some(fastboot_serials(f@)),
        None => None,
    }
}

/// The memory of the polling loop: the serial of the device last reported.
#[derive(Debug)]
pub struct PollState {
    pub last_device: Option<String>,
}

impl PollState {
    pub fn new() -> (r: Self)
        ensures
            r.last_device is None,
    {
        PollState { last_device: None }
    }

    /// Whether the fastboot devices need listing: only when adb shows no
    /// device in state `device`.
    pub fn needs_fastboot(adb: &Option<Vec<AdbDevice>>) -> (r: bool)
        ensures
            r == (match adb_obs(*adb) {
                Some(d) => adb_pick(d),
                None => None,
            } is None),
    {
        match adb {
            Some(d) => pick_adb(d).is_none(),
            None => true,
        }
    }

    /// One poll of the detector loop: `adb` is the adb device list (if it
    /// could be read), `fastboot` the fastboot list (if it was read: only
    /// when adb shows no ready device).
    pub fn step(
        &mut self,
        paused: bool,
        adb: &Option<Vec<AdbDevice>>,
        fastboot: &Option<Vec<FastbootDevice>>,
    ) -> (r: PollAction)
        ensures
            (opt_str_view(final(self).last_device), r@) == poll_spec(
                opt_str_view(old(self).last_device),
                paused,
                adb_obs(*adb),
                fastboot_obs(*fastboot),
            ),
    {
        if paused {
            self.last_device = None;
            return PollAction::Idle;
        }
        let ghost av = adb_obs(*adb);
        let ghost fv = fastboot_obs(*fastboot);
        let picked: Option<(String, bool)> = match adb {
            Some(d) => match pick_adb(d) {
                Some(s) => Some((s, true)),
                None => first_fastboot(fastboot),
            },
            None => first_fastboot(fastboot),
        };
        assert(match picked {
            Some(p) => seen_device(av, fv) == Some((p.0@, p.1)),
            None => seen_device(av, fv) is None,
        });
        match picked {
            Some((s, via_adb)) => {
                let same = match &self.last_device {
                    Some(l) => str_eq(l.as_str(), s.as_str()),
                    None => false,
                };
                if same {
                    PollAction::Idle
                } else {
                    self.last_device = Some(owned(s.as_str()));
                    if via_adb {
                        PollAction::IdentifyAdb(s)
                    } else {
                        PollAction::IdentifyFastboot(s)
                    }
                }
            },
            None => {
                if self.last_device.is_some() {
                    self.last_device = None;
                    PollAction::ReportDisconnected
                } else {
                    PollAction::Idle
                }
            },
        }
    }
}

/// The serial of the first ready adb device.
fn pick_adb(devs: &Vec<AdbDevice>) -> (r: Option<String>)
    ensures
        opt_str_view(r) == adb_pick(adb_devices_view(devs@)),
{
    let ghost all = adb_devices_view(devs@);
    let mut i: usize = 0;
    assert(all.skip(0) =~= all);
    while i < devs.len()
        invariant
            i <= devs.len(),
            all == adb_devices_view(devs@),
            adb_pick(all) == adb_pick(all.skip(i as int)),
        decreases devs.len() - i,
    {
        assert(all.skip(i as int)[0] == all[i as int]);
        assert(all.skip(i as int).drop_first() =~= all.skip(i + 1));
        if str_eq(devs[i].state.as_str(), "device") {
            return Some(owned(devs[i].serial.as_str()));
        }
        i = i + 1;
    }
    assert(all.skip(i as int) =~= Seq::<(Seq<char>, Seq<char>)>::empty());
    None
}

fn first_fastboot(fastboot: &Option<Vec<FastbootDevice>>) -> (r: Option<(String, bool)>)
    ensures
        match r {
            Some(p) => !p.1 && fastboot is Some && fastboot_serials(fastboot->0@).len() > 0 && p.0@
                == fastboot_serials(fastboot->0@)[0],
            None => !(fastboot is Some && fastboot_serials(fastboot->0@).len() > 0),
        },
{
    match fastboot {
        Some(f) => if f.len() > 0 {
            Some((owned(f[0].serial.as_str()), false))
        } else {
            None
        },
        None => None,
    }
}

/// A device announced twice in a row is reported once: after a poll asks to
/// identify a device, the same observation again asks for nothing.
pub proof fn lemma_announced_once(
    last: Option<Seq<char>>,
    adb: Option<Seq<(Seq<char>, Seq<char>)>>,
    fastboot: Option<Seq<Seq<char>>>,
)
    ensures
        ({
            let (next, act) = poll_spec(last, false, adb, fastboot);
            (act is IdentifyAdb || act is IdentifyFastboot) ==> poll_spec(next, false, adb, fastboot).1 is Idle
        }),
{
}

/// A disconnection is reported once, and only after a device was reported:
/// the poll that reports it forgets the device, so the next poll that sees
/// nothing asks for nothing.
pub proof fn lemma_disconnect_once(
    last: Option<Seq<char>>,
    adb: Option<Seq<(Seq<char>, Seq<char>)>>,
    fastboot: Option<Seq<Seq<char>>>,
)
    ensures
        ({
            let (next, act) = poll_spec(last, false, adb, fastboot);
            act is ReportDisconnected ==> last is Some && next is None && poll_spec(next, false, adb, fastboot).1 is Idle
        }),
{
}

/// Pausing forgets the device: after a paused poll, the first unpaused poll
/// that sees a device announces it, whichever device was reported before.
pub proof fn lemma_resume_detects_afresh(
    last: Option<Seq<char>>,
    adb_p: Option<Seq<(Seq<char>, Seq<char>)>>,
    fastboot_p: Option<Seq<Seq<char>>>,
    adb: Option<Seq<(Seq<char>, Seq<char>)>>,
    fastboot: Option<Seq<Seq<char>>>,
)
    ensures
        ({
            let (next, act) = poll_spec(last, true, adb_p, fastboot_p);
            &&& act is Idle
            &&& next is None
            &&& seen_device(adb, fastboot) is Some ==> !(poll_spec(next, false, adb, fastboot).1 is Idle)
        }),
{
}

/// What one poll of the loop observed: whether the detector was paused, the
/// adb device list (if it was read) and the fastboot serials (if they were
/// read).
pub struct PollObservation {
    pub paused: bool,
    pub adb: Option<Seq<(Seq<char>, Seq<char>)>>,
    pub fastboot: Option<Seq<Seq<char>>>,
}

/// A run of polls from the serial last reported: the serial remembered
/// after them and what each poll asked for, in order.
pub open spec fn poll_run(last: Option<Seq<char>>, obs: Seq<PollObservation>) -> (Option<Seq<char>>, Seq<PollActionView>)
    decreases obs.len(),
{
    if obs.len() == 0 {
        (last, seq![])
    } else {
        let (l, acts) = poll_run(last, obs.drop_last());
        let o = obs.last();
        let (next, act) = poll_spec(l, o.paused, o.adb, o.fastboot);
        (next, acts.push(act))
    }
}

/// A poll, unpaused, whose adb list shows `serial` as the first ready device.
pub open spec fn sees_adb(o: PollObservation, serial: Seq<char>) -> bool {
    &&& !o.paused
    &&& o.adb matches Some(a) && adb_pick(a) == Some(serial)
}

/// `n` polls that ask for nothing.
pub open spec fn idles(n: nat) -> Seq<PollActionView> {
    Seq::new(n, |i: int| PollActionView::Idle)
}

proof fn lemma_attached_run(last: Option<Seq<char>>, serial: Seq<char>, obs: Seq<PollObservation>, j: int)
    requires
        last != Some(serial),
        1 <= j <= obs.len(),
        forall|i: int| 0 <= i < j ==> sees_adb(#[trigger] obs[i], serial),
    ensures
        poll_run(last, obs.take(j)) == (Some(serial), seq![PollActionView::IdentifyAdb(serial)] + idles((j - 1) as nat)),
    decreases j,
{
    let o = obs[j - 1];
    assert(sees_adb(o, serial));
    let t = obs.take(j);
    assert(t.drop_last() =~= obs.take(j - 1));
    assert(t.last() == o);
    let (l, acts) = poll_run(last, obs.take(j - 1));
    let want = seq![PollActionView::IdentifyAdb(serial)] + idles((j - 1) as nat);
    if j == 1 {
        assert(obs.take(0) =~= Seq::<PollObservation>::empty());
        assert(l == last && acts =~= Seq::<PollActionView>::empty());
        assert(poll_spec(l, o.paused, o.adb, o.fastboot) == (Some(serial), PollActionView::IdentifyAdb(serial)));
        assert(acts.push(PollActionView::IdentifyAdb(serial)) =~= want);
    } else {
        lemma_attached_run(last, serial, obs, j - 1);
        assert(l == Some(serial));
        assert(poll_spec(l, o.paused, o.adb, o.fastboot) == (Some(serial), PollActionView::Idle));
        assert(acts.push(PollActionView::Idle) =~= want);
    }
}

/// A device that stays attached is announced once, and its departure once:
/// from a state whose last reported serial is not `serial`, `k >= 1`
/// unpaused polls that each show `serial` as the first ready adb device,
/// then one unpaused poll that sees no device, ask exactly for: identify
/// `serial` over adb, nothing `k - 1` times, report the disconnection. The
/// loop then remembers no device.
pub proof fn lemma_attach_then_detach(last: Option<Seq<char>>, serial: Seq<char>, obs: Seq<PollObservation>, k: int)
    requires
        last != Some(serial),
        k >= 1,
        obs.len() == k + 1,
        forall|i: int| 0 <= i < k ==> sees_adb(#[trigger] obs[i], serial),
        !obs[k].paused,
        seen_device(obs[k].adb, obs[k].fastboot) is None,
    ensures
        poll_run(last, obs) == (
            None::<Seq<char>>,
            seq![PollActionView::IdentifyAdb(serial)] + idles((k - 1) as nat) + seq![PollActionView::ReportDisconnected],
        ),
{
    lemma_attached_run(last, serial, obs, k);
    assert(obs.drop_last() =~= obs.take(k));
    assert((seq![PollActionView::IdentifyAdb(serial)] + idles((k - 1) as nat)).push(PollActionView::ReportDisconnected)
        =~= seq![PollActionView::IdentifyAdb(serial)] + idles((k - 1) as nat) + seq![PollActionView::ReportDisconnected]);
}

/// While paused, polls ask for nothing: a run of paused polls, whatever the
/// lists hold, yields only `Idle` and forgets the device. (A paused loop
/// does not read the lists: `next_poll` says `Skip`.)
pub proof fn lemma_paused_polls_are_silent(last: Option<Seq<char>>, obs: Seq<PollObservation>)
    requires
        obs.len() > 0,
        forall|i: int| 0 <= i < obs.len() ==> (#[trigger] obs[i]).paused,
    ensures
        poll_run(last, obs) == (None::<Seq<char>>, idles(obs.len())),
    decreases obs.len(),
{
    let p = obs.drop_last();
    let o = obs.last();
    assert(o.paused);
    let (l, acts) = poll_run(last, p);
    if obs.len() == 1 {
        assert(p =~= Seq::<PollObservation>::empty());
        assert(acts =~= Seq::<PollActionView>::empty());
        assert(acts.push(PollActionView::Idle) =~= idles(1));
    } else {
        assert forall|i: int| 0 <= i < p.len() implies (#[trigger] p[i]).paused by {
            assert(p[i] == obs[i]);
        }
        lemma_paused_polls_are_silent(last, p);
        assert(acts.push(PollActionView::Idle) =~= idles(obs.len()));
    }
}

/// Resuming detects afresh: after one or more paused polls, the first
/// unpaused poll that shows `serial` as the first ready adb device asks to
/// identify it, even when `serial` was the device last reported before the
/// pause.
pub proof fn lemma_resume_announces_again(last: Option<Seq<char>>, serial: Seq<char>, obs: Seq<PollObservation>)
    requires
        obs.len() >= 2,
        forall|i: int| 0 <= i < obs.len() - 1 ==> (#[trigger] obs[i]).paused,
        sees_adb(obs.last(), serial),
    ensures
        poll_run(last, obs) == (
            Some(serial),
            idles((obs.len() - 1) as nat).push(PollActionView::IdentifyAdb(serial)),
        ),
{
    let p = obs.drop_last();
    assert forall|i: int| 0 <= i < p.len() implies (#[trigger] p[i]).paused by {
        assert(p[i] == obs[i]);
    }
    lemma_paused_polls_are_silent(last, p);
}

/// A stopped detector's loop ends, and only a running, unpaused detector's
/// loop looks at the devices: after `stop` the next decision is `Stop`
/// whatever else holds; after `pause` on a running detector it is `Skip`;
/// after `resume` on a running detector it is `Check`.
pub proof fn lemma_stop_pause_resume(paused: bool)
    ensures
        poll_decision(false, paused) == PollDecision::Stop,
        poll_decision(true, true) == PollDecision::Skip,
        poll_decision(true, false) == PollDecision::Check,
{
}

/// Empty text when the value is empty: a property that could not be read
/// counts as absent.
pub fn nonempty(v: Option<String>) -> (r: Option<String>)
    ensures
        opt_str_view(r) == (match v {
            Some(s) => if s@.len() > 0 {
                Some(s@)
            } else {
                None
            },
            None => None,
        }),
{
    match v {
        Some(s) => if chars_of(s.as_str()).len() > 0 {
            Some(s)
        } else {
            None
        },
        None => None,
    }
}

/// The codename to look up and the name to show for a device seen over adb:
/// its `ro.product.device` when read, else its model, else `unknown` and the
/// serial.
pub fn adb_identity(serial: &str, codename: Option<String>, model: Option<String>) -> (r: (String, String))
    ensures
        (r.0@, r.1@) == (match codename {
            Some(c) => (c@, c@),
            None => match model {
                Some(m) => (m@, m@),
                None => ("unknown"@, serial@),
            },
        }),
{
    match codename {
        Some(c) => {
            let d = owned(c.as_str());
            (c, d)
        },
        None => match model {
            Some(m) => {
                let d = owned(m.as_str());
                (m, d)
            },
            None => (owned("unknown"), owned(serial)),
        },
    }
}

/// `prefix`, then `s`, then `)`.
fn parenthesized(prefix: &str, s: &str) -> (r: String)
    ensures
        r@ == prefix@ + s@ + ")"@,
{
    let a = chars_of(prefix);
    let b = chars_of(s);
    let c = chars_of(")");
    let ab = concat(&a, &b);
    let abc = concat(&ab, &c);
    string_of(&abc)
}

/// One string.
fn one_string(s: &str) -> (r: Vec<String>)
    ensures
        strings_view(r@) == seq![s@],
{
    crate::hardware::command::args1(s)
}

impl Device {
    /// A device from the database, as connected over adb: its serial and the
    /// details read from it; its lock state when that was read.
    pub fn with_adb_details(
        self,
        serial: &str,
        android_version: Option<String>,
        build_id: Option<String>,
        battery_level: Option<u8>,
        unlocked: Option<bool>,
    ) -> (r: Device)
        ensures
            r@ == (DeviceView {
                serial: Some(serial@),
                android_version: opt_str_view(android_version),
                build_id: opt_str_view(build_id),
                battery_level: battery_level,
                is_locked: match unlocked {
                    Some(u) => Some(!u),
                    None => self@.is_locked,
                },
                ..self@
            }),
    {
        let mut d = self;
        d.serial = Some(owned(serial));
        d.android_version = android_version;
        d.build_id = build_id;
        d.battery_level = battery_level;
        match unlocked {
            Some(u) => {
                d.is_locked = Some(!u);
            },
            None => {},
        }
        d
    }

    /// A device from the database, as connected in fastboot mode: its serial;
    /// its lock state when that was read.
    pub fn with_fastboot_details(self, serial: &str, unlocked: Option<bool>) -> (r: Device)
        ensures
            r@ == (DeviceView {
                serial: Some(serial@),
                is_locked: match unlocked {
                    Some(u) => Some(!u),
                    None => self@.is_locked,
                },
                ..self@
            }),
    {
        let mut d = self;
        d.serial = Some(owned(serial));
        match unlocked {
            Some(u) => {
                d.is_locked = Some(!u);
            },
            None => {},
        }
        d
    }

    /// A device seen over adb that the database does not know.
    pub fn unknown_adb(
        codename: &str,
        display_name: &str,
        serial: &str,
        android_version: Option<String>,
        build_id: Option<String>,
        battery_level: Option<u8>,
    ) -> (r: Device)
        ensures
            r@ == (DeviceView {
                codename: codename@,
                name: "Unknown ("@ + display_name@ + ")"@,
                maker: "Unknown"@,
                experimental: true,
                battery_min: 50,
                warnings: seq!["This device is not in the database."@],
                aliases: seq![],
                variants: seq![],
                is_locked: None,
                serial: Some(serial@),
                android_version: opt_str_view(android_version),
                build_id: opt_str_view(build_id),
                battery_level: battery_level,
            }),
    {
        let d = Device {
            codename: owned(codename),
            name: parenthesized("Unknown (", display_name),
            maker: owned("Unknown"),
            experimental: true,
            battery_min: 50,
            warnings: one_string("This device is not in the database."),
            aliases: Vec::new(),
            variants: Vec::new(),
            is_locked: None,
            serial: Some(owned(serial)),
            android_version,
            build_id,
            battery_level,
        };
        assert(strings_view(d.aliases@) =~= Seq::<Seq<char>>::empty());
        assert(strings_view(d.variants@) =~= Seq::<Seq<char>>::empty());
        d
    }

    /// A device in fastboot mode whose `product` the database does not know.
    pub fn unknown_fastboot(product: &str, serial: &str) -> (r: Device)
        ensures
            r@ == (DeviceView {
                codename: product@,
                name: "Unknown Fastboot ("@ + product@ + ")"@,
                maker: "Unknown"@,
                experimental: true,
                battery_min: 0,
                warnings: seq!["This device is not in the database."@, "Device is in Fastboot mode."@],
                aliases: seq![],
                variants: seq![],
                is_locked: None,
                serial: Some(serial@),
                android_version: None,
                build_id: None,
                battery_level: None,
            }),
    {
        let d = Device {
            codename: owned(product),
            name: parenthesized("Unknown Fastboot (", product),
            maker: owned("Unknown"),
            experimental: true,
            battery_min: 0,
            warnings: crate::hardware::command::args2("This device is not in the database.", "Device is in Fastboot mode."),
            aliases: Vec::new(),
            variants: Vec::new(),
            is_locked: None,
            serial: Some(owned(serial)),
            android_version: None,
            build_id: None,
            battery_level: None,
        };
        assert(strings_view(d.aliases@) =~= Seq::<Seq<char>>::empty());
        assert(strings_view(d.variants@) =~= Seq::<Seq<char>>::empty());
        d
    }

    /// A device in fastboot mode whose `product` could not be read.
    pub fn unidentified_fastboot(serial: &str) -> (r: Device)
        ensures
            r@ == (DeviceView {
                codename: "unknown"@,
                name: "Unknown Device ("@ + serial@ + ")"@,
                maker: "Unknown"@,
                experimental: true,
                battery_min: 0,
                warnings: seq!["Could not identify device details."@, "Device is in Fastboot mode."@],
                aliases: seq![],
                variants: seq![],
                is_locked: None,
                serial: Some(serial@),
                android_version: None,
                build_id: None,
                battery_level: None,
            }),
    {
        let d = Device {
            codename: owned("unknown"),
            name: parenthesized("Unknown Device (", serial),
            maker: owned("Unknown"),
            experimental: true,
            battery_min: 0,
            warnings: crate::hardware::command::args2("Could not identify device details.", "Device is in Fastboot mode."),
            aliases: Vec::new(),
            variants: Vec::new(),
            is_locked: None,
            serial: Some(owned(serial)),
            android_version: None,
            build_id: None,
            battery_level: None,
        };
        assert(strings_view(d.aliases@) =~= Seq::<Seq<char>>::empty());
        assert(strings_view(d.variants@) =~= Seq::<Seq<char>>::empty());
        d
    }
}

} // verus!
