use vstd::prelude::*;
use crate::hardware::command::owned;
use crate::models::device::str_eq;
use crate::models::distro_config::{ChannelConfig, CompatibilityInfo, DistroConfig};
use crate::text::{cat3, chars_of, eq_ignore_ascii_case, eq_ignore_ascii_case_spec, lowercase_spec, slice_of, string_of, to_lowercase};
use crate::models::installer::{InstallerConfig, Step, is_heimdall_method};

verus! {

broadcast use vstd::string::group_string_axioms;

/// What the flow does once a distribution is picked, before any channel or
/// interface is chosen.
#[derive(Debug, Clone, Copy, PartialEq, Eq, Structural)]
pub enum PrerequisiteGate {
    /// Ask the first prerequisite of the installer config.
    Ask,
    /// Nothing to ask: go on to channel or interface selection.
    Proceed,
}

/// Where an answer to a prerequisite question leads.
#[derive(Debug, Clone, Copy, PartialEq, Eq, Structural)]
pub enum AnswerRoute {
    /// Go on to channel or interface selection.
    Proceed,
    /// Show the instruction step (its message and optional link).
    ShowInstruction,
    /// Ask to confirm flashing the stock Android build the step names.
    ConfirmAndroidFlash,
    /// Stay on the question.
    Stay,
}

/// Where choosing a distribution leads.
#[derive(Debug, Clone, Copy, PartialEq, Eq, Structural)]
pub enum DistroPage {
    /// Show what works on the device first.
    Compatibility,
    /// Go on to the installation.
    Install,
}

/// Whether compatibility notes list any feature.
pub open spec fn has_compatibility(c: Option<CompatibilityInfo>) -> bool {
    c matches Some(i) && (i.working.len() > 0 || i.partial.len() > 0 || i.not_working.len() > 0
        || i.untested.len() > 0)
}

/// Which choice the flow offers after the prerequisites.
#[derive(Debug, Clone, Copy, PartialEq, Eq, Structural)]
pub enum ChoiceRoute {
    /// The distribution has exactly one channel: install it directly.
    LaunchOnlyChannel,
    /// Several channels: let the user pick one.
    ChooseChannel,
    /// No channel but some interfaces: let the user pick an interface.
    ChooseInterface,
    /// Neither channels nor interfaces: nothing can be installed.
    NoOptions,
}

/// The installer that handles a distribution.
#[derive(Debug, Clone, Copy, PartialEq, Eq, Structural)]
pub enum Backend {
    Ubports,
    Droidian,
    /// postmarketOS reached through a channel: its interface is chosen next.
    Postmarketos,
    Lineageos,
    Eos,
    Grapheneos,
    /// The interface-based installer (Mobian, and postmarketOS by interface).
    Mobian,
}

/// How a device and distribution relate to the Heimdall (Odin) transport.
#[derive(Debug, Clone, Copy, PartialEq, Eq, Structural)]
pub enum HeimdallRoute {
    /// Not a Heimdall installation: the fastboot path applies.
    Fastboot,
    /// A Heimdall installation, but the device serial is unknown.
    MissingSerial,
    /// A Heimdall installation without any firmware image configured.
    NoFirmware,
    /// Start the Heimdall installer.
    Launch,
}

/// The outcome of asking to install.
#[derive(Debug, Clone, Copy, PartialEq, Eq, Structural)]
pub enum Launch {
    /// The battery is known to be below the device's minimum: nothing starts.
    BatteryTooLow,
    /// The Heimdall installer starts.
    Heimdall,
    /// A Heimdall device without a known serial: nothing starts.
    HeimdallWithoutSerial,
    /// A Heimdall device without firmware images: nothing starts.
    HeimdallWithoutFirmware,
    /// The installer of this backend starts.
    Install(Backend),
    /// No installer handles the distribution.
    NoBackend,
}

/// Flashing may go on: the battery level is unknown (fastboot mode cannot
/// read it) or at least the minimum.
pub open spec fn battery_ok_spec(level: Option<u8>, min: u8) -> bool {
    match level {
        None => true,
        Some(l) => l >= min,
    }
}

pub open spec fn answer_route_spec(step: Option<Step>, answered_yes: bool) -> AnswerRoute {
    match step {
        Some(Step::Instruction { .. }) => AnswerRoute::ShowInstruction,
        Some(Step::FlashAndroid { .. }) => AnswerRoute::ConfirmAndroidFlash,
        _ => if answered_yes {
            AnswerRoute::Proceed
        } else {
            AnswerRoute::Stay
        },
    }
}

pub open spec fn channel_count(config: Option<DistroConfig>) -> nat {
    match config {
        Some(c) => c.channels@.len(),
        None => 0,
    }
}

pub open spec fn interface_count(config: Option<DistroConfig>) -> nat {
    match config {
        Some(c) => match c.interfaces {
            Some(v) => v@.len(),
            None => 0,
        },
        None => 0,
    }
}

pub open spec fn choice_spec(channels: nat, interfaces: nat) -> ChoiceRoute {
    if channels == 0 {
        if interfaces > 0 {
            ChoiceRoute::ChooseInterface
        } else {
            ChoiceRoute::NoOptions
        }
    } else if channels == 1 {
        ChoiceRoute::LaunchOnlyChannel
    } else {
        ChoiceRoute::ChooseChannel
    }
}

pub open spec fn backend_spec(id: Seq<char>) -> Option<Backend> {
    if id == "ubuntutouch"@ || id == "ubports"@ {
        Some(Backend::Ubports)
    } else if id == "droidian"@ {
        Some(Backend::Droidian)
    } else if id == "postmarketos"@ {
        Some(Backend::Postmarketos)
    } else if id == "lineageos"@ {
        Some(Backend::Lineageos)
    } else if id == "eos"@ {
        Some(Backend::Eos)
    } else if id == "grapheneos"@ {
        Some(Backend::Grapheneos)
    } else {
        None
    }
}

pub open spec fn heimdall_route_spec(config: Option<InstallerConfig>, has_serial: bool) -> HeimdallRoute {
    match config {
        None => HeimdallRoute::Fastboot,
        Some(c) => if !is_heimdall_method(c.flash_method@) {
            HeimdallRoute::Fastboot
        } else if !has_serial {
            HeimdallRoute::MissingSerial
        } else if c.firmware@.len() == 0 {
            HeimdallRoute::NoFirmware
        } else {
            HeimdallRoute::Launch
        },
    }
}

/// The outcome of asking to install: the battery guard first, then the
/// Heimdall transport, then the backend.
pub open spec fn launch_spec(
    level: Option<u8>,
    min: u8,
    config: Option<InstallerConfig>,
    has_serial: bool,
    backend: Option<Backend>,
) -> Launch {
    if !battery_ok_spec(level, min) {
        Launch::BatteryTooLow
    } else {
        match heimdall_route_spec(config, has_serial) {
            HeimdallRoute::Launch => Launch::Heimdall,
            HeimdallRoute::MissingSerial => Launch::HeimdallWithoutSerial,
            HeimdallRoute::NoFirmware => Launch::HeimdallWithoutFirmware,
            HeimdallRoute::Fastboot => match backend {
                Some(b) => Launch::Install(b),
                None => Launch::NoBackend,
            },
        }
    }
}

pub open spec fn opt_installer(config: Option<&InstallerConfig>) -> Option<InstallerConfig> {
    match config {
        Some(c) => Some(*c),
        None => None,
    }
}

pub open spec fn opt_distro(config: Option<&DistroConfig>) -> Option<DistroConfig> {
    match config {
        Some(c) => Some(*c),
        None => None,
    }
}

impl Launch {
    /// Device detection is paused once an installer is about to start, and on
    /// the fastboot path also when no backend handles the distribution.
    pub open spec fn pauses_detection_spec(self) -> bool {
        match self {
            Launch::Heimdall => true,
            Launch::Install(_) => true,
            Launch::NoBackend => true,
            _ => false,
        }
    }

    pub fn pauses_detection(&self) -> (r: bool)
        ensures
            r == self.pauses_detection_spec(),
    {
        match self {
            Launch::Heimdall => true,
            Launch::Install(_) => true,
            Launch::NoBackend => true,
            _ => false,
        }
    }
}

/// The decisions of the installation flow, from a picked distribution to the
/// installer that runs.
pub struct InstallFlow;

impl InstallFlow {
    /// Guard against flashing on a low battery: a phone that dies mid-flash
    /// can be bricked. An unknown level (fastboot mode) does not block.
    pub fn battery_ok(level: Option<u8>, min: u8) -> (r: bool)
        ensures
            r == battery_ok_spec(level, min),
    {
        match level {
            None => true,
            Some(l) => l >= min,
        }
    }

    /// Ask the first prerequisite when the installer config has one.
    pub fn prerequisite_gate(config: Option<&InstallerConfig>) -> (r: PrerequisiteGate)
        ensures
            r == (match opt_installer(config) {
                Some(c) => if c.prerequisites@.len() > 0 {
                    PrerequisiteGate::Ask
                } else {
                    PrerequisiteGate::Proceed
                },
                None => PrerequisiteGate::Proceed,
            }),
    {
        match config {
            Some(c) => if c.prerequisites.len() > 0 {
                PrerequisiteGate::Ask
            } else {
                PrerequisiteGate::Proceed
            },
            None => PrerequisiteGate::Proceed,
        }
    }

    /// Where an answer leads, given the step that the answer names
    /// (`on_success` for yes, `on_failure` for no) as found in the config.
    /// A flash step, or a missing one, goes on after yes and stays after no.
    pub fn answer_route(step: Option<&Step>, answered_yes: bool) -> (r: AnswerRoute)
        ensures
            r == answer_route_spec(
                match step {
                    Some(s) => Some(*s),
                    None => None,
                },
                answered_yes,
            ),
    {
        match step {
            Some(Step::Instruction { .. }) => AnswerRoute::ShowInstruction,
            Some(Step::FlashAndroid { .. }) => AnswerRoute::ConfirmAndroidFlash,
            _ => if answered_yes {
                AnswerRoute::Proceed
            } else {
                AnswerRoute::Stay
            },
        }
    }

    /// What choosing a distribution leads to: its compatibility page when its
    /// config lists any working, partly working, not working or untested
    /// feature; otherwise straight to the installation.
    pub fn distro_page(config: &DistroConfig) -> (r: DistroPage)
        ensures
            r == (if has_compatibility(config.compatibility) {
                DistroPage::Compatibility
            } else {
                DistroPage::Install
            }),
    {
        match &config.compatibility {
            Some(c) => if c.working.len() > 0 || c.partial.len() > 0 || c.not_working.len() > 0 || c.untested.len()
                > 0 {
                DistroPage::Compatibility
            } else {
                DistroPage::Install
            },
            None => DistroPage::Install,
        }
    }

    /// The choice offered after the prerequisites: channels first, then
    /// interfaces; a distribution not in the config has neither.
    pub fn after_prerequisites(config: Option<&DistroConfig>) -> (r: ChoiceRoute)
        ensures
            r == choice_spec(channel_count(opt_distro(config)), interface_count(opt_distro(config))),
    {
        let channels: usize = match config {
            Some(c) => c.channels.len(),
            None => 0,
        };
        let interfaces: usize = match config {
            Some(c) => match &c.interfaces {
                Some(v) => v.len(),
                None => 0,
            },
            None => 0,
        };
        if channels == 0 {
            if interfaces > 0 {
                ChoiceRoute::ChooseInterface
            } else {
                ChoiceRoute::NoOptions
            }
        } else if channels == 1 {
            ChoiceRoute::LaunchOnlyChannel
        } else {
            ChoiceRoute::ChooseChannel
        }
    }

    /// The installer that handles a distribution chosen through a channel.
    pub fn backend_for(distro_id: &str) -> (r: Option<Backend>)
        ensures
            r == backend_spec(distro_id@),
    {
        if str_eq(distro_id, "ubuntutouch") || str_eq(distro_id, "ubports") {
            Some(Backend::Ubports)
        } else if str_eq(distro_id, "droidian") {
            Some(Backend::Droidian)
        } else if str_eq(distro_id, "postmarketos") {
            Some(Backend::Postmarketos)
        } else if str_eq(distro_id, "lineageos") {
            Some(Backend::Lineageos)
        } else if str_eq(distro_id, "eos") {
            Some(Backend::Eos)
        } else if str_eq(distro_id, "grapheneos") {
            Some(Backend::Grapheneos)
        } else {
            None
        }
    }

    /// Whether this device and distribution flash over Heimdall, and if so
    /// whether the installation can start. A Heimdall device never falls
    /// through to the fastboot path.
    pub fn heimdall_route(config: Option<&InstallerConfig>, serial: Option<&str>) -> (r: HeimdallRoute)
        ensures
            r == heimdall_route_spec(opt_installer(config), serial is Some),
    {
        match config {
            None => HeimdallRoute::Fastboot,
            Some(c) => if !c.uses_heimdall() {
                HeimdallRoute::Fastboot
            } else if serial.is_none() {
                HeimdallRoute::MissingSerial
            } else if c.firmware.len() == 0 {
                HeimdallRoute::NoFirmware
            } else {
                HeimdallRoute::Launch
            },
        }
    }

    fn launch(level: Option<u8>, min: u8, config: Option<&InstallerConfig>, serial: Option<&str>, backend: Option<Backend>) -> (r: Launch)
        ensures
            r == launch_spec(level, min, opt_installer(config), serial is Some, backend),
    {
        if !Self::battery_ok(level, min) {
            return Launch::BatteryTooLow;
        }
        match Self::heimdall_route(config, serial) {
            HeimdallRoute::Launch => Launch::Heimdall,
            HeimdallRoute::MissingSerial => Launch::HeimdallWithoutSerial,
            HeimdallRoute::NoFirmware => Launch::HeimdallWithoutFirmware,
            HeimdallRoute::Fastboot => match backend {
                Some(b) => Launch::Install(b),
                None => Launch::NoBackend,
            },
        }
    }

    /// Install a distribution through one of its channels.
    pub fn launch_install(
        battery_level: Option<u8>,
        battery_min: u8,
        config: Option<&InstallerConfig>,
        serial: Option<&str>,
        distro_id: &str,
    ) -> (r: Launch)
        ensures
            r == launch_spec(battery_level, battery_min, opt_installer(config), serial is Some, backend_spec(distro_id@)),
    {
        let backend = Self::backend_for(distro_id);
        Self::launch(battery_level, battery_min, config, serial, backend)
    }

    /// Install a distribution through one of its interfaces: every such
    /// distribution goes to the interface-based installer.
    pub fn launch_interface_install(
        battery_level: Option<u8>,
        battery_min: u8,
        config: Option<&InstallerConfig>,
        serial: Option<&str>,
    ) -> (r: Launch)
        ensures
            r == launch_spec(battery_level, battery_min, opt_installer(config), serial is Some, Some(Backend::Mobian)),
    {
        Self::launch(battery_level, battery_min, config, serial, Some(Backend::Mobian))
    }
}

/// Why an installer cannot be started with what the configs give.
#[derive(Debug, Clone, Copy, PartialEq, Eq, Structural)]
pub enum LaunchError {
    /// The battery is known to be below the device's minimum.
    BatteryTooLow,
    /// The device serial is unknown.
    NoSerial,
    /// The channel names no system-image path.
    NoChannelPath,
    /// The channel names no release URL.
    NoReleaseUrl,
    /// The channel names no artifact pattern.
    NoArtifactMatch,
    /// The distribution has no config for the device.
    NoDistroConfig,
    /// The distribution config names no base URL.
    NoBaseUrl,
}

/// `s` without its trailing `/`s (`str::trim_end_matches('/')`).
pub open spec fn trim_trailing_slashes(s: Seq<char>) -> Seq<char>
    decreases s.len(),
{
    if s.len() > 0 && s.last() == '/' {
        trim_trailing_slashes(s.drop_last())
    } else {
        s
    }
}

/// A device made by Samsung flashes over download mode whatever its chip.
pub open spec fn is_samsung_spec(maker: Seq<char>) -> bool {
    eq_ignore_ascii_case_spec(maker, "samsung"@)
}

/// The base URL of a distribution config, or why there is none.
pub open spec fn base_url_spec(config: Option<DistroConfig>) -> Result<Seq<char>, LaunchError> {
    match config {
        None => Err(LaunchError::NoDistroConfig),
        Some(c) => match c.base_url {
            None => Err(LaunchError::NoBaseUrl),
            Some(u) => Ok(u@),
        },
    }
}

fn trim_slashes_end(s: &str) -> (r: String)
    ensures
        r@ == trim_trailing_slashes(s@),
{
    let v = chars_of(s);
    let mut n: usize = v.len();
    assert(v@.take(n as int) =~= v@);
    while n > 0 && v[n - 1] == '/'
        invariant
            n <= v.len(),
            trim_trailing_slashes(v@) == trim_trailing_slashes(v@.take(n as int)),
        decreases n,
    {
        assert(v@.take(n as int).drop_last() =~= v@.take(n - 1));
        n = n - 1;
    }
    let t = slice_of(&v, 0, n);
    assert(t@ =~= v@.take(n as int));
    string_of(&t)
}

fn serial_of(serial: Option<&str>) -> (r: Result<String, LaunchError>)
    ensures
        match serial {
            None => r == Err::<String, LaunchError>(LaunchError::NoSerial),
            Some(s) => r is Ok && r->Ok_0@ == s@,
        },
{
    match serial {
        None => Err(LaunchError::NoSerial),
        Some(s) => Ok(owned(s)),
    }
}

impl InstallFlow {
    /// Whether the maker is Samsung, compared without ASCII case.
    pub fn is_samsung(maker: &str) -> (r: bool)
        ensures
            r == is_samsung_spec(maker@),
    {
        eq_ignore_ascii_case(maker, "samsung")
    }

    /// The base URL of a distribution config.
    pub fn base_url(config: Option<&DistroConfig>) -> (r: Result<String, LaunchError>)
        ensures
            match base_url_spec(opt_distro(config)) {
                Ok(u) => r is Ok && r->Ok_0@ == u,
                Err(e) => r == Err::<String, LaunchError>(e),
            },
    {
        match config {
            None => Err(LaunchError::NoDistroConfig),
            Some(c) => match &c.base_url {
                None => Err(LaunchError::NoBaseUrl),
                Some(u) => Ok(owned(u.as_str())),
            },
        }
    }

    /// The serial and system-image channel path (without trailing `/`s) of
    /// an Ubuntu Touch installation.
    pub fn ubports_source(serial: Option<&str>, channel: &ChannelConfig) -> (r: Result<(String, String), LaunchError>)
        ensures
            serial is None ==> r == Err::<(String, String), LaunchError>(LaunchError::NoSerial),
            serial is Some && channel.path is None ==> r == Err::<(String, String), LaunchError>(
                LaunchError::NoChannelPath,
            ),
            serial is Some && channel.path is Some ==> r is Ok && r->Ok_0.0@ == serial->Some_0@ && r->Ok_0.1@
                == trim_trailing_slashes(channel.path->Some_0@),
    {
        let s = serial_of(serial)?;
        match &channel.path {
            None => Err(LaunchError::NoChannelPath),
            Some(p) => Ok((s, trim_slashes_end(p.as_str()))),
        }
    }

    /// The serial, release URL and artifact pattern of a Droidian installation.
    pub fn droidian_source(serial: Option<&str>, channel: &ChannelConfig) -> (r: Result<
        (String, String, String),
        LaunchError,
    >)
        ensures
            serial is None ==> r == Err::<(String, String, String), LaunchError>(LaunchError::NoSerial),
            serial is Some && channel.release_url is None ==> r == Err::<(String, String, String), LaunchError>(
                LaunchError::NoReleaseUrl,
            ),
            serial is Some && channel.release_url is Some && channel.artifact_match is None ==> r == Err::<
                (String, String, String),
                LaunchError,
            >(LaunchError::NoArtifactMatch),
            serial is Some && channel.release_url is Some && channel.artifact_match is Some ==> r is Ok
                && r->Ok_0.0@ == serial->Some_0@ && r->Ok_0.1@ == channel.release_url->Some_0@ && r->Ok_0.2@
                == channel.artifact_match->Some_0@,
    {
        let s = serial_of(serial)?;
        let url = match &channel.release_url {
            None => {
                return Err(LaunchError::NoReleaseUrl);
            },
            Some(u) => owned(u.as_str()),
        };
        match &channel.artifact_match {
            None => Err(LaunchError::NoArtifactMatch),
            Some(a) => Ok((s, url, owned(a.as_str()))),
        }
    }

    /// The serial and release URL of a LineageOS installation, and whether
    /// it flashes over download mode (a Samsung device).
    pub fn lineageos_source(serial: Option<&str>, channel: &ChannelConfig, maker: &str) -> (r: Result<
        (String, String, bool),
        LaunchError,
    >)
        ensures
            serial is None ==> r == Err::<(String, String, bool), LaunchError>(LaunchError::NoSerial),
            serial is Some && channel.release_url is None ==> r == Err::<(String, String, bool), LaunchError>(
                LaunchError::NoReleaseUrl,
            ),
            serial is Some && channel.release_url is Some ==> r is Ok && r->Ok_0.0@ == serial->Some_0@ && r->Ok_0.1@
                == channel.release_url->Some_0@ && r->Ok_0.2 == is_samsung_spec(maker@),
    {
        let s = serial_of(serial)?;
        match &channel.release_url {
            None => Err(LaunchError::NoReleaseUrl),
            Some(u) => Ok((s, owned(u.as_str()), Self::is_samsung(maker))),
        }
    }

    /// The serial and base URL of an /e/OS installation, and whether it
    /// flashes over download mode (a Samsung device).
    pub fn eos_source(serial: Option<&str>, config: Option<&DistroConfig>, maker: &str) -> (r: Result<
        (String, String, bool),
        LaunchError,
    >)
        ensures
            serial is None ==> r == Err::<(String, String, bool), LaunchError>(LaunchError::NoSerial),
            serial is Some ==> match base_url_spec(opt_distro(config)) {
                Ok(u) => r is Ok && r->Ok_0.0@ == serial->Some_0@ && r->Ok_0.1@ == u && r->Ok_0.2 == is_samsung_spec(
                    maker@,
                ),
                Err(e) => r == Err::<(String, String, bool), LaunchError>(e),
            },
    {
        let s = serial_of(serial)?;
        let u = Self::base_url(config)?;
        Ok((s, u, Self::is_samsung(maker)))
    }

    /// The serial, base URL, chipset and device model of an interface-based
    /// installation; the chipset is `sdm670` and the model the device's
    /// codename when the config names none.
    pub fn mobian_source(serial: Option<&str>, config: Option<&DistroConfig>, codename: &str) -> (r: Result<
        (String, String, String, String),
        LaunchError,
    >)
        ensures
            serial is None ==> r == Err::<(String, String, String, String), LaunchError>(LaunchError::NoSerial),
            serial is Some ==> match base_url_spec(opt_distro(config)) {
                Ok(u) => r is Ok && r->Ok_0.0@ == serial->Some_0@ && r->Ok_0.1@ == u && r->Ok_0.2@ == (match config->Some_0.chipset {
                    Some(c) => c@,
                    None => "sdm670"@,
                }) && r->Ok_0.3@ == (match config->Some_0.device_model {
                    Some(m) => m@,
                    None => codename@,
                }),
                Err(e) => r == Err::<(String, String, String, String), LaunchError>(e),
            },
    {
        let s = serial_of(serial)?;
        let u = Self::base_url(config)?;
        let c = match config {
            Some(c) => c,
            None => {
                return Err(LaunchError::NoDistroConfig);
            },
        };
        let chipset = match &c.chipset {
            Some(x) => owned(x.as_str()),
            None => owned("sdm670"),
        };
        let model = match &c.device_model {
            Some(m) => owned(m.as_str()),
            None => owned(codename),
        };
        Ok((s, u, chipset, model))
    }

    /// The serial, base URL and device directory name of a postmarketOS
    /// installation: the maker and codename lowercased, joined by `-`
    /// (postmarketOS device directories are all lowercase).
    pub fn postmarketos_source(
        serial: Option<&str>,
        config: Option<&DistroConfig>,
        maker: &str,
        codename: &str,
    ) -> (r: Result<(String, String, String), LaunchError>)
        ensures
            serial is None ==> r == Err::<(String, String, String), LaunchError>(LaunchError::NoSerial),
            serial is Some ==> match base_url_spec(opt_distro(config)) {
                Ok(u) => r is Ok && r->Ok_0.0@ == serial->Some_0@ && r->Ok_0.1@ == u && r->Ok_0.2@ == lowercase_spec(
                    maker@,
                ) + "-"@ + lowercase_spec(codename@),
                Err(e) => r == Err::<(String, String, String), LaunchError>(e),
            },
    {
        let s = serial_of(serial)?;
        let u = Self::base_url(config)?;
        let m = to_lowercase(maker);
        let c = to_lowercase(codename);
        Ok((s, u, cat3(m.as_str(), "-", c.as_str())))
    }

    /// The serial of a stock Android flash, after the battery guard.
    pub fn factory_image_source(battery_level: Option<u8>, battery_min: u8, serial: Option<&str>) -> (r: Result<
        String,
        LaunchError,
    >)
        ensures
            !battery_ok_spec(battery_level, battery_min) ==> r == Err::<String, LaunchError>(LaunchError::BatteryTooLow),
            battery_ok_spec(battery_level, battery_min) ==> match serial {
                None => r == Err::<String, LaunchError>(LaunchError::NoSerial),
                Some(s) => r is Ok && r->Ok_0@ == s@,
            },
    {
        if !Self::battery_ok(battery_level, battery_min) {
            return Err(LaunchError::BatteryTooLow);
        }
        serial_of(serial)
    }
}

/// No installation starts while the battery is known to be below the
/// device's minimum, whichever way it was asked for.
pub proof fn lemma_low_battery_blocks(
    level: u8,
    min: u8,
    config: Option<InstallerConfig>,
    has_serial: bool,
    backend: Option<Backend>,
)
    requires
        level < min,
    ensures
        launch_spec(Some(level), min, config, has_serial, backend) == Launch::BatteryTooLow,
        !launch_spec(Some(level), min, config, has_serial, backend).pauses_detection_spec(),
{
}

/// A Heimdall device never reaches a fastboot installer: with the battery
/// fine it either starts the Heimdall installer or starts nothing.
pub proof fn lemma_heimdall_never_fastboot(
    level: Option<u8>,
    min: u8,
    config: InstallerConfig,
    has_serial: bool,
    backend: Option<Backend>,
)
    requires
        is_heimdall_method(config.flash_method@),
        battery_ok_spec(level, min),
    ensures
        !(launch_spec(level, min, Some(config), has_serial, backend) is Install),
        launch_spec(level, min, Some(config), has_serial, backend) != Launch::NoBackend,
        (launch_spec(level, min, Some(config), has_serial, backend) == Launch::Heimdall) <==> (has_serial
            && config.firmware@.len() > 0),
{
}

/// Each distribution goes to its own installer, and only its ids do:
/// `ubuntutouch` and `ubports` to UBports, `droidian` to Droidian,
/// `postmarketos` to postmarketOS, `lineageos` to LineageOS, `eos` to /e/OS,
/// `grapheneos` to GrapheneOS; any other id to none.
pub proof fn lemma_backend_of_each_distro(id: Seq<char>)
    ensures
        (backend_spec(id) == Some(Backend::Ubports)) <==> (id == "ubuntutouch"@ || id == "ubports"@),
        (backend_spec(id) == Some(Backend::Droidian)) <==> id == "droidian"@,
        (backend_spec(id) == Some(Backend::Postmarketos)) <==> id == "postmarketos"@,
        (backend_spec(id) == Some(Backend::Lineageos)) <==> id == "lineageos"@,
        (backend_spec(id) == Some(Backend::Eos)) <==> id == "eos"@,
        (backend_spec(id) == Some(Backend::Grapheneos)) <==> id == "grapheneos"@,
{
    reveal_strlit("ubuntutouch");
    reveal_strlit("ubports");
    reveal_strlit("droidian");
    reveal_strlit("postmarketos");
    reveal_strlit("lineageos");
    reveal_strlit("eos");
    reveal_strlit("grapheneos");
    assert("ubuntutouch"@.len() == 11 && "ubports"@.len() == 7 && "droidian"@.len() == 8);
    assert("postmarketos"@.len() == 12 && "lineageos"@.len() == 9 && "eos"@.len() == 3 && "grapheneos"@.len() == 10);
}

/// With enough battery (or an unknown level) and a fastboot device, asking
/// to install a distribution that has an installer launches that installer;
/// a known level below the device's minimum never launches anything.
pub proof fn lemma_install_launches_its_backend(
    level: Option<u8>,
    min: u8,
    config: Option<InstallerConfig>,
    has_serial: bool,
    b: Backend,
)
    requires
        match config {
            Some(c) => !is_heimdall_method(c.flash_method@),
            None => true,
        },
    ensures
        (level is None || level->0 >= min) ==> launch_spec(level, min, config, has_serial, Some(b)) == Launch::Install(b),
        (level matches Some(l) && l < min) ==> launch_spec(level, min, config, has_serial, Some(b))
            == Launch::BatteryTooLow,
{
}

} // verus!
