use vstd::prelude::*;
use crate::hardware::command::{CommandLine, CommandView, owned};
use crate::text::{chars_of, string_of, trim, trim_spec};

verus! {

broadcast use vstd::string::group_string_axioms;

/// Progress messages sent from an installation to the UI.
#[derive(Debug, Clone)]
pub enum InstallProgress {
    /// File download progress.
    DownloadProgress { downloaded: u64, total: u64, file_name: String },
    /// Checksum verification progress.
    VerifyProgress { verified: usize, total: usize, file_name: String },
    /// Flash/push step progress.
    FlashProgress { current: usize, total: usize, description: String },
    /// Status text update.
    StatusChanged(String),
    /// Waiting for the user to select recovery mode on the device.
    WaitingForRecovery,
    /// The device entered recovery mode.
    RecoveryDetected,
    /// Waiting for the user to perform an action on the device.
    WaitingForUserAction(String),
    /// Installation completed successfully.
    Complete,
    /// An error occurred.
    Error(String),
}

pub enum ProgressView {
    DownloadProgress { downloaded: u64, total: u64, file_name: Seq<char> },
    VerifyProgress { verified: usize, total: usize, file_name: Seq<char> },
    FlashProgress { current: usize, total: usize, description: Seq<char> },
    StatusChanged(Seq<char>),
    WaitingForRecovery,
    RecoveryDetected,
    WaitingForUserAction(Seq<char>),
    Complete,
    Error(Seq<char>),
}

impl View for InstallProgress {
    type V = ProgressView;

    open spec fn view(&self) -> ProgressView {
        match self {
            InstallProgress::DownloadProgress { downloaded, total, file_name } => ProgressView::DownloadProgress {
                downloaded: *downloaded,
                total: *total,
                file_name: file_name@,
            },
            InstallProgress::VerifyProgress { verified, total, file_name } => ProgressView::VerifyProgress {
                verified: *verified,
                total: *total,
                file_name: file_name@,
            },
            InstallProgress::FlashProgress { current, total, description } => ProgressView::FlashProgress {
                current: *current,
                total: *total,
                description: description@,
            },
            InstallProgress::StatusChanged(s) => ProgressView::StatusChanged(s@),
            InstallProgress::WaitingForRecovery => ProgressView::WaitingForRecovery,
            InstallProgress::RecoveryDetected => ProgressView::RecoveryDetected,
            InstallProgress::WaitingForUserAction(s) => ProgressView::WaitingForUserAction(s@),
            InstallProgress::Complete => ProgressView::Complete,
            InstallProgress::Error(s) => ProgressView::Error(s@),
        }
    }
}

impl InstallProgress {
    /// A completed or failed installation: progress reporting ends with it.
    pub fn ends_installation(&self) -> (r: bool)
        ensures
            r == (self@ is Complete || self@ is Error),
    {
        match self {
            InstallProgress::Complete => true,
            InstallProgress::Error(_) => true,
            _ => false,
        }
    }
}

/// What a line printed by a flash script reports: its trimmed text as the
/// status, unless it is blank.
pub fn script_line(line: &str) -> (r: Option<InstallProgress>)
    ensures
        trim_spec(line@).len() == 0 ==> r is None,
        trim_spec(line@).len() > 0 ==> r is Some && r->Some_0@ == ProgressView::StatusChanged(trim_spec(line@)),
{
    let t = trim(&chars_of(line));
    if t.len() == 0 {
        None
    } else {
        Some(InstallProgress::StatusChanged(string_of(&t)))
    }
}

/// One piece of outside work an installation asks for, in order.
#[derive(Debug)]
pub enum Action {
    /// Report progress to the UI.
    Report(InstallProgress),
    /// Download `url` to `file_name` in the download directory (kept when a
    /// cached copy matches `sha256`, or, without one, is not empty),
    /// reporting progress as `label`; a failure ends the installation with
    /// `context`.
    Download { url: String, file_name: String, sha256: Option<String>, label: String, context: String },
    /// Check that the SHA-256 of the file at `path` is `sha256`; a mismatch
    /// ends the installation with `mismatch`.
    Verify { path: String, sha256: String, mismatch: String },
    /// Decompress the XZ file at `path` next to it; a failure ends the
    /// installation with `context`.
    DecompressXz { path: String, context: String },
    /// Run a device command. Unless `tolerant`, a failure ends the
    /// installation (with the context before the reason, when there is one);
    /// a tolerant command's failure is only logged.
    Run { command: CommandLine, context: Option<String>, tolerant: bool },
    /// End the installation with this message.
    Abort(String),
    /// Unpack a `.tar.xz` archive into a fresh directory.
    ExtractTarXz { archive: String, dir: String },
    /// Unpack a zip archive into a fresh directory.
    ExtractZip { archive: String, dir: String },
    /// Unpack a zip archive into a directory, keeping what it holds.
    UnpackZip { archive: String, dir: String },
    /// Run a flashing script bundled with an image: `bash -c shell` in `dir`
    /// (or, with `nested`, in the subdirectory of `dir` that holds `script`),
    /// showing each line it prints; `failure` begins the message of a
    /// non-zero exit.
    FlashAll { dir: String, script: String, shell: String, nested: bool, failure: String },
    /// Wait for the device to show in fastboot mode (up to 60 polls, 2 s
    /// apart).
    WaitForFastboot,
    /// Wait for the device to show in download mode (one poll a second, for
    /// up to `seconds`); a timeout ends the installation with `context`.
    WaitForDownloadMode { seconds: u64, context: String },
    /// Read a fastboot variable with `command` (a failed read gives an
    /// empty value); the installation ends unless it is `value`.
    AssertVar { command: CommandLine, variable: String, value: String },
    /// Pause for a number of seconds.
    Sleep(u64),
}

pub enum ActionView {
    Report(ProgressView),
    Download { url: Seq<char>, file_name: Seq<char>, sha256: Option<Seq<char>>, label: Seq<char>, context: Seq<char> },
    Verify { path: Seq<char>, sha256: Seq<char>, mismatch: Seq<char> },
    DecompressXz { path: Seq<char>, context: Seq<char> },
    Run { command: CommandView, context: Option<Seq<char>>, tolerant: bool },
    Abort(Seq<char>),
    ExtractTarXz { archive: Seq<char>, dir: Seq<char> },
    ExtractZip { archive: Seq<char>, dir: Seq<char> },
    UnpackZip { archive: Seq<char>, dir: Seq<char> },
    FlashAll { dir: Seq<char>, script: Seq<char>, shell: Seq<char>, nested: bool, failure: Seq<char> },
    WaitForFastboot,
    WaitForDownloadMode { seconds: u64, context: Seq<char> },
    AssertVar { command: CommandView, variable: Seq<char>, value: Seq<char> },
    Sleep(u64),
}

pub open spec fn opt_view(o: Option<String>) -> Option<Seq<char>> {
    match o {
        Some(s) => Some(s@),
        None => None,
    }
}

impl View for Action {
    type V = ActionView;

    open spec fn view(&self) -> ActionView {
        match self {
            Action::Report(p) => ActionView::Report(p@),
            Action::Download { url, file_name, sha256, label, context } => ActionView::Download {
                url: url@,
                file_name: file_name@,
                sha256: opt_view(*sha256),
                label: label@,
                context: context@,
            },
            Action::Verify { path, sha256, mismatch } => ActionView::Verify {
                path: path@,
                sha256: sha256@,
                mismatch: mismatch@,
            },
            Action::DecompressXz { path, context } => ActionView::DecompressXz { path: path@, context: context@ },
            Action::Run { command, context, tolerant } => ActionView::Run {
                command: command@,
                context: opt_view(*context),
                tolerant: *tolerant,
            },
            Action::Abort(m) => ActionView::Abort(m@),
            Action::ExtractTarXz { archive, dir } => ActionView::ExtractTarXz { archive: archive@, dir: dir@ },
            Action::ExtractZip { archive, dir } => ActionView::ExtractZip { archive: archive@, dir: dir@ },
            Action::UnpackZip { archive, dir } => ActionView::UnpackZip { archive: archive@, dir: dir@ },
            Action::FlashAll { dir, script, shell, nested, failure } => ActionView::FlashAll {
                dir: dir@,
                script: script@,
                shell: shell@,
                nested: *nested,
                failure: failure@,
            },
            Action::WaitForFastboot => ActionView::WaitForFastboot,
            Action::WaitForDownloadMode { seconds, context } => ActionView::WaitForDownloadMode {
                seconds: *seconds,
                context: context@,
            },
            Action::AssertVar { command, variable, value } => ActionView::AssertVar {
                command: command@,
                variable: variable@,
                value: value@,
            },
            Action::Sleep(s) => ActionView::Sleep(*s),
        }
    }
}

pub open spec fn actions_view(v: Seq<Action>) -> Seq<ActionView> {
    v.map_values(|a: Action| a@)
}

/// Whether a failure of this action is only logged.
pub open spec fn tolerant(a: ActionView) -> bool {
    a matches ActionView::Run { tolerant: true, .. }
}

/// How a performed action went.
#[derive(Debug, Clone)]
pub enum Outcome {
    Done,
    /// A checksum did not match.
    Mismatch,
    /// It failed, for this reason.
    Failed(String),
}

/// What the installation does next.
#[derive(Debug, Clone)]
pub enum Next {
    /// Perform the action with this index.
    Perform(usize),
    /// All actions are done.
    Finish,
    /// Stop: the installation failed, with this message.
    Fail(String),
}

pub enum NextView {
    Perform(usize),
    Finish,
    Fail(Seq<char>),
}

impl View for Next {
    type V = NextView;

    open spec fn view(&self) -> NextView {
        match self {
            Next::Perform(i) => NextView::Perform(*i),
            Next::Finish => NextView::Finish,
            Next::Fail(s) => NextView::Fail(s@),
        }
    }
}

/// The device command a step runs, when it runs one.
pub open spec fn run_command(a: ActionView) -> Option<crate::hardware::command::CommandView> {
    match a {
        ActionView::Run { command, .. } => Some(command),
        _ => None,
    }
}

/// A step that runs a device command whose verb (the argument after the
/// serial) is `verb`.
pub open spec fn runs_verb(a: ActionView, verb: Seq<char>) -> bool {
    run_command(a) matches Some(c) && c.args.len() > 2 && c.args[2] == verb
}

/// The message a failed action ends the installation with: its context and
/// the reason (`context: reason`), or, for a checksum that did not match
/// (no reason), the mismatch message.
pub open spec fn failure_spec(a: ActionView, reason: Option<Seq<char>>) -> Seq<char> {
    let why = match reason {
        Some(r) => r,
        None => seq![],
    };
    match a {
        ActionView::Download { context, .. } => context + ": "@ + why,
        ActionView::Verify { mismatch, .. } => match reason {
            Some(r) => r,
            None => mismatch,
        },
        ActionView::DecompressXz { context, .. } => context + ": "@ + why,
        ActionView::Run { context: Some(c), .. } => c + ": "@ + why,
        ActionView::Abort(m) => m,
        ActionView::WaitForDownloadMode { context, .. } => context + ": "@ + why,
        _ => why,
    }
}

/// How an outcome reads: `None` when done, else the reason of the failure
/// (`None` for a checksum mismatch).
pub open spec fn outcome_spec(o: Outcome) -> Option<Option<Seq<char>>> {
    match o {
        Outcome::Done => None,
        Outcome::Mismatch => Some(None),
        Outcome::Failed(s) => Some(Some(s@)),
    }
}

/// The step after the action at `index` went as `outcome`: the next action,
/// or the end; a failure ends the installation unless the action is one
/// whose failure is only logged.
pub open spec fn advance_spec(plan: Seq<ActionView>, index: int, outcome: Option<Option<Seq<char>>>) -> NextView {
    if outcome is Some && !tolerant(plan[index]) {
        NextView::Fail(failure_spec(plan[index], outcome->0))
    } else if index + 1 < plan.len() {
        NextView::Perform((index + 1) as usize)
    } else {
        NextView::Finish
    }
}

fn with_reason(context: &String, reason: &String) -> (r: String)
    ensures
        r@ == context@ + ": "@ + reason@,
{
    let mut r = owned(context.as_str());
    r.append(": ");
    r.append(reason.as_str());
    r
}

/// The first step of an installation.
pub fn first_step(plan: &Vec<Action>) -> (r: Next)
    ensures
        r@ == (if plan.len() > 0 {
            NextView::Perform(0)
        } else {
            NextView::Finish
        }),
{
    if plan.len() > 0 {
        Next::Perform(0)
    } else {
        Next::Finish
    }
}

/// The step after the action at `index` went as `outcome`.
pub fn advance(plan: &Vec<Action>, index: usize, outcome: Outcome) -> (r: Next)
    requires
        index < plan.len(),
    ensures
        r@ == advance_spec(actions_view(plan@), index as int, outcome_spec(outcome)),
{
    let ghost pv = actions_view(plan@);
    assert(pv[index as int] == plan@[index as int]@);
    let reason: Option<Option<String>> = match outcome {
        Outcome::Done => None,
        Outcome::Mismatch => Some(None),
        Outcome::Failed(s) => Some(Some(s)),
    };
    match reason {
        Some(why) => {
            let text = match &why {
                Some(w) => owned(w.as_str()),
                None => String::new(),
            };
            let failed = match &plan[index] {
                Action::Run { tolerant: true, .. } => None,
                Action::Download { context, .. } => Some(with_reason(context, &text)),
                Action::Verify { mismatch, .. } => match why {
                    Some(w) => Some(w),
                    None => Some(owned(mismatch.as_str())),
                },
                Action::DecompressXz { context, .. } => Some(with_reason(context, &text)),
                Action::Run { context: Some(c), .. } => Some(with_reason(c, &text)),
                Action::Abort(m) => Some(owned(m.as_str())),
                Action::WaitForDownloadMode { context, .. } => Some(with_reason(context, &text)),
                _ => Some(text),
            };
            match failed {
                Some(m) => return Next::Fail(m),
                None => {},
            }
        },
        None => {},
    }
    if index + 1 < plan.len() {
        Next::Perform(index + 1)
    } else {
        Next::Finish
    }
}

/// A failure stops the installation: after a failed action whose failure is
/// not only logged, the next step is `Fail`, and it is never `Finish`, so an
/// installation never completes past a failed step. Without failures the
/// steps go through the plan in order.
pub proof fn lemma_failure_stops(plan: Seq<ActionView>, index: int, reason: Option<Seq<char>>)
    requires
        0 <= index < plan.len(),
    ensures
        !tolerant(plan[index]) ==> advance_spec(plan, index, Some(reason)) is Fail,
        advance_spec(plan, index, None) == (if index + 1 < plan.len() {
            NextView::Perform((index + 1) as usize)
        } else {
            NextView::Finish
        }),
{
}

/// A report of progress.
pub fn report(p: InstallProgress) -> (r: Action)
    ensures
        r@ == ActionView::Report(p@),
{
    Action::Report(p)
}

/// A status report.
pub fn status(s: &str) -> (r: Action)
    ensures
        r@ == ActionView::Report(ProgressView::StatusChanged(s@)),
{
    Action::Report(InstallProgress::StatusChanged(owned(s)))
}

/// A prompt for the user.
pub fn prompt(s: &str) -> (r: Action)
    ensures
        r@ == ActionView::Report(ProgressView::WaitingForUserAction(s@)),
{
    Action::Report(InstallProgress::WaitingForUserAction(owned(s)))
}

/// A checksum progress report.
pub fn verifying(verified: usize, total: usize, label: &str) -> (r: Action)
    ensures
        r@ == (ActionView::Report(ProgressView::VerifyProgress { verified, total, file_name: label@ })),
{
    Action::Report(InstallProgress::VerifyProgress { verified, total, file_name: owned(label) })
}

/// A flash progress report.
pub fn flashing(current: usize, total: usize, description: &str) -> (r: Action)
    ensures
        r@ == (ActionView::Report(ProgressView::FlashProgress { current, total, description: description@ })),
{
    Action::Report(InstallProgress::FlashProgress { current, total, description: owned(description) })
}

/// A download.
pub fn download(url: &str, file_name: &str, sha256: Option<&str>, label: &str, context: &str) -> (r: Action)
    ensures
        r@ == (ActionView::Download {
            url: url@,
            file_name: file_name@,
            sha256: match sha256 {
                Some(h) => Some(h@),
                None => None,
            },
            label: label@,
            context: context@,
        }),
{
    Action::Download {
        url: owned(url),
        file_name: owned(file_name),
        sha256: match sha256 {
            Some(h) => Some(owned(h)),
            None => None,
        },
        label: owned(label),
        context: owned(context),
    }
}

/// A checksum check.
pub fn verify(path: &str, sha256: &str, mismatch: &str) -> (r: Action)
    ensures
        r@ == (ActionView::Verify { path: path@, sha256: sha256@, mismatch: mismatch@ }),
{
    Action::Verify { path: owned(path), sha256: owned(sha256), mismatch: owned(mismatch) }
}

/// A command whose failure ends the installation with `context`.
pub fn run(command: CommandLine, context: &str) -> (r: Action)
    ensures
        r@ == (ActionView::Run { command: command@, context: Some(context@), tolerant: false }),
{
    Action::Run { command, context: Some(owned(context)), tolerant: false }
}

/// A command whose failure ends the installation with its own reason.
pub fn run_plain(command: CommandLine) -> (r: Action)
    ensures
        r@ == (ActionView::Run { command: command@, context: None, tolerant: false }),
{
    Action::Run { command, context: None, tolerant: false }
}

/// A command whose failure is only logged.
pub fn try_run(command: CommandLine) -> (r: Action)
    ensures
        r@ == (ActionView::Run { command: command@, context: None, tolerant: true }),
{
    Action::Run { command, context: None, tolerant: true }
}

/// The end of an installation, with this message.
pub fn abort(message: String) -> (r: Action)
    ensures
        r@ == ActionView::Abort(message@),
{
    Action::Abort(message)
}

/// A decompression next to the file.
pub fn decompress(path: &str, context: &str) -> (r: Action)
    ensures
        r@ == (ActionView::DecompressXz { path: path@, context: context@ }),
{
    Action::DecompressXz { path: owned(path), context: owned(context) }
}

/// Unpacking of a `.tar.xz` archive.
pub fn extract_tar_xz(archive: &str, dir: &str) -> (r: Action)
    ensures
        r@ == (ActionView::ExtractTarXz { archive: archive@, dir: dir@ }),
{
    Action::ExtractTarXz { archive: owned(archive), dir: owned(dir) }
}

/// Unpacking of a zip archive.
pub fn extract_zip(archive: &str, dir: &str) -> (r: Action)
    ensures
        r@ == (ActionView::ExtractZip { archive: archive@, dir: dir@ }),
{
    Action::ExtractZip { archive: owned(archive), dir: owned(dir) }
}

pub open spec fn status_view(s: Seq<char>) -> ActionView {
    ActionView::Report(ProgressView::StatusChanged(s))
}

pub open spec fn prompt_view(s: Seq<char>) -> ActionView {
    ActionView::Report(ProgressView::WaitingForUserAction(s))
}

pub open spec fn verifying_view(verified: usize, total: usize, label: Seq<char>) -> ActionView {
    ActionView::Report(ProgressView::VerifyProgress { verified, total, file_name: label })
}

pub open spec fn flashing_view(current: usize, total: usize, description: Seq<char>) -> ActionView {
    ActionView::Report(ProgressView::FlashProgress { current, total, description })
}

/// Running a bundled flashing script.
pub fn flash_all(dir: &str, script: &str, shell: &str, nested: bool, failure: &str) -> (r: Action)
    ensures
        r@ == (ActionView::FlashAll { dir: dir@, script: script@, shell: shell@, nested, failure: failure@ }),
{
    Action::FlashAll { dir: owned(dir), script: owned(script), shell: owned(shell), nested, failure: owned(failure) }
}

} // verus!
