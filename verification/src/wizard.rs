use vstd::prelude::*;
use crate::hardware::command::{CommandLine, command_view, owned, extend_strings};
use crate::models::device::{str_eq, strings_view};
use crate::text::{
    chars_of, ends_with_spec, slice_of, starts_with, starts_with_spec, string_of, trim, trim_spec, words, words_spec,
    seqs_of,
};

verus! {

broadcast use vstd::string::group_string_axioms;

/// What an automated unlocking step's command asks for.
#[derive(Debug, Clone, PartialEq, Eq)]
pub enum UnlockCommand {
    /// `adb reboot bootloader`.
    AdbRebootBootloader,
    /// Another `adb …` command, run as an adb shell command.
    AdbShell(String),
    /// `fastboot oem unlock` or `fastboot flashing unlock`.
    FastbootOemUnlock,
    /// Nothing to run.
    Nothing,
}

pub enum UnlockCommandView {
    AdbRebootBootloader,
    AdbShell(Seq<char>),
    FastbootOemUnlock,
    Nothing,
}

impl View for UnlockCommand {
    type V = UnlockCommandView;

    open spec fn view(&self) -> UnlockCommandView {
        match self {
            UnlockCommand::AdbRebootBootloader => UnlockCommandView::AdbRebootBootloader,
            UnlockCommand::AdbShell(s) => UnlockCommandView::AdbShell(s@),
            UnlockCommand::FastbootOemUnlock => UnlockCommandView::FastbootOemUnlock,
            UnlockCommand::Nothing => UnlockCommandView::Nothing,
        }
    }
}

/// What a step command asks for: `adb reboot bootloader`, another `adb`
/// command as a shell command, `fastboot oem unlock` or `fastboot flashing
/// unlock` as an OEM unlock; anything else asks for nothing.
pub open spec fn unlock_command_spec(c: Seq<char>) -> UnlockCommandView {
    if starts_with_spec(c, "adb "@) {
        let args = c.skip(4);
        if args == "reboot bootloader"@ {
            UnlockCommandView::AdbRebootBootloader
        } else {
            UnlockCommandView::AdbShell(args)
        }
    } else if starts_with_spec(c, "fastboot "@) {
        let args = c.skip(9);
        if args == "oem unlock"@ || args == "flashing unlock"@ {
            UnlockCommandView::FastbootOemUnlock
        } else {
            UnlockCommandView::Nothing
        }
    } else {
        UnlockCommandView::Nothing
    }
}

/// Where the unlocking phase of the wizard stands.
#[derive(Debug, Clone, Copy, PartialEq, Eq)]
pub enum UnlockPhase {
    /// Performing unlocking step `current_step` (from 1) of `total_steps`.
    Unlocking { current_step: usize, total_steps: usize },
    /// Selecting the distribution.
    DistroSelection,
}

/// Why a command from the device data is not run.
#[derive(Debug, Clone, PartialEq, Eq)]
pub enum CommandError {
    /// The command is empty.
    Empty,
    /// The program is neither `adb` nor `fastboot`.
    NotAllowed(String),
}

/// What a device-data command line runs: only `adb` and `fastboot` are
/// allowed, with the device's serial (when known) put first.
pub open spec fn plan_command_spec(
    command: Seq<char>,
    serial: Option<Seq<char>>,
    adb: Seq<char>,
    fastboot: Seq<char>,
) -> Option<(Seq<char>, Seq<Seq<char>>)> {
    let w = words_spec(command);
    if w.len() == 0 || !(w[0] == "adb"@ || w[0] == "fastboot"@) {
        None
    } else {
        let program = if w[0] == "adb"@ {
            adb
        } else {
            fastboot
        };
        let head = match serial {
            Some(s) => seq!["-s"@, s],
            None => seq![],
        };
        Some((program, head + w.drop_first()))
    }
}

/// The output of a command as shown: its standard output, then its error
/// output (on a new line) when that holds more than whitespace.
pub open spec fn combined_spec(stdout: Seq<char>, stderr: Seq<char>) -> Seq<char> {
    if trim_spec(stderr).len() == 0 {
        stdout
    } else if stdout.len() > 0 && stdout.last() != '\n' {
        stdout + "\n"@ + stderr
    } else {
        stdout + stderr
    }
}

/// The wizard's unlocking logic.
pub struct WizardController;

impl WizardController {
    /// What an automated step's command asks for.
    pub fn classify(command: &str) -> (r: UnlockCommand)
        ensures
            r@ == unlock_command_spec(command@),
    {
        let c = chars_of(command);
        let adb = chars_of("adb ");
        let fb = chars_of("fastboot ");
        proof {
            reveal_strlit("adb ");
            reveal_strlit("fastboot ");
        }
        if starts_with(&c, &adb) {
            let args = string_of(&slice_of(&c, 4, c.len()));
            assert(args@ =~= command@.skip(4));
            if str_eq(args.as_str(), "reboot bootloader") {
                UnlockCommand::AdbRebootBootloader
            } else {
                UnlockCommand::AdbShell(args)
            }
        } else if starts_with(&c, &fb) {
            let args = string_of(&slice_of(&c, 9, c.len()));
            assert(args@ =~= command@.skip(9));
            if str_eq(args.as_str(), "oem unlock") || str_eq(args.as_str(), "flashing unlock") {
                UnlockCommand::FastbootOemUnlock
            } else {
                UnlockCommand::Nothing
            }
        } else {
            UnlockCommand::Nothing
        }
    }

    /// The phase when unlocking starts: step 1 of all.
    pub fn start_unlocking(total_steps: usize) -> (r: UnlockPhase)
        ensures
            r == (UnlockPhase::Unlocking { current_step: 1, total_steps }),
    {
        UnlockPhase::Unlocking { current_step: 1, total_steps }
    }

    /// The phase after step `step_index` (from 0) of `total_steps` is done:
    /// the next step (numbered from 1), or distribution selection after the
    /// last.
    pub fn after_step(step_index: usize, total_steps: usize) -> (r: UnlockPhase)
        requires
            step_index < total_steps,
        ensures
            step_index + 1 < total_steps ==> r == (UnlockPhase::Unlocking {
                current_step: (step_index + 2) as usize,
                total_steps,
            }),
            step_index + 1 >= total_steps ==> r == UnlockPhase::DistroSelection,
    {
        let next = step_index + 1;
        if next < total_steps {
            UnlockPhase::Unlocking { current_step: next + 1, total_steps }
        } else {
            UnlockPhase::DistroSelection
        }
    }

    /// The command line a device-data command runs: its first word must be
    /// `adb` or `fastboot` (the programs at `adb` and `fastboot`), the serial
    /// comes first when known, then the other words.
    pub fn plan_command(command: &str, serial: Option<&str>, adb: &str, fastboot: &str) -> (r: Result<
        CommandLine,
        CommandError,
    >)
        ensures
            match r {
                Ok(c) => plan_command_spec(
                    command@,
                    match serial {
                        Some(s) => Some(s@),
                        None => None,
                    },
                    adb@,
                    fastboot@,
                ) == Some((c@.program, c@.args)),
                Err(CommandError::Empty) => words_spec(command@).len() == 0,
                Err(CommandError::NotAllowed(p)) => words_spec(command@).len() > 0 && p@ == words_spec(command@)[0]
                    && !(p@ == "adb"@ || p@ == "fastboot"@),
            },
    {
        let w = words(&chars_of(command));
        if w.len() == 0 {
            return Err(CommandError::Empty);
        }
        assert(seqs_of(w@)[0] == w@[0]@);
        let first = string_of(&w[0]);
        let program = if str_eq(first.as_str(), "adb") {
            owned(adb)
        } else if str_eq(first.as_str(), "fastboot") {
            owned(fastboot)
        } else {
            return Err(CommandError::NotAllowed(first));
        };
        let mut args: Vec<String> = Vec::new();
        match serial {
            Some(s) => {
                args = crate::hardware::command::args2("-s", s);
            },
            None => {},
        }
        let mut rest: Vec<String> = Vec::new();
        for i in 1..w.len()
            invariant
                strings_view(rest@) == seqs_of(w@).drop_first().take(i - 1),
        {
            let x = string_of(&w[i]);
            proof {
                crate::hardware::command::lemma_strings_view_push(rest@, x);
            }
            rest.push(x);
            assert(seqs_of(w@).drop_first().take(i as int) =~= seqs_of(w@).drop_first().take(i - 1).push(w@[i as int]@));
        }
        assert(seqs_of(w@).drop_first().take(w.len() - 1) =~= seqs_of(w@).drop_first());
        let ghost head = strings_view(args@);
        extend_strings(&mut args, &rest);
        assert(strings_view(args@) =~= head + seqs_of(w@).drop_first());
        Ok(crate::hardware::command::command(program.as_str(), args))
    }

    /// The output of a finished command as shown.
    pub fn combine_output(stdout: &str, stderr: &str) -> (r: String)
        ensures
            r@ == combined_spec(stdout@, stderr@),
    {
        let e = chars_of(stderr);
        if trim(&e).len() == 0 {
            return owned(stdout);
        }
        let o = chars_of(stdout);
        let mut r = owned(stdout);
        if o.len() > 0 && o[o.len() - 1] != '\n' {
            r.append("\n");
        }
        r.append(stderr);
        r
    }

    /// The result of a finished command: its shown output on success; on
    /// failure, that output trimmed, or a generic message when it is blank.
    pub fn command_outcome(success: bool, combined: &str) -> (r: Result<String, String>)
        ensures
            success ==> (r matches Ok(s) && s@ == combined@),
            !success ==> (r matches Err(m) && m@ == if trim_spec(combined@).len() == 0 {
                "command exited with an error"@
            } else {
                trim_spec(combined@)
            }),
    {
        if success {
            return Ok(owned(combined));
        }
        let t = trim(&chars_of(combined));
        if t.len() == 0 {
            Err(owned("command exited with an error"))
        } else {
            Err(string_of(&t))
        }
    }
}

} // verus!

verus! {

/// Commands from the device data only ever run `adb` or `fastboot`: whatever
/// the command text, a planned command's program is the adb or the fastboot
/// program.
pub proof fn lemma_only_adb_or_fastboot(
    command: Seq<char>,
    serial: Option<Seq<char>>,
    adb: Seq<char>,
    fastboot: Seq<char>,
)
    ensures
        plan_command_spec(command, serial, adb, fastboot) matches Some((p, _)) ==> (p == adb || p == fastboot),
{
}

/// The safety page lets the user go on only once every risk is
/// acknowledged: a backup was made, the warranty may be void, the device may
/// be bricked.
pub fn safety_confirmed(backup: bool, warranty: bool, risk: bool) -> (r: bool)
    ensures
        r == (backup && warranty && risk),
{
    backup && warranty && risk
}

/// Every step that is not optional is done.
pub open spec fn required_done(optional: Seq<bool>, done: Seq<bool>) -> bool {
    forall|i: int| 0 <= i < optional.len() ==> #[trigger] optional[i] || (i < done.len() && done[i])
}

pub open spec fn optional_flags(steps: Seq<crate::models::unlocking_step::UnlockingStep>) -> Seq<bool> {
    steps.map_values(|s: crate::models::unlocking_step::UnlockingStep| s.optional)
}

/// The unlocking checklist: which steps are done, and whether a step's
/// command is running.
pub struct UnlockChecklist {
    pub done: Vec<bool>,
    pub running: bool,
}

impl UnlockChecklist {
    /// A checklist of `steps` steps, none done, nothing running.
    pub fn new(steps: usize) -> (r: Self)
        ensures
            r.done@ == Seq::new(steps as nat, |i: int| false),
            !r.running,
    {
        let mut done: Vec<bool> = Vec::new();
        for i in 0..steps
            invariant
                done@ == Seq::new(i as nat, |k: int| false),
        {
            done.push(false);
        }
        UnlockChecklist { done, running: false }
    }

    /// Marks a step done or not; an index past the steps changes nothing.
    pub fn set_step_done(&mut self, index: usize, done: bool)
        ensures
            final(self).done@ == (if index < old(self).done.len() {
                old(self).done@.update(index as int, done)
            } else {
                old(self).done@
            }),
            final(self).running == old(self).running,
    {
        if index < self.done.len() {
            self.done.set(index, done);
        }
    }

    /// Continue is possible once every required step is done and no
    /// command is running.
    pub fn can_continue(&self, steps: &Vec<crate::models::unlocking_step::UnlockingStep>) -> (r: bool)
        ensures
            r == (!self.running && required_done(optional_flags(steps@), self.done@)),
    {
        if self.running {
            return false;
        }
        let ghost opt = optional_flags(steps@);
        for i in 0..steps.len()
            invariant
                !self.running,
                opt == optional_flags(steps@),
                required_done(opt.take(i as int), self.done@),
        {
            assert(opt[i as int] == steps@[i as int].optional);
            if !steps[i].optional && !(i < self.done.len() && self.done[i]) {
                assert(!(#[trigger] opt[i as int] || (i < self.done@.len() && self.done@[i as int])));
                return false;
            }
            assert(required_done(opt.take(i + 1), self.done@)) by {
                assert forall|k: int| 0 <= k < opt.take(i + 1).len() implies #[trigger] opt.take(i + 1)[k] || (k
                    < self.done@.len() && self.done@[k]) by {
                    if k < i {
                        assert(opt.take(i as int)[k] == opt.take(i + 1)[k]);
                    }
                }
            }
        }
        assert(opt.take(steps.len() as int) =~= opt);
        true
    }

    /// Starts the command of a step: nothing happens while another runs, or
    /// for a step without a command; otherwise the checklist is running and
    /// the command is returned.
    pub fn start_step(&mut self, steps: &Vec<crate::models::unlocking_step::UnlockingStep>, index: usize) -> (r: Option<String>)
        ensures
            (old(self).running || index >= steps.len() || steps@[index as int].command is None) ==> (r is None && *final(self)
                == *old(self)),
            !(old(self).running || index >= steps.len() || steps@[index as int].command is None) ==> (r is Some
                && r->Some_0@ == steps@[index as int].command->Some_0@ && final(self).running && final(self).done@
                == old(self).done@),
    {
        if self.running || index >= steps.len() {
            return None;
        }
        match &steps[index].command {
            None => None,
            Some(c) => {
                self.running = true;
                Some(owned(c.as_str()))
            },
        }
    }

    /// A step's command finished: the checklist is no longer running, and
    /// the step is done when the command succeeded.
    pub fn finish_step(&mut self, index: usize, succeeded: bool)
        ensures
            !final(self).running,
            final(self).done@ == (if succeeded && index < old(self).done.len() {
                old(self).done@.update(index as int, true)
            } else {
                old(self).done@
            }),
    {
        self.running = false;
        if succeeded {
            self.set_step_done(index, true);
        }
    }
}

} // verus!
