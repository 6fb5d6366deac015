use vstd::prelude::*;

verus! {

/// Type of unlocking step.
#[derive(Debug, Clone, Copy, PartialEq, Eq)]
pub enum StepType {
    /// Manual step that the user performs and checks off.
    Manual,
    /// Automated step that runs a command.
    Automated,
}

/// The contents of an unlocking step, as plain values.
pub struct StepView {
    pub order: u8,
    pub title: Seq<char>,
    pub description: Seq<char>,
    pub step_type: StepType,
    pub command: Option<Seq<char>>,
    pub duration_secs: Option<u32>,
    pub optional: bool,
    pub warning: Option<Seq<char>>,
    pub link: Option<Seq<char>>,
    pub link_label: Option<Seq<char>>,
}

pub open spec fn opt_str_view(o: Option<String>) -> Option<Seq<char>> {
    match o {
        Some(s) => Some(s@),
        None => None,
    }
}

/// A step in the bootloader unlocking process.
#[derive(Debug, Clone)]
pub struct UnlockingStep {
    /// Step order (1-based).
    pub order: u8,
    /// Step title.
    pub title: String,
    /// Detailed description of the step.
    pub description: String,
    /// Whether this is a manual or automated step.
    pub step_type: StepType,
    /// Command to run for automated steps (e.g. "adb reboot bootloader").
    pub command: Option<String>,
    /// Expected duration in seconds (for progress indication).
    pub duration_secs: Option<u32>,
    /// Whether this step is optional.
    pub optional: bool,
    /// Warning message to display before this step.
    pub warning: Option<String>,
    /// A web page that helps with the step.
    pub link: Option<String>,
    /// Label of the link's button.
    pub link_label: Option<String>,
}

impl View for UnlockingStep {
    type V = StepView;

    open spec fn view(&self) -> StepView {
        StepView {
            order: self.order,
            title: self.title@,
            description: self.description@,
            step_type: self.step_type,
            command: opt_str_view(self.command),
            duration_secs: self.duration_secs,
            optional: self.optional,
            warning: opt_str_view(self.warning),
            link: opt_str_view(self.link),
            link_label: opt_str_view(self.link_label),
        }
    }
}

impl UnlockingStep {
    pub fn is_manual(&self) -> (r: bool)
        ensures
            r == (self.step_type == StepType::Manual),
    {
        match self.step_type {
            StepType::Manual => true,
            StepType::Automated => false,
        }
    }

    pub fn is_automated(&self) -> (r: bool)
        ensures
            r == (self.step_type == StepType::Automated),
    {
        match self.step_type {
            StepType::Manual => false,
            StepType::Automated => true,
        }
    }
}

} // verus!
