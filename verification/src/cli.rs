//! The command line as plain values: what was asked for, and what that
//! means for the run.

use vstd::prelude::*;

verus! {

/// A subcommand and its options.
#[derive(Clone, Debug)]
pub enum Commands {
    /// Analyze logged sessions, one methodology or all of them compared.
    Analyze { methodology: Option<String>, comparative: bool },
    /// List logged sessions, newest first.
    List { methodology: Option<String>, limit: usize },
    /// Show the history of committed transcripts.
    GitLog { count: usize },
    /// Show one session, with its transcript if `full`.
    Show { session_id: String, full: bool },
}

/// A parsed command line.
#[derive(Clone, Debug)]
pub struct Cli {
    /// The subcommand, if one was given.
    pub command: Option<Commands>,
    /// Arguments handed on to the assistant.
    pub claude_args: Vec<String>,
    /// Whether to ask for a creative-energy rating after the session.
    pub track_energy: bool,
}

/// What an `analyze` request asks for.
#[derive(Clone, Copy, Debug, PartialEq, Eq, Hash, Structural)]
pub enum AnalyzeMode {
    /// The full report over all methodologies.
    FullReport,
    /// The statistics of the methodologies that match a filter.
    Filtered,
}

/// The mode of an `analyze` request: a filter is honoured only where no
/// comparison was asked for.
pub open spec fn analyze_mode_of(has_filter: bool, comparative: bool) -> AnalyzeMode {
    if !comparative && has_filter {
        AnalyzeMode::Filtered
    } else {
        AnalyzeMode::FullReport
    }
}

/// The mode of an `analyze` request.
pub fn analyze_mode(has_filter: bool, comparative: bool) -> (mode: AnalyzeMode)
    ensures
        mode == analyze_mode_of(has_filter, comparative),
{
    if comparative {
        AnalyzeMode::FullReport
    } else if has_filter {
        AnalyzeMode::Filtered
    } else {
        AnalyzeMode::FullReport
    }
}

impl Cli {
    /// Whether a subcommand was given.
    pub fn is_command_mode(&self) -> (b: bool)
        ensures
            b == self.command is Some,
    {
        self.command.is_some()
    }

    /// Whether the assistant is to be run: exactly when no subcommand was
    /// given.
    pub fn should_run_claude(&self) -> (b: bool)
        ensures
            b == self.command is None,
    {
        !self.is_command_mode()
    }
}

} // verus!
