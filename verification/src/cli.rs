//! The command line: what is asked for, what is printed for people, and how commands end.
use vstd::prelude::*;
use vstd::std_specs::convert::FromSpecImpl;
use vstd::string::*;

use crate::exit::EnvoyExitCode;
use crate::id::{parse_issue_number, parsed_issue, short_id, short_text, IssueNumber};
use crate::lifecycle::{ClaimOptions, ClaimOutcome, OptionsView};
use crate::model::{Claim, ClaimView, ReleaseReason, ReleaseReport, RunRecord, RunView};
use crate::status::StatusReport;
use crate::text::{decimal, decimal_text, optional, views};

verus! {

// ---------------------------------------------------------------------------------------------
// What is asked for
// ---------------------------------------------------------------------------------------------
/// A command, and whether it prints JSON.
#[derive(Debug)]
pub struct Cli {
    pub json: bool,
    pub command: EnvoyCommand,
}

#[derive(Debug)]
pub enum EnvoyCommand {
    /// Claim an issue for work in an isolated worktree.
    Claim(ClaimArgs),
    /// Show all claims that have been recorded.
    List,
    /// Show active claims and coordination findings.
    Status,
    /// Check local integrity, publish readiness, and merge coordination.
    Doctor(DoctorArgs),
    /// Release an active claim.
    Release(ReleaseArgs),
    /// Run an agent in the worktree of an active claim.
    Run(RunArgs),
}

impl EnvoyCommand {
    /// The name of the command.
    pub open spec fn word(self) -> Seq<char> {
        match self {
            EnvoyCommand::Claim(_) => "claim"@,
            EnvoyCommand::List => "list"@,
            EnvoyCommand::Status => "status"@,
            EnvoyCommand::Doctor(_) => "doctor"@,
            EnvoyCommand::Release(_) => "release"@,
            EnvoyCommand::Run(_) => "run"@,
        }
    }

    pub fn name(&self) -> (name: &'static str)
        ensures
            name@ == self.word(),
    {
        match self {
            EnvoyCommand::Claim(_) => "claim",
            EnvoyCommand::List => "list",
            EnvoyCommand::Status => "status",
            EnvoyCommand::Doctor(_) => "doctor",
            EnvoyCommand::Release(_) => "release",
            EnvoyCommand::Run(_) => "run",
        }
    }
}

#[derive(Debug)]
pub struct ClaimArgs {
    pub issue: IssueNumber,
    pub branch: Option<String>,
    pub worktree: Option<String>,
    pub onto: Option<IssueNumber>,
    pub after: Vec<IssueNumber>,
    pub scope: Vec<String>,
    pub disallow: Vec<String>,
    pub note: Option<String>,
    pub force: bool,
    pub cd: bool,
    pub no_cd: bool,
    pub resume: bool,
}

impl ClaimArgs {
    /// Whether a shell is opened in the worktree of the claim: where it is asked for, and to
    /// people unless they do not want it, but never where JSON is printed.
    pub fn enters_shell(&self, json: bool, interactive: bool) -> (enters: bool)
        ensures
            enters == (!json && (self.resume || self.cd || (interactive && !self.no_cd))),
    {
        !json && (self.resume || self.cd || (interactive && !self.no_cd))
    }

    /// How the claim is to be made.
    pub fn options(self) -> (options: ClaimOptions)
        ensures
            options@ == (OptionsView {
                branch: optional(self.branch),
                worktree: optional(self.worktree),
                onto: self.onto,
                after: self.after@,
                allowed_paths: views(self.scope@),
                disallowed_paths: views(self.disallow@),
                note: optional(self.note),
                force: self.force,
            }),
    {
        ClaimOptions {
            branch: self.branch,
            worktree: self.worktree,
            onto: self.onto,
            after: self.after,
            allowed_paths: self.scope,
            disallowed_paths: self.disallow,
            note: self.note,
            force: self.force,
        }
    }
}

#[derive(Debug)]
pub struct ReleaseArgs {
    pub issue: IssueNumber,
    pub reason: ReleaseReasonArg,
}

#[derive(Clone, Copy, Debug, PartialEq, Eq, Structural)]
pub enum ReleaseReasonArg {
    Merged,
    Closed,
    Abandoned,
    Manual,
}

impl From<ReleaseReasonArg> for ReleaseReason {
    fn from(value: ReleaseReasonArg) -> (reason: Self) {
        match value {
            ReleaseReasonArg::Merged => ReleaseReason::Merged,
            ReleaseReasonArg::Closed => ReleaseReason::Closed,
            ReleaseReasonArg::Abandoned => ReleaseReason::Abandoned,
            ReleaseReasonArg::Manual => ReleaseReason::Manual,
        }
    }
}

impl FromSpecImpl<ReleaseReasonArg> for ReleaseReason {
    open spec fn obeys_from_spec() -> bool {
        true
    }

    open spec fn from_spec(value: ReleaseReasonArg) -> ReleaseReason {
        match value {
            ReleaseReasonArg::Merged => ReleaseReason::Merged,
            ReleaseReasonArg::Closed => ReleaseReason::Closed,
            ReleaseReasonArg::Abandoned => ReleaseReason::Abandoned,
            ReleaseReasonArg::Manual => ReleaseReason::Manual,
        }
    }
}

#[derive(Debug)]
pub struct DoctorArgs {
    pub issue: Option<IssueNumber>,
    pub stack: Option<IssueNumber>,
}

#[derive(Debug)]
pub struct RunArgs {
    pub agent: String,
    pub prompt: Option<String>,
}

/// Reads an issue from an argument.
pub fn parse_issue(value: &str) -> (result: Result<IssueNumber, String>)
    ensures
        match parsed_issue(value@) {
            Some(issue) => result == Ok::<_, String>(issue),
            None => result matches Err(problem) && problem@ == "issue must be a positive integer"@,
        },
{
    match parse_issue_number(value) {
        Some(issue) => Ok(issue),
        None => Err("issue must be a positive integer".to_owned()),
    }
}

// ---------------------------------------------------------------------------------------------
// What is printed for people
// ---------------------------------------------------------------------------------------------
/// What is printed of a claim that was made.
pub open spec fn claim_text(claim: ClaimView) -> Seq<char> {
    "Claimed issue #"@ + decimal(claim.issue as nat) + " as "@ + short_text(claim.claim_id)
        + "\nBranch: "@ + claim.branch + "\nWorktree: "@ + claim.worktree + "\nBase: "@
        + claim.base_remote + "/"@ + claim.base_ref + " at "@ + claim.base_sha + "\n"@
}

pub fn render_claim(claim: &Claim) -> (text: String)
    ensures
        text@ == claim_text(claim@),
{
    let mut text = "Claimed issue #".to_owned();
    text.append(decimal_text(claim.issue).as_str());
    text.append(" as ");
    text.append(short_id(claim.claim_id).as_str());
    text.append("\nBranch: ");
    text.append(claim.branch.as_str());
    text.append("\nWorktree: ");
    text.append(claim.worktree.as_str());
    text.append("\nBase: ");
    text.append(claim.base_remote.as_str());
    text.append("/");
    text.append(claim.base_ref.as_str());
    text.append(" at ");
    text.append(claim.base_sha.as_str());
    text.append("\n");
    text
}

/// What is to be done next with a claim: to enter its worktree, unless a shell is entered there.
pub open spec fn next_text(claim: ClaimView, shell: bool) -> Seq<char> {
    if shell {
        "Entering a shell in "@ + claim.worktree + "\n"@
    } else {
        "Next: change directory to the claimed worktree above\n"@
    }
}

pub fn render_next(claim: &Claim, shell: bool) -> (text: String)
    ensures
        text@ == next_text(claim@, shell),
{
    if shell {
        let mut text = "Entering a shell in ".to_owned();
        text.append(claim.worktree.as_str());
        text.append("\n");
        text
    } else {
        "Next: change directory to the claimed worktree above\n".to_owned()
    }
}

/// What is printed of a claim that is resumed.
pub open spec fn resume_text(claim: ClaimView) -> Seq<char> {
    "Resuming issue #"@ + decimal(claim.issue as nat) + " as "@ + short_text(claim.claim_id)
        + "\n"@
}

pub fn render_resume(claim: &Claim) -> (text: String)
    ensures
        text@ == resume_text(claim@),
{
    let mut text = "Resuming issue #".to_owned();
    text.append(decimal_text(claim.issue).as_str());
    text.append(" as ");
    text.append(short_id(claim.claim_id).as_str());
    text.append("\n");
    text
}

/// The warning that no shell could be entered in a worktree.
pub open spec fn shell_warning(resumed: bool, problem: Seq<char>) -> Seq<char> {
    if resumed {
        "active claim found, but the worktree shell could not start: "@ + problem
    } else {
        "claim succeeded, but the worktree shell could not start: "@ + problem
    }
}

pub fn render_shell_warning(resumed: bool, problem: &str) -> (text: String)
    ensures
        text@ == shell_warning(resumed, problem@),
{
    let mut text = if resumed {
        "active claim found, but the worktree shell could not start: ".to_owned()
    } else {
        "claim succeeded, but the worktree shell could not start: ".to_owned()
    };
    text.append(problem);
    text
}

/// What is printed of a release.
pub open spec fn release_text(report: ReleaseReport) -> Seq<char> {
    if report.already_released {
        "Issue #"@ + decimal(report.issue as nat) + " generation "@ + short_text(report.claim_id)
            + " is already released\n"@
    } else {
        "Released issue #"@ + decimal(report.issue as nat) + " generation "@ + short_text(
            report.claim_id,
        ) + "\n"@
    }
}

pub fn render_release(report: &ReleaseReport) -> (text: String)
    ensures
        text@ == release_text(*report),
{
    let mut text = if report.already_released {
        "Issue #".to_owned()
    } else {
        "Released issue #".to_owned()
    };
    text.append(decimal_text(report.issue).as_str());
    text.append(" generation ");
    text.append(short_id(report.claim_id).as_str());
    if report.already_released {
        text.append(" is already released\n");
    } else {
        text.append("\n");
    }
    text
}

// ---------------------------------------------------------------------------------------------
// How commands end
// ---------------------------------------------------------------------------------------------
pub open spec fn warned_exit(warned: bool) -> EnvoyExitCode {
    if warned {
        EnvoyExitCode::Warning
    } else {
        EnvoyExitCode::Success
    }
}

/// How a claim that was made ends.
pub fn claim_exit(outcome: &ClaimOutcome) -> (code: EnvoyExitCode)
    ensures
        code == warned_exit(outcome.warnings@.len() > 0),
{
    if outcome.warnings.len() == 0 {
        EnvoyExitCode::Success
    } else {
        EnvoyExitCode::Warning
    }
}

/// How a claim ends once a shell was to be opened in its worktree, by whether the shell started.
pub fn shell_exit(warned: bool, started: bool) -> (code: EnvoyExitCode)
    ensures
        code == warned_exit(warned || !started),
{
    if warned || !started {
        EnvoyExitCode::Warning
    } else {
        EnvoyExitCode::Success
    }
}

/// How a status ends.
pub fn status_exit(report: &StatusReport) -> (code: EnvoyExitCode)
    ensures
        code == warned_exit(report@.warns()),
{
    if report.has_warnings() {
        EnvoyExitCode::Warning
    } else {
        EnvoyExitCode::Success
    }
}

/// How a run of an agent that was run to its end ends.
pub open spec fn run_end(run: RunView) -> EnvoyExitCode {
    if run.exit_code == Some(0i32) {
        EnvoyExitCode::Success
    } else {
        EnvoyExitCode::OperationalError
    }
}

pub fn run_exit(run: &RunRecord) -> (code: EnvoyExitCode)
    ensures
        code == run_end(run@),
{
    match run.exit_code {
        Some(code) => if code == 0 {
            EnvoyExitCode::Success
        } else {
            EnvoyExitCode::OperationalError
        },
        None => EnvoyExitCode::OperationalError,
    }
}

/// How a command ends that was refused or went wrong.
pub open spec fn failed_exit(refused: bool) -> EnvoyExitCode {
    if refused {
        EnvoyExitCode::Blocked
    } else {
        EnvoyExitCode::OperationalError
    }
}

pub fn error_exit(refused: bool) -> (code: EnvoyExitCode)
    ensures
        code == failed_exit(refused),
{
    if refused {
        EnvoyExitCode::Blocked
    } else {
        EnvoyExitCode::OperationalError
    }
}

/// The code of what went wrong.
pub open spec fn failure_code(refused: bool) -> Seq<char> {
    if refused {
        "refused"@
    } else {
        "operational_error"@
    }
}

pub fn error_code(refused: bool) -> (code: &'static str)
    ensures
        code@ == failure_code(refused),
{
    if refused {
        "refused"
    } else {
        "operational_error"
    }
}

/// How a command line that cannot be understood ends: asking for help or for the version is no
/// failure.
pub fn usage_exit(asked_for_help: bool) -> (code: EnvoyExitCode)
    ensures
        code == if asked_for_help {
            EnvoyExitCode::Success
        } else {
            EnvoyExitCode::OperationalError
        },
{
    if asked_for_help {
        EnvoyExitCode::Success
    } else {
        EnvoyExitCode::OperationalError
    }
}

} // verus!
