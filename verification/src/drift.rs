//! Drift: whether the claims of a stack still build on the generations that they were based on.
use vstd::prelude::*;
use vstd::string::*;

use crate::command::{
    answers, arguments, command, permits_observing, printed, text_from_utf8_output, CommandOutput,
    CommandRunner, RunnerError,
};
use crate::diagnosis::{advice, Advice};
use crate::doctor::{
    append_checks, append_texts, check, check_outcome, gate_rollup, required_check, rollup,
    rollup_is_the_worst_check, same_check, CheckGate, CheckStatus, CheckView, DoctorCheck,
    DoctorError, GateRollup,
};
use crate::evidence::{
    id_list, ids_evidence, issue_list, issues_evidence, named, object, release_evidence,
    release_object, text,
};
use crate::git::GitCli;
use crate::id::{short_id, short_text, Id, IssueNumber};
use crate::json::{Json, JsonView};
use crate::model::{Claim, ClaimView, ReleaseMarker};
use crate::record::{
    id_json, optional_i32_json, optional_id_json, write_id, write_optional_i32, write_optional_id,
};
use crate::stack::{
    cycles_found, lists, resolve_stack, stack_of, wait_for_cycles, NodeView, Records,
    ResolutionView, StackNode, StackProblem, StackProblemView,
};
use crate::text::{decimal, decimal_text, optional, same, views};

verus! {

// ---------------------------------------------------------------------------------------------
// One child and its parent
// ---------------------------------------------------------------------------------------------
/// Which generation builds on which, and on which of its commits.
pub open spec fn relationship_evidence(parent: NodeView, child: ClaimView) -> JsonView {
    JsonView::Object(
        seq![
            ("captured_sha"@, JsonView::Text(child.base_sha)),
            ("claim_id"@, id_json(child.claim_id)),
            ("issue"@, JsonView::Unsigned(child.issue)),
            ("parent_claim_id"@, id_json(parent.claim.claim_id)),
            ("parent_issue"@, JsonView::Unsigned(parent.claim.issue)),
        ],
    )
}

fn relationship_object(parent: &StackNode, child: &Claim) -> (json: Json)
    ensures
        json@ == relationship_evidence(parent@, child@),
{
    let members: Vec<(&str, Json)> = vec![
        ("captured_sha", text(child.base_sha.as_str())),
        ("claim_id", write_id(child.claim_id)),
        ("issue", Json::Unsigned(child.issue)),
        ("parent_claim_id", write_id(parent.claim.claim_id)),
        ("parent_issue", Json::Unsigned(parent.claim.issue)),
    ];
    assert(named(members@) =~= relationship_evidence(parent@, child@)->Object_0);
    object(members)
}

/// The relationship, and where the branch of the parent is now.
pub open spec fn tip_evidence(parent: NodeView, child: ClaimView, tip: Seq<char>) -> JsonView {
    JsonView::Object(
        seq![
            ("parent_tip"@, JsonView::Text(tip)),
            ("relationship"@, relationship_evidence(parent, child)),
        ],
    )
}

fn tip_object(parent: &StackNode, child: &Claim, tip: &str) -> (json: Json)
    ensures
        json@ == tip_evidence(parent@, child@, tip@),
{
    let members: Vec<(&str, Json)> = vec![
        ("parent_tip", text(tip)),
        ("relationship", relationship_object(parent, child)),
    ];
    assert(named(members@) =~= tip_evidence(parent@, child@, tip@)->Object_0);
    object(members)
}

pub open spec fn generation_check(status: CheckStatus, message: Seq<char>) -> CheckView {
    required_check(
        "publish.parent_generation"@,
        CheckGate::Publish,
        "Parent generation"@,
        status,
        message,
    )
}

fn make_generation_check(status: CheckStatus, message: &str) -> (result: DoctorCheck)
    ensures
        result@ == generation_check(status, message@),
{
    DoctorCheck::new(
        "publish.parent_generation",
        CheckGate::Publish,
        "Parent generation",
        status,
        message.to_owned(),
    ).required()
}

/// The command that puts a child onto where its parent is, or onto what a parent that is gone was
/// based on.
pub open spec fn restack_advice(
    child: ClaimView,
    parent: ClaimView,
    active_parent: bool,
) -> Seq<char> {
    "Restack manually: git -C "@ + child.worktree + " rebase --onto "@ + (if active_parent {
        parent.branch
    } else {
        parent.base_remote + "/"@ + parent.base_ref
    }) + " "@ + child.base_sha
}

fn manual_restack_recommendation(child: &Claim, parent: &Claim, active_parent: bool) -> (text:
    String)
    ensures
        text@ == restack_advice(child@, parent@, active_parent),
{
    let base = if active_parent {
        parent.branch.clone()
    } else {
        let mut base = parent.base_remote.clone();
        base.append("/");
        base.append(parent.base_ref.as_str());
        base
    };
    let mut text = "Restack manually: git -C ".to_owned();
    text.append(child.worktree.as_str());
    text.append(" rebase --onto ");
    text.append(base.as_str());
    text.append(" ");
    text.append(child.base_sha.as_str());
    text
}

/// One check and no recommendation.
pub open spec fn only(one: CheckView) -> Advice {
    Advice { checks: seq![one], recommendations: Seq::empty() }
}

/// What is said of a parent that is released or else not active, before Git is asked.
pub open spec fn inactive_parent(parent: NodeView, child: ClaimView) -> Option<Advice> {
    match parent.release {
        Some(release) => Some(
            Advice {
                checks: seq![
                    generation_check(
                        CheckStatus::Fail,
                        "the exact recorded parent generation has been released"@,
                    ).with(
                        JsonView::Object(
                            seq![
                                ("relationship"@, relationship_evidence(parent, child)),
                                ("release"@, release_evidence(release)),
                            ],
                        ),
                    ),
                ],
                recommendations: seq![restack_advice(child, parent.claim, false)],
            },
        ),
        None => if parent.active {
            None
        } else {
            Some(
                only(
                    generation_check(
                        CheckStatus::Error,
                        "the exact parent generation is neither active nor released"@,
                    ).with(relationship_evidence(parent, child)),
                ),
            )
        },
    }
}

fn check_inactive_parent(parent: &StackNode, child: &Claim) -> (result: Option<
    (Vec<DoctorCheck>, Vec<String>),
>)
    ensures
        match result {
            Some(found) => inactive_parent(parent@, child@) == Some(advice(found.0@, found.1@)),
            None => inactive_parent(parent@, child@) is None,
        },
{
    let ghost wanted = inactive_parent(parent@, child@);
    let mut checks: Vec<DoctorCheck> = Vec::new();
    let mut recommendations: Vec<String> = Vec::new();
    match &parent.release {
        Some(release) => {
            let members: Vec<(&str, Json)> = vec![
                ("relationship", relationship_object(parent, child)),
                ("release", release_object(release)),
            ];
            assert(named(members@) =~= wanted->0.checks[0].evidence->0->Object_0);
            checks.push(
                make_generation_check(
                    CheckStatus::Fail,
                    "the exact recorded parent generation has been released",
                ).with_evidence(object(members)),
            );
            recommendations.push(manual_restack_recommendation(child, &parent.claim, false));
        },
        None => {
            if parent.active {
                return None;
            }
            checks.push(
                make_generation_check(
                    CheckStatus::Error,
                    "the exact parent generation is neither active nor released",
                ).with_evidence(relationship_object(parent, child)),
            );
        },
    }
    assert(views(checks@) =~= wanted->0.checks);
    assert(views(recommendations@) =~= wanted->0.recommendations);
    Some((checks, recommendations))
}

/// What is said of a parent whose branch does not resolve.
pub open spec fn lost_parent(parent: NodeView, child: ClaimView) -> Advice {
    only(
        generation_check(CheckStatus::Error, "the exact parent branch does not resolve"@).with(
            relationship_evidence(parent, child),
        ),
    )
}

/// What is said of a parent that is where the child found it.
pub open spec fn current_parent(parent: NodeView, child: ClaimView, tip: Seq<char>) -> Advice {
    only(
        generation_check(CheckStatus::Pass, "captured parent generation is current"@).with(
            tip_evidence(parent, child, tip),
        ),
    )
}

/// What is said of a parent that has moved, by the exit code with which Git tells whether the
/// captured commit is an ancestor of where the parent is.
pub open spec fn moved_parent(
    parent: NodeView,
    child: ClaimView,
    tip: Seq<char>,
    exit_code: Option<i32>,
) -> Advice {
    if exit_code == Some(0i32) {
        Advice {
            checks: seq![
                generation_check(
                    CheckStatus::Pass,
                    "captured parent SHA remains in current parent history"@,
                ).with(tip_evidence(parent, child, tip)),
                check(
                    "merge.parent_advanced"@,
                    CheckGate::Merge,
                    "Parent branch advanced"@,
                    CheckStatus::Warn,
                    "parent branch advanced after the child captured its base"@,
                ).with(tip_evidence(parent, child, tip)),
            ],
            recommendations: Seq::empty(),
        }
    } else if exit_code == Some(1i32) {
        Advice {
            checks: seq![
                generation_check(
                    CheckStatus::Fail,
                    "captured parent SHA is no longer in current parent history"@,
                ).with(tip_evidence(parent, child, tip)),
            ],
            recommendations: seq![restack_advice(child, parent.claim, true)],
        }
    } else {
        only(
            generation_check(
                CheckStatus::Error,
                "could not compare captured and current parent history"@,
            ).with(
                JsonView::Object(
                    seq![
                        ("exit_code"@, optional_i32_json(exit_code)),
                        ("parent_tip"@, JsonView::Text(tip)),
                        ("relationship"@, relationship_evidence(parent, child)),
                    ],
                ),
            ),
        )
    }
}

/// Checks a parent that has moved.
pub fn moved_parent_checks(
    parent: &StackNode,
    child: &Claim,
    tip: &str,
    exit_code: Option<i32>,
) -> (result: (Vec<DoctorCheck>, Vec<String>))
    ensures
        advice(result.0@, result.1@) == moved_parent(parent@, child@, tip@, exit_code),
{
    let ghost wanted = moved_parent(parent@, child@, tip@, exit_code);
    let mut checks: Vec<DoctorCheck> = Vec::new();
    let mut recommendations: Vec<String> = Vec::new();
    let code: i32 = match exit_code {
        Some(code) => code,
        None => -1,
    };
    if code == 0 {
        checks.push(
            make_generation_check(
                CheckStatus::Pass,
                "captured parent SHA remains in current parent history",
            ).with_evidence(tip_object(parent, child, tip)),
        );
        checks.push(
            DoctorCheck::new(
                "merge.parent_advanced",
                CheckGate::Merge,
                "Parent branch advanced",
                CheckStatus::Warn,
                "parent branch advanced after the child captured its base".to_owned(),
            ).with_evidence(tip_object(parent, child, tip)),
        );
    } else if code == 1 {
        checks.push(
            make_generation_check(
                CheckStatus::Fail,
                "captured parent SHA is no longer in current parent history",
            ).with_evidence(tip_object(parent, child, tip)),
        );
        recommendations.push(manual_restack_recommendation(child, &parent.claim, true));
    } else {
        let members: Vec<(&str, Json)> = vec![
            ("exit_code", write_optional_i32(exit_code)),
            ("parent_tip", text(tip)),
            ("relationship", relationship_object(parent, child)),
        ];
        assert(named(members@) =~= wanted.checks[0].evidence->0->Object_0);
        checks.push(
            make_generation_check(
                CheckStatus::Error,
                "could not compare captured and current parent history",
            ).with_evidence(object(members)),
        );
    }
    assert(views(checks@) =~= wanted.checks);
    assert(views(recommendations@) =~= wanted.recommendations);
    (checks, recommendations)
}

/// What Git is asked for the commit that a branch is at.
pub open spec fn branch_tip_args(branch: Seq<char>) -> Seq<Seq<char>> {
    seq![
        "rev-parse"@,
        "--verify"@,
        "--quiet"@,
        "refs/heads/"@ + branch + "^{commit}"@,
    ]
}

pub fn branch_tip_arguments(branch: &str) -> (args: Vec<String>)
    ensures
        views(args@) == branch_tip_args(branch@),
{
    let mut reference = "refs/heads/".to_owned();
    reference.append(branch);
    reference.append("^{commit}");
    let parts: Vec<&str> = vec!["rev-parse", "--verify", "--quiet", reference.as_str()];
    let args = arguments(&parts);
    assert(views(args@) =~= branch_tip_args(branch@));
    args
}

/// What Git is asked for whether a commit is an ancestor of another.
pub open spec fn ancestor_args(ancestor: Seq<char>, commit: Seq<char>) -> Seq<Seq<char>> {
    seq!["merge-base"@, "--is-ancestor"@, ancestor, commit]
}

pub fn ancestor_arguments(ancestor: &str, commit: &str) -> (args: Vec<String>)
    ensures
        views(args@) == ancestor_args(ancestor@, commit@),
{
    let parts: Vec<&str> = vec!["merge-base", "--is-ancestor", ancestor, commit];
    let args = arguments(&parts);
    assert(views(args@) =~= ancestor_args(ancestor@, commit@));
    args
}

/// What a question to Git about the branch of a parent leads to.
pub enum ParentTip {
    /// Git could not be run.
    Unanswered(RunnerError),
    /// What it printed is no text.
    Unreadable(Seq<char>),
    /// The branch does not resolve.
    Lost,
    /// Where the branch is.
    At(Seq<char>),
}

pub open spec fn parent_tip(answer: Result<CommandOutput, RunnerError>) -> ParentTip {
    match answer {
        Err(error) => ParentTip::Unanswered(error),
        Ok(output) => if output.exit_code != Some(0i32) {
            ParentTip::Lost
        } else {
            match printed(output.stdout@, "git rev-parse parent branch"@) {
                Err(problem) => ParentTip::Unreadable(problem),
                Ok(tip) => ParentTip::At(tip),
            }
        },
    }
}

pub open spec fn asked_tip<R: CommandRunner>(
    runner: &R,
    main_worktree: Seq<char>,
    parent: NodeView,
    tip: ParentTip,
) -> bool {
    exists|answer: Result<CommandOutput, RunnerError>| #[trigger]
        answers(
            runner,
            command("git"@, branch_tip_args(parent.claim.branch), main_worktree),
            answer,
        ) && tip == parent_tip(answer)
}

pub open spec fn asked_ancestry<R: CommandRunner>(
    runner: &R,
    main_worktree: Seq<char>,
    child: ClaimView,
    tip: Seq<char>,
    answer: Result<CommandOutput, RunnerError>,
) -> bool {
    answers(runner, command("git"@, ancestor_args(child.base_sha, tip), main_worktree), answer)
}

/// Whether asking Git about the history of a parent that has moved may give that advice.
pub open spec fn moved_found<R: CommandRunner>(
    runner: &R,
    main_worktree: Seq<char>,
    parent: NodeView,
    child: ClaimView,
    tip: Seq<char>,
    found: Advice,
) -> bool {
    exists|output: CommandOutput| #[trigger]
        asked_ancestry(runner, main_worktree, child, tip, Ok(output)) && found == moved_parent(
            parent,
            child,
            tip,
            output.exit_code,
        )
}

pub open spec fn moved_failed<R: CommandRunner>(
    runner: &R,
    main_worktree: Seq<char>,
    child: ClaimView,
    tip: Seq<char>,
    error: DoctorError,
) -> bool {
    exists|cause: RunnerError| #[trigger]
        asked_ancestry(runner, main_worktree, child, tip, Err(cause)) && error
            == DoctorError::Runner(cause)
}

/// Whether comparing a child with its parent may give that advice. Git is asked only about a
/// parent that is active, and about the history only where the parent has moved.
pub open spec fn drift_found<R: CommandRunner>(
    runner: &R,
    main_worktree: Seq<char>,
    parent: NodeView,
    child: ClaimView,
    found: Advice,
) -> bool {
    match inactive_parent(parent, child) {
        Some(settled) => found == settled,
        None => exists|tip: ParentTip| #[trigger]
            asked_tip(runner, main_worktree, parent, tip) && match tip {
                ParentTip::Lost => found == lost_parent(parent, child),
                ParentTip::At(commit) => if commit == child.base_sha {
                    found == current_parent(parent, child, commit)
                } else {
                    moved_found(runner, main_worktree, parent, child, commit, found)
                },
                _ => false,
            },
    }
}

/// Whether comparing a child with its parent may fail with that error.
pub open spec fn drift_failed<R: CommandRunner>(
    runner: &R,
    main_worktree: Seq<char>,
    parent: NodeView,
    child: ClaimView,
    error: DoctorError,
) -> bool {
    inactive_parent(parent, child) is None && exists|tip: ParentTip| #[trigger]
        asked_tip(runner, main_worktree, parent, tip) && match tip {
            ParentTip::Unanswered(cause) => error == DoctorError::Runner(cause),
            ParentTip::Unreadable(problem) => error matches DoctorError::InvalidGitOutput(said)
                && said@ == problem,
            ParentTip::Lost => false,
            ParentTip::At(commit) => commit != child.base_sha && moved_failed(
                runner,
                main_worktree,
                child,
                commit,
                error,
            ),
        }
}

/// Compares a child with the exact generation that it builds on.
pub fn parent_drift_checks<R: CommandRunner>(
    runner: &R,
    main_worktree: &str,
    parent: &StackNode,
    child: &Claim,
) -> (result: Result<(Vec<DoctorCheck>, Vec<String>), DoctorError>)
    requires
        permits_observing(runner),
    ensures
        match result {
            Ok(found) => drift_found(
                runner,
                main_worktree@,
                parent@,
                child@,
                advice(found.0@, found.1@),
            ),
            Err(error) => drift_failed(runner, main_worktree@, parent@, child@, error),
        },
{
    if let Some(found) = check_inactive_parent(parent, child) {
        return Ok(found);
    }
    let git = GitCli::new(runner);
    let answer = git.attempt(main_worktree, branch_tip_arguments(parent.claim.branch.as_str()));
    let ghost seen = parent_tip(answer);
    assert(asked_tip(runner, main_worktree@, parent@, seen));
    let output = match answer {
        Ok(output) => output,
        Err(error) => return Err(DoctorError::Runner(error)),
    };
    let resolves = match output.exit_code {
        Some(code) => code == 0,
        None => false,
    };
    let mut checks: Vec<DoctorCheck> = Vec::new();
    let recommendations: Vec<String> = Vec::new();
    if !resolves {
        checks.push(
            make_generation_check(
                CheckStatus::Error,
                "the exact parent branch does not resolve",
            ).with_evidence(relationship_object(parent, child)),
        );
        assert(views(checks@) =~= lost_parent(parent@, child@).checks);
        assert(views(recommendations@) =~= Seq::empty());
        return Ok((checks, recommendations));
    }
    let tip = match text_from_utf8_output(&output.stdout, "git rev-parse parent branch") {
        Ok(tip) => tip,
        Err(problem) => return Err(DoctorError::InvalidGitOutput(problem)),
    };
    assert(seen == ParentTip::At(tip@));
    if same(tip.as_str(), child.base_sha.as_str()) {
        checks.push(
            make_generation_check(
                CheckStatus::Pass,
                "captured parent generation is current",
            ).with_evidence(tip_object(parent, child, tip.as_str())),
        );
        assert(views(checks@) =~= current_parent(parent@, child@, tip@).checks);
        assert(views(recommendations@) =~= Seq::empty());
        return Ok((checks, recommendations));
    }
    let ancestry = git.attempt(
        main_worktree,
        ancestor_arguments(child.base_sha.as_str(), tip.as_str()),
    );
    assert(asked_ancestry(runner, main_worktree@, child@, tip@, ancestry));
    match ancestry {
        Ok(output) => Ok(moved_parent_checks(parent, child, tip.as_str(), output.exit_code)),
        Err(error) => Err(DoctorError::Runner(error)),
    }
}

// ---------------------------------------------------------------------------------------------
// Whole stacks
// ---------------------------------------------------------------------------------------------
/// The check on whether an issue is claimed exactly once.
pub open spec fn claimed_check(status: CheckStatus, message: Seq<char>) -> CheckView {
    required_check(
        "integrity.claim_exists"@,
        CheckGate::Integrity,
        "Active claim"@,
        status,
        message,
    )
}

/// The check that a problem of a stack is.
pub open spec fn problem_check(problem: StackProblemView) -> CheckView {
    match problem {
        StackProblemView::BaseCycle { cycle } => required_check(
            "publish.base_cycle"@,
            CheckGate::Publish,
            "Stack dependency cycle"@,
            CheckStatus::Error,
            "base_claim_id dependencies contain a cycle"@,
        ).with(JsonView::Object(seq![("cycle"@, ids_evidence(cycle))])),
        StackProblemView::MissingParent {
            child_claim_id,
            parent_issue,
            parent_claim_id,
            replacement_claim_id,
        } => generation_check(
            CheckStatus::Fail,
            "the exact recorded parent generation is missing"@,
        ).with(
            JsonView::Object(
                seq![
                    ("child_claim_id"@, id_json(child_claim_id)),
                    ("parent_claim_id"@, id_json(parent_claim_id)),
                    ("parent_issue"@, JsonView::Unsigned(parent_issue)),
                    ("replacement_claim_id"@, optional_id_json(replacement_claim_id)),
                ],
            ),
        ),
        StackProblemView::MissingTarget { issue } => claimed_check(
            CheckStatus::Fail,
            "issue #"@ + decimal(issue as nat) + " has no active local claim"@,
        ),
        StackProblemView::DuplicateTarget { issue } => claimed_check(
            CheckStatus::Error,
            "issue #"@ + decimal(issue as nat) + " has multiple active local claims"@,
        ),
    }
}

pub fn make_claimed_check(status: CheckStatus, issue: IssueNumber, rest: &str) -> (result:
    DoctorCheck)
    ensures
        result@ == claimed_check(status, "issue #"@ + decimal(issue as nat) + rest@),
{
    let mut message = "issue #".to_owned();
    message.append(decimal_text(issue).as_str());
    message.append(rest);
    DoctorCheck::new(
        "integrity.claim_exists",
        CheckGate::Integrity,
        "Active claim",
        status,
        message,
    ).required()
}

pub fn stack_problem_check(problem: &StackProblem) -> (result: DoctorCheck)
    ensures
        result@ == problem_check(problem@),
{
    match problem {
        StackProblem::BaseCycle { cycle } => {
            let members: Vec<(&str, Json)> = vec![("cycle", id_list(cycle))];
            assert(named(members@) =~= seq![("cycle"@, ids_evidence(cycle@))]);
            DoctorCheck::new(
                "publish.base_cycle",
                CheckGate::Publish,
                "Stack dependency cycle",
                CheckStatus::Error,
                "base_claim_id dependencies contain a cycle".to_owned(),
            ).required().with_evidence(object(members))
        },
        StackProblem::MissingParent {
            child_claim_id,
            parent_issue,
            parent_claim_id,
            replacement_claim_id,
        } => {
            let members: Vec<(&str, Json)> = vec![
                ("child_claim_id", write_id(*child_claim_id)),
                ("parent_claim_id", write_id(*parent_claim_id)),
                ("parent_issue", Json::Unsigned(*parent_issue)),
                ("replacement_claim_id", write_optional_id(*replacement_claim_id)),
            ];
            assert(named(members@) =~= problem_check(problem@).evidence->0->Object_0);
            make_generation_check(
                CheckStatus::Fail,
                "the exact recorded parent generation is missing",
            ).with_evidence(object(members))
        },
        StackProblem::MissingTarget { issue } => make_claimed_check(
            CheckStatus::Fail,
            *issue,
            " has no active local claim",
        ),
        StackProblem::DuplicateTarget { issue } => make_claimed_check(
            CheckStatus::Error,
            *issue,
            " has multiple active local claims",
        ),
    }
}

/// What a parent that is not recorded any more recommends.
pub open spec fn missing_parent_advice(
    child_claim_id: Id,
    parent_issue: IssueNumber,
    parent_claim_id: Id,
) -> Seq<char> {
    "Restack child generation "@ + short_text(child_claim_id) + " manually; exact parent #"@
        + decimal(parent_issue as nat) + " generation "@ + short_text(parent_claim_id)
        + " is unavailable"@
}

fn missing_parent_recommendation(
    child_claim_id: Id,
    parent_issue: IssueNumber,
    parent_claim_id: Id,
) -> (text: String)
    ensures
        text@ == missing_parent_advice(child_claim_id, parent_issue, parent_claim_id),
{
    let mut text = "Restack child generation ".to_owned();
    text.append(short_id(child_claim_id).as_str());
    text.append(" manually; exact parent #");
    text.append(decimal_text(parent_issue).as_str());
    text.append(" generation ");
    text.append(short_id(parent_claim_id).as_str());
    text.append(" is unavailable");
    text
}

/// The check that a cycle of issues that wait for each other is.
pub open spec fn cycle_check(cycle: Seq<IssueNumber>) -> CheckView {
    required_check(
        "publish.wait_for_cycle"@,
        CheckGate::Publish,
        "Consolidation dependency cycle"@,
        CheckStatus::Error,
        "wait_for dependencies contain a cycle"@,
    ).with(JsonView::Object(seq![("cycle"@, issues_evidence(cycle))]))
}

pub open spec fn cycle_checks(cycles: Seq<Seq<IssueNumber>>) -> Seq<CheckView> {
    Seq::new(cycles.len(), |i: int| cycle_check(cycles[i]))
}

fn make_cycle_checks(cycles: &Vec<Vec<IssueNumber>>) -> (checks: Vec<DoctorCheck>)
    ensures
        views(checks@) == cycle_checks(lists(cycles@)),
{
    let mut checks: Vec<DoctorCheck> = Vec::new();
    let mut i: usize = 0;
    while i < cycles.len()
        invariant
            i <= cycles.len(),
            checks.len() == i,
            forall|j: int| 0 <= j < i ==> (#[trigger] checks@[j])@ == cycle_check(cycles@[j]@),
        decreases cycles.len() - i,
    {
        let members: Vec<(&str, Json)> = vec![("cycle", issue_list(&cycles[i]))];
        assert(named(members@) =~= seq![("cycle"@, issues_evidence(cycles@[i as int]@))]);
        checks.push(
            DoctorCheck::new(
                "publish.wait_for_cycle",
                CheckGate::Publish,
                "Consolidation dependency cycle",
                CheckStatus::Error,
                "wait_for dependencies contain a cycle".to_owned(),
            ).required().with_evidence(object(members)),
        );
        i = i + 1;
    }
    assert(views(checks@) =~= cycle_checks(lists(cycles@)));
    checks
}

/// How far the stacks have been gone through: what has been said, and which children have been
/// compared with their parents.
pub struct Assessment {
    pub said: Advice,
    pub assessed: Seq<Id>,
}

/// What has been said once a problem of a stack is added; a check that stands there already is
/// not repeated.
pub open spec fn with_problem(before: Assessment, problem: Option<StackProblemView>) -> Assessment {
    match problem {
        None => before,
        Some(problem) => {
            let one = problem_check(problem);
            Assessment {
                said: Advice {
                    checks: if before.said.checks.contains(one) {
                        before.said.checks
                    } else {
                        before.said.checks.push(one)
                    },
                    recommendations: match problem {
                        StackProblemView::MissingParent {
                            child_claim_id,
                            parent_issue,
                            parent_claim_id,
                            ..
                        } => before.said.recommendations.push(
                            missing_parent_advice(child_claim_id, parent_issue, parent_claim_id),
                        ),
                        _ => before.said.recommendations,
                    },
                },
                assessed: before.assessed,
            }
        },
    }
}

/// Whether comparing a child with its parent may lead from one state to the next. No child is
/// compared twice.
pub open spec fn pair_assessed<R: CommandRunner>(
    runner: &R,
    main_worktree: Seq<char>,
    parent: NodeView,
    child: ClaimView,
    before: Assessment,
    after: Assessment,
) -> bool {
    if before.assessed.contains(child.claim_id) {
        after == before
    } else {
        exists|found: Advice| #[trigger]
            drift_found(runner, main_worktree, parent, child, found) && after == (Assessment {
                said: before.said.and(found),
                assessed: before.assessed.push(child.claim_id),
            })
    }
}

/// Whether comparing the last of the first nodes of a stack may lead from one state to the next.
pub open spec fn last_assessed<R: CommandRunner>(
    runner: &R,
    main_worktree: Seq<char>,
    nodes: Seq<NodeView>,
    count: nat,
    before: Assessment,
    after: Assessment,
) -> bool {
    pair_assessed(
        runner,
        main_worktree,
        nodes[count - 2],
        nodes[count - 1].claim,
        before,
        after,
    )
}

/// Whether comparing the first nodes of a stack, each with the one before it, may lead from one
/// state to the next.
pub open spec fn nodes_assessed<R: CommandRunner>(
    runner: &R,
    main_worktree: Seq<char>,
    nodes: Seq<NodeView>,
    count: nat,
    before: Assessment,
    after: Assessment,
) -> bool
    decreases count,
{
    if count <= 1 {
        after == before
    } else {
        exists|between: Assessment|
            nodes_assessed(runner, main_worktree, nodes, (count - 1) as nat, before, between)
                && #[trigger] last_assessed(runner, main_worktree, nodes, count, between, after)
    }
}

/// Whether going through the stack of an issue may lead from one state to the next.
pub open spec fn stack_assessed<R: CommandRunner>(
    runner: &R,
    main_worktree: Seq<char>,
    records: Records,
    root: IssueNumber,
    before: Assessment,
    after: Assessment,
) -> bool {
    exists|resolution: ResolutionView| #[trigger]
        stack_of(records, root, resolution) && nodes_assessed(
            runner,
            main_worktree,
            resolution.nodes,
            resolution.nodes.len(),
            with_problem(before, resolution.problem),
            after,
        )
}

/// Whether going through the stack of the last of the first issues may lead from one state to the
/// next.
pub open spec fn last_stack_assessed<R: CommandRunner>(
    runner: &R,
    main_worktree: Seq<char>,
    records: Records,
    roots: Seq<IssueNumber>,
    count: nat,
    before: Assessment,
    after: Assessment,
) -> bool {
    stack_assessed(runner, main_worktree, records, roots[count - 1], before, after)
}

/// Whether going through the stacks of the first issues may lead from one state to the next.
pub open spec fn stacks_assessed<R: CommandRunner>(
    runner: &R,
    main_worktree: Seq<char>,
    records: Records,
    roots: Seq<IssueNumber>,
    count: nat,
    before: Assessment,
    after: Assessment,
) -> bool
    decreases count,
{
    if count == 0 {
        after == before
    } else {
        exists|between: Assessment|
            stacks_assessed(
                runner,
                main_worktree,
                records,
                roots,
                (count - 1) as nat,
                before,
                between,
            ) && #[trigger] last_stack_assessed(
                runner,
                main_worktree,
                records,
                roots,
                count,
                between,
                after,
            )
    }
}

/// The state before any stack is gone through: the cycles of issues that wait for each other have
/// been told.
pub open spec fn cycles_told(records: Records, roots: Seq<IssueNumber>) -> Assessment {
    Assessment {
        said: Advice {
            checks: cycle_checks(cycles_found(records.active, roots)),
            recommendations: Seq::empty(),
        },
        assessed: Seq::empty(),
    }
}

/// Whether going through the stacks of issues may give that advice.
pub open spec fn stacks_checked<R: CommandRunner>(
    runner: &R,
    main_worktree: Seq<char>,
    records: Records,
    roots: Seq<IssueNumber>,
    found: Advice,
) -> bool {
    exists|after: Assessment| #[trigger]
        stacks_assessed(
            runner,
            main_worktree,
            records,
            roots,
            roots.len(),
            cycles_told(records, roots),
            after,
        ) && found == after.said
}

/// Whether going through the stack of an issue may fail with that error, at a child that was not
/// compared before.
pub open spec fn stack_failed<R: CommandRunner>(
    runner: &R,
    main_worktree: Seq<char>,
    records: Records,
    root: IssueNumber,
    before: Assessment,
    error: DoctorError,
) -> bool {
    exists|resolution: ResolutionView, at: Assessment, count: nat| #[trigger]
        stack_of(records, root, resolution) && 0 < count < resolution.nodes.len() && #[trigger]
        nodes_assessed(
            runner,
            main_worktree,
            resolution.nodes,
            count,
            with_problem(before, resolution.problem),
            at,
        ) && !at.assessed.contains(resolution.nodes[count as int].claim.claim_id) && drift_failed(
            runner,
            main_worktree,
            resolution.nodes[count - 1],
            resolution.nodes[count as int].claim,
            error,
        )
}

/// Whether going through the stacks of issues may fail with that error.
pub open spec fn stacks_failed<R: CommandRunner>(
    runner: &R,
    main_worktree: Seq<char>,
    records: Records,
    roots: Seq<IssueNumber>,
    error: DoctorError,
) -> bool {
    exists|at: Assessment, count: nat| #[trigger]
        stacks_assessed(
            runner,
            main_worktree,
            records,
            roots,
            count,
            cycles_told(records, roots),
            at,
        ) && count < roots.len() && stack_failed(
            runner,
            main_worktree,
            records,
            roots[count as int],
            at,
            error,
        )
}

fn contains_check(checks: &Vec<DoctorCheck>, one: &DoctorCheck) -> (found: bool)
    ensures
        found == views(checks@).contains(one@),
{
    let ghost all = views(checks@);
    let mut i: usize = 0;
    while i < checks.len()
        invariant
            i <= checks.len(),
            all == views(checks@),
            forall|j: int| 0 <= j < i ==> #[trigger] all[j] != one@,
        decreases checks.len() - i,
    {
        if same_check(&checks[i], one) {
            assert(all[i as int] == one@);
            return true;
        }
        i = i + 1;
    }
    false
}

fn is_assessed(assessed: &Vec<Id>, id: Id) -> (found: bool)
    ensures
        found == assessed@.contains(id),
{
    let mut i: usize = 0;
    while i < assessed.len()
        invariant
            i <= assessed.len(),
            forall|j: int| 0 <= j < i ==> #[trigger] assessed@[j] != id,
        decreases assessed.len() - i,
    {
        if assessed[i] == id {
            return true;
        }
        i = i + 1;
    }
    false
}

pub open spec fn assessment(
    checks: Seq<DoctorCheck>,
    recommendations: Seq<String>,
    assessed: Seq<Id>,
) -> Assessment {
    Assessment { said: advice(checks, recommendations), assessed }
}

fn tell_problem(
    problem: &Option<StackProblem>,
    checks: &mut Vec<DoctorCheck>,
    recommendations: &mut Vec<String>,
    Ghost(assessed): Ghost<Seq<Id>>,
)
    ensures
        assessment(final(checks)@, final(recommendations)@, assessed) == with_problem(
            assessment(old(checks)@, old(recommendations)@, assessed),
            optional(*problem),
        ),
{
    let ghost before = assessment(checks@, recommendations@, assessed);
    if let Some(problem) = problem {
        let one = stack_problem_check(problem);
        let ghost added = one@;
        if !contains_check(checks, &one) {
            checks.push(one);
            assert(views(checks@) =~= before.said.checks.push(added));
        }
        if let StackProblem::MissingParent { child_claim_id, parent_issue, parent_claim_id, .. } =
            problem {
            let text = missing_parent_recommendation(
                *child_claim_id,
                *parent_issue,
                *parent_claim_id,
            );
            let ghost added = text@;
            recommendations.push(text);
            assert(views(recommendations@) =~= before.said.recommendations.push(added));
        }
    }
}

fn assess_nodes<R: CommandRunner>(
    runner: &R,
    main_worktree: &str,
    nodes: &Vec<StackNode>,
    checks: &mut Vec<DoctorCheck>,
    recommendations: &mut Vec<String>,
    assessed: &mut Vec<Id>,
) -> (result: Result<(), (usize, DoctorError)>)
    requires
        permits_observing(runner),
    ensures
        match result {
            Ok(()) => nodes_assessed(
                runner,
                main_worktree@,
                views(nodes@),
                nodes.len() as nat,
                assessment(old(checks)@, old(recommendations)@, old(assessed)@),
                assessment(final(checks)@, final(recommendations)@, final(assessed)@),
            ),
            Err((count, error)) => 0 < count < nodes.len() && nodes_assessed(
                runner,
                main_worktree@,
                views(nodes@),
                count as nat,
                assessment(old(checks)@, old(recommendations)@, old(assessed)@),
                assessment(final(checks)@, final(recommendations)@, final(assessed)@),
            ) && !final(assessed)@.contains(nodes@[count as int]@.claim.claim_id) && drift_failed(
                runner,
                main_worktree@,
                nodes@[count - 1]@,
                nodes@[count as int]@.claim,
                error,
            ),
        },
{
    let ghost all = views(nodes@);
    let ghost before = assessment(checks@, recommendations@, assessed@);
    if nodes.len() <= 1 {
        return Ok(());
    }
    let mut i: usize = 1;
    while i < nodes.len()
        invariant
            permits_observing(runner),
            1 <= i <= nodes.len(),
            all == views(nodes@),
            before == assessment(old(checks)@, old(recommendations)@, old(assessed)@),
            nodes_assessed(
                runner,
                main_worktree@,
                all,
                i as nat,
                before,
                assessment(checks@, recommendations@, assessed@),
            ),
        decreases nodes.len() - i,
    {
        let ghost between = assessment(checks@, recommendations@, assessed@);
        let parent = &nodes[i - 1];
        let child = &nodes[i].claim;
        if !is_assessed(assessed, child.claim_id) {
            match parent_drift_checks(runner, main_worktree, parent, child) {
                Ok((more, further)) => {
                    let ghost found = advice(more@, further@);
                    assert(drift_found(runner, main_worktree@, parent@, child@, found));
                    append_checks(checks, &more);
                    append_texts(recommendations, &further);
                    assessed.push(child.claim_id);
                },
                Err(error) => return Err((i, error)),
            }
        }
        assert(last_assessed(
            runner,
            main_worktree@,
            all,
            (i + 1) as nat,
            between,
            assessment(checks@, recommendations@, assessed@),
        ));
        i = i + 1;
    }
    Ok(())
}

/// Checks the stacks of issues: whether issues wait for each other in a cycle, whether each stack
/// can be resolved, and whether each of its generations still builds on the one before it.
pub fn stack_checks<R: CommandRunner>(
    runner: &R,
    main_worktree: &str,
    claims: &Vec<Claim>,
    releases: &Vec<ReleaseMarker>,
    active: &Vec<Claim>,
    roots: &Vec<IssueNumber>,
) -> (result: Result<(Vec<DoctorCheck>, Vec<String>), DoctorError>)
    requires
        permits_observing(runner),
    ensures
        ({
            let records = Records {
                claims: views(claims@),
                releases: views(releases@),
                active: views(active@),
            };
            match result {
                Ok(found) => stacks_checked(
                    runner,
                    main_worktree@,
                    records,
                    roots@,
                    advice(found.0@, found.1@),
                ),
                Err(error) => stacks_failed(runner, main_worktree@, records, roots@, error),
            }
        }),
{
    let ghost records = Records {
        claims: views(claims@),
        releases: views(releases@),
        active: views(active@),
    };
    let cycles = wait_for_cycles(active, roots);
    let mut checks = make_cycle_checks(&cycles);
    let mut recommendations: Vec<String> = Vec::new();
    let mut assessed: Vec<Id> = Vec::new();
    let ghost start = cycles_told(records, roots@);
    assert(views(recommendations@) =~= Seq::empty());
    let mut i: usize = 0;
    while i < roots.len()
        invariant
            permits_observing(runner),
            i <= roots.len(),
            records == (Records {
                claims: views(claims@),
                releases: views(releases@),
                active: views(active@),
            }),
            start == cycles_told(records, roots@),
            stacks_assessed(
                runner,
                main_worktree@,
                records,
                roots@,
                i as nat,
                start,
                assessment(checks@, recommendations@, assessed@),
            ),
        decreases roots.len() - i,
    {
        let ghost between = assessment(checks@, recommendations@, assessed@);
        let resolution = resolve_stack(claims, releases, active, roots[i]);
        assert(stack_of(records, roots@[i as int], resolution@));
        tell_problem(
            &resolution.problem,
            &mut checks,
            &mut recommendations,
            Ghost(assessed@),
        );
        match assess_nodes(
            runner,
            main_worktree,
            &resolution.nodes,
            &mut checks,
            &mut recommendations,
            &mut assessed,
        ) {
            Ok(()) => {},
            Err((count, error)) => {
                assert(nodes_assessed(
                    runner,
                    main_worktree@,
                    resolution@.nodes,
                    count as nat,
                    with_problem(between, resolution@.problem),
                    assessment(checks@, recommendations@, assessed@),
                ));
                assert(stack_failed(
                    runner,
                    main_worktree@,
                    records,
                    roots@[i as int],
                    between,
                    error,
                ));
                return Err(error);
            },
        }
        assert(last_stack_assessed(
            runner,
            main_worktree@,
            records,
            roots@,
            (i + 1) as nat,
            between,
            assessment(checks@, recommendations@, assessed@),
        ));
        i = i + 1;
    }
    Ok((checks, recommendations))
}

// ---------------------------------------------------------------------------------------------
// What drift means for publishing
// ---------------------------------------------------------------------------------------------
/// A child may be published as long as its captured commit is in the history of its parent, with
/// a warning about merging where the parent has advanced. A parent that was rewritten or released
/// blocks publishing; and one that is lost, or that cannot be compared, is an error.
pub proof fn drift_decides_on_publishing(
    parent: NodeView,
    child: ClaimView,
    tip: Seq<char>,
    exit_code: Option<i32>,
)
    ensures
        ({
            let current = current_parent(parent, child, tip).checks;
            &&& gate_rollup(current, CheckGate::Publish) == GateRollup::Okay
            &&& gate_rollup(current, CheckGate::Merge) == GateRollup::Okay
        }),
        ({
            let moved = moved_parent(parent, child, tip, exit_code).checks;
            &&& gate_rollup(moved, CheckGate::Publish) == (if exit_code == Some(0i32) {
                GateRollup::Okay
            } else if exit_code == Some(1i32) {
                GateRollup::Blocked
            } else {
                GateRollup::Error
            })
            &&& gate_rollup(moved, CheckGate::Merge) == (if exit_code == Some(0i32) {
                GateRollup::Warning
            } else {
                GateRollup::Okay
            })
        }),
        inactive_parent(parent, child) matches Some(found) ==> gate_rollup(
            found.checks,
            CheckGate::Publish,
        ) == (if parent.release is Some {
            GateRollup::Blocked
        } else {
            GateRollup::Error
        }),
        gate_rollup(lost_parent(parent, child).checks, CheckGate::Publish) == GateRollup::Error,
{
    reveal_with_fuel(gate_rollup, 3);
}

proof fn gates_are_no_better_than_their_checks(checks: Seq<CheckView>, gate: CheckGate, at: int)
    requires
        0 <= at < checks.len(),
        checks[at].gate == gate,
    ensures
        check_outcome(checks[at]).severity() <= gate_rollup(checks, gate).severity(),
    decreases checks.len(),
{
    if at < checks.len() - 1 {
        assert(checks.drop_last()[at] == checks[at]);
        gates_are_no_better_than_their_checks(checks.drop_last(), gate, at);
    }
}

/// Claims that build on each other in a circle, or wait for each other in one, are publish errors,
/// whatever else is found.
pub proof fn cycles_are_publish_errors(
    checks: Seq<CheckView>,
    at: int,
    generations: Seq<Id>,
    issues: Seq<IssueNumber>,
)
    requires
        0 <= at < checks.len(),
        checks[at] == cycle_check(issues) || checks[at] == problem_check(
            StackProblemView::BaseCycle { cycle: generations },
        ),
    ensures
        gate_rollup(checks, CheckGate::Publish) == GateRollup::Error,
        rollup(checks) == GateRollup::Error,
{
    gates_are_no_better_than_their_checks(checks, CheckGate::Publish, at);
    rollup_is_the_worst_check(checks);
}

} // verus!
