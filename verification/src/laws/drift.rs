//! What is said of a claim whose parent has moved, and of stacks that do not hold together.
use vstd::prelude::*;

use crate::command::{answers, command, printed, CommandOutput, CommandRunner, RunnerError};
use crate::diagnosis::Advice;
use crate::doctor::{CheckStatus, CheckView};
use crate::drift::{
    ancestor_args, asked_ancestry, asked_tip, branch_tip_args, current_parent, cycle_checks,
    cycles_told, drift_found, last_assessed, last_stack_assessed, lost_parent, moved_found,
    moved_parent, nodes_assessed, parent_tip, problem_check, stacks_assessed, stacks_checked,
    with_problem, Assessment, ParentTip,
};
use crate::id::{Id, IssueNumber};
use crate::laws::gates::{among_goes_on, among_sum, are_among};
use crate::model::ClaimView;
use crate::stack::{
    claims_on, cycles_found, resolved, stack_of, stacks_link_exact_generations, NodeView, Records,
    ResolutionView, StackProblemView,
};

verus! {

/// Whether what is said of the generation that a claim builds on is that.
pub open spec fn generation_told(found: Advice, status: CheckStatus) -> bool {
    &&& exists|k: int|
        0 <= k < found.checks.len() && (#[trigger] found.checks[k]).id
            == "publish.parent_generation"@
    &&& forall|k: int|
        0 <= k < found.checks.len() && (#[trigger] found.checks[k]).id
            == "publish.parent_generation"@ ==> found.checks[k].status == status
            && found.checks[k].gate is Publish && found.checks[k].required
}

/// Whether it is said that the parent went on, as a warning for merging.
pub open spec fn advance_told(found: Advice) -> bool {
    exists|k: int|
        0 <= k < found.checks.len() && (#[trigger] found.checks[k]).id == "merge.parent_advanced"@
            && found.checks[k].gate is Merge && found.checks[k].status is Warn
}

/// The advice to put the commits of a claim onto another start.
pub open spec fn restacking(child: ClaimView, onto: Seq<char>) -> Seq<char> {
    "Restack manually: git -C "@ + child.worktree + " rebase --onto "@ + onto + " "@
        + child.base_sha
}

/// Asking where a branch is.
pub open spec fn where_is(branch: Seq<char>) -> Seq<Seq<char>> {
    seq!["rev-parse"@, "--verify"@, "--quiet"@, "refs/heads/"@ + branch + "^{commit}"@]
}

/// Asking whether a commit is in the history of another.
pub open spec fn is_in_history(commit: Seq<char>, of: Seq<char>) -> Seq<Seq<char>> {
    seq!["merge-base"@, "--is-ancestor"@, commit, of]
}

/// Whether what is said of a parent that has moved is right: where its history has the captured
/// base, that it went on; where it does not, that the claim is to be put onto it anew; and where
/// that could not be found out, an error.
pub open spec fn movement_told<R: CommandRunner>(
    runner: &R,
    main_worktree: Seq<char>,
    parent: ClaimView,
    child: ClaimView,
    tip: Seq<char>,
    found: Advice,
) -> bool {
    exists|output: CommandOutput| #[trigger]
        answers(
            runner,
            command("git"@, is_in_history(child.base_sha, tip), main_worktree),
            Ok(output),
        ) && (if output.exit_code == Some(0i32) {
            generation_told(found, CheckStatus::Pass) && advance_told(found)
        } else if output.exit_code == Some(1i32) {
            generation_told(found, CheckStatus::Fail) && !advance_told(found)
                && found.recommendations.contains(restacking(child, parent.branch))
        } else {
            generation_told(found, CheckStatus::Error) && !advance_told(found)
        })
}

proof fn drift_checks_differ()
    ensures
        "publish.parent_generation"@ != "merge.parent_advanced"@,
{
    reveal_strlit("publish.parent_generation");
    reveal_strlit("merge.parent_advanced");
    assert("publish.parent_generation"@.len() != "merge.parent_advanced"@.len());
}

/// What is said of a claim and the generation that it builds on. Where that was released, publishing
/// fails, and the claim is to be put onto what the generation was based on. Where it is neither
/// active nor released, or its branch is lost, that is an error. Where its branch is still at the
/// captured base, all is well; where it has moved, it is said how.
pub proof fn drift_tells_what_became_of_the_parent<R: CommandRunner>(
    runner: &R,
    main_worktree: Seq<char>,
    parent: NodeView,
    child: ClaimView,
    found: Advice,
)
    requires
        drift_found(runner, main_worktree, parent, child, found),
    ensures
        parent.release is Some ==> generation_told(found, CheckStatus::Fail) && !advance_told(found)
            && found.recommendations.contains(
            restacking(child, parent.claim.base_remote + "/"@ + parent.claim.base_ref),
        ),
        parent.release is None && !parent.active ==> generation_told(found, CheckStatus::Error)
            && !advance_told(found),
        parent.release is None && parent.active ==> exists|output: CommandOutput| #[trigger]
            answers(
                runner,
                command("git"@, where_is(parent.claim.branch), main_worktree),
                Ok(output),
            ) && (if output.exit_code != Some(0i32) {
                generation_told(found, CheckStatus::Error) && !advance_told(found)
            } else {
                printed(output.stdout@, "git rev-parse parent branch"@) matches Ok(tip) && (if tip
                    == child.base_sha {
                    generation_told(found, CheckStatus::Pass) && !advance_told(found)
                } else {
                    movement_told(runner, main_worktree, parent.claim, child, tip, found)
                })
            }),
{
    drift_checks_differ();
    if found.checks.len() > 0 {
        assert(found.checks[0] == found.checks[0]);
    }
    if parent.release is Some {
        let text = restacking(child, parent.claim.base_remote + "/"@ + parent.claim.base_ref);
        assert(found.recommendations[0] =~= text);
        assert(found.checks[0].id == "publish.parent_generation"@);
    } else if !parent.active {
        assert(found.checks[0].id == "publish.parent_generation"@);
    } else {
        let tip = choose|tip: ParentTip| #[trigger]
            asked_tip(runner, main_worktree, parent, tip) && match tip {
                ParentTip::Lost => found == lost_parent(parent, child),
                ParentTip::At(commit) => if commit == child.base_sha {
                    found == current_parent(parent, child, commit)
                } else {
                    moved_found(runner, main_worktree, parent, child, commit, found)
                },
                _ => false,
            };
        let answer = choose|answer: Result<CommandOutput, RunnerError>| #[trigger]
            answers(
                runner,
                command("git"@, branch_tip_args(parent.claim.branch), main_worktree),
                answer,
            ) && tip == parent_tip(answer);
        assert(branch_tip_args(parent.claim.branch) =~= where_is(parent.claim.branch));
        let output = answer->Ok_0;
        assert(answers(
            runner,
            command("git"@, where_is(parent.claim.branch), main_worktree),
            Ok(output),
        ));
        match tip {
            ParentTip::At(commit) => {
                if commit == child.base_sha {
                    assert(found.checks[0].id == "publish.parent_generation"@);
                } else {
                    let more = choose|more: CommandOutput| #[trigger]
                        asked_ancestry(runner, main_worktree, child, commit, Ok(more)) && found
                            == moved_parent(parent, child, commit, more.exit_code);
                    assert(ancestor_args(child.base_sha, commit) =~= is_in_history(
                        child.base_sha,
                        commit,
                    ));
                    assert(answers(
                        runner,
                        command("git"@, is_in_history(child.base_sha, commit), main_worktree),
                        Ok(more),
                    ));
                    assert(found.checks[0].id == "publish.parent_generation"@);
                    if more.exit_code == Some(0i32) {
                        assert(found.checks[1].id == "merge.parent_advanced"@);
                    } else if more.exit_code == Some(1i32) {
                        assert(found.recommendations[0] =~= restacking(child, parent.claim.branch));
                    }
                }
            },
            _ => {
                assert(found.checks[0].id == "publish.parent_generation"@);
            },
        }
    }
}

/// What is wrong with a stack is told: a cycle of bases as an error of publishing, a parent that is
/// not recorded as a failure of it, and an issue without an active claim, or with several, as a
/// failure or an error of integrity.
pub proof fn stack_problems_become_checks(problem: StackProblemView)
    ensures
        ({
            let check = problem_check(problem);
            &&& check.required
            &&& match problem {
                StackProblemView::BaseCycle { .. } => check.gate is Publish && check.status is Error,
                StackProblemView::MissingParent { .. } => check.gate is Publish && check.status
                    is Fail && check.id == "publish.parent_generation"@,
                StackProblemView::MissingTarget { .. } => check.gate is Integrity && check.status
                    is Fail,
                StackProblemView::DuplicateTarget { .. } => check.gate is Integrity && check.status
                    is Error,
            }
        }),
{
}

/// Whether the generation that a claim builds on was looked at, and all that was found stands among
/// checks.
pub open spec fn is_assessed<R: CommandRunner>(
    runner: &R,
    main_worktree: Seq<char>,
    id: Id,
    checks: Seq<CheckView>,
) -> bool {
    exists|parent: NodeView, child: ClaimView, found: Advice| #[trigger]
        drift_found(runner, main_worktree, parent, child, found) && child.claim_id == id
            && child.base_claim_id == Some(parent.claim.claim_id) && are_among(
            found.checks,
            checks,
        )
}

spec fn assessed_so<R: CommandRunner>(
    runner: &R,
    main_worktree: Seq<char>,
    now: Assessment,
) -> bool {
    forall|i: int|
        0 <= i < now.assessed.len() ==> is_assessed(
            runner,
            main_worktree,
            #[trigger] now.assessed[i],
            now.said.checks,
        )
}

proof fn assessed_stays<R: CommandRunner>(
    runner: &R,
    main_worktree: Seq<char>,
    id: Id,
    some: Seq<CheckView>,
    all: Seq<CheckView>,
)
    requires
        is_assessed(runner, main_worktree, id, some),
        are_among(some, all),
    ensures
        is_assessed(runner, main_worktree, id, all),
{
    let (parent, child, found) = choose|parent: NodeView, child: ClaimView, found: Advice| #[trigger]
        drift_found(runner, main_worktree, parent, child, found) && child.claim_id == id
            && child.base_claim_id == Some(parent.claim.claim_id) && are_among(found.checks, some);
    among_goes_on(found.checks, some, all);
}

spec fn linked(nodes: Seq<NodeView>) -> bool {
    forall|i: int|
        0 <= i < nodes.len() - 1 ==> nodes[i + 1].claim.base_claim_id == Some(
            (#[trigger] nodes[i]).claim.claim_id,
        )
}

proof fn nodes_are_assessed<R: CommandRunner>(
    runner: &R,
    main_worktree: Seq<char>,
    nodes: Seq<NodeView>,
    count: nat,
    before: Assessment,
    after: Assessment,
)
    requires
        count <= nodes.len(),
        linked(nodes),
        assessed_so(runner, main_worktree, before),
        nodes_assessed(runner, main_worktree, nodes, count, before, after),
    ensures
        assessed_so(runner, main_worktree, after),
        are_among(before.said.checks, after.said.checks),
        forall|n: int|
            1 <= n < count ==> is_assessed(
                runner,
                main_worktree,
                (#[trigger] nodes[n]).claim.claim_id,
                after.said.checks,
            ),
    decreases count,
{
    if count <= 1 {
        assert forall|c: int| 0 <= c < before.said.checks.len() implies after.said.checks.contains(
            #[trigger] before.said.checks[c],
        ) by {}
    } else {
        let between = choose|between: Assessment|
            nodes_assessed(runner, main_worktree, nodes, (count - 1) as nat, before, between)
                && #[trigger] last_assessed(runner, main_worktree, nodes, count, between, after);
        nodes_are_assessed(
            runner,
            main_worktree,
            nodes,
            (count - 1) as nat,
            before,
            between,
        );
        let parent = nodes[count - 2];
        let child = nodes[count - 1].claim;
        assert(nodes[(count - 2) + 1].claim.base_claim_id == Some(parent.claim.claim_id));
        if between.assessed.contains(child.claim_id) {
            let k = between.assessed.index_of(child.claim_id);
            assert(is_assessed(
                runner,
                main_worktree,
                between.assessed[k],
                between.said.checks,
            ));
        } else {
            let found = choose|found: Advice| #[trigger]
                drift_found(runner, main_worktree, parent, child, found) && after == (Assessment {
                    said: between.said.and(found),
                    assessed: between.assessed.push(child.claim_id),
                });
            among_sum(between.said.checks, found.checks);
            assert(is_assessed(runner, main_worktree, child.claim_id, after.said.checks));
            among_goes_on(before.said.checks, between.said.checks, after.said.checks);
            assert forall|i: int| 0 <= i < after.assessed.len() implies is_assessed(
                runner,
                main_worktree,
                #[trigger] after.assessed[i],
                after.said.checks,
            ) by {
                if i < between.assessed.len() {
                    assert(after.assessed[i] == between.assessed[i]);
                    assessed_stays(
                        runner,
                        main_worktree,
                        between.assessed[i],
                        between.said.checks,
                        after.said.checks,
                    );
                }
            }
            assert forall|n: int| 1 <= n < count implies is_assessed(
                runner,
                main_worktree,
                (#[trigger] nodes[n]).claim.claim_id,
                after.said.checks,
            ) by {
                if n < count - 1 {
                    assessed_stays(
                        runner,
                        main_worktree,
                        nodes[n].claim.claim_id,
                        between.said.checks,
                        after.said.checks,
                    );
                }
            }
        }
    }
}

/// Whether the stack of an issue is told of: what is wrong with it, and for each of its generations
/// what became of the one that it builds on.
pub open spec fn stack_told<R: CommandRunner>(
    runner: &R,
    main_worktree: Seq<char>,
    records: Records,
    root: IssueNumber,
    checks: Seq<CheckView>,
) -> bool {
    exists|resolution: ResolutionView| #[trigger]
        stack_of(records, root, resolution) && (resolution.problem matches Some(problem)
            ==> checks.contains(problem_check(problem))) && forall|n: int|
            1 <= n < resolution.nodes.len() ==> is_assessed(
                runner,
                main_worktree,
                (#[trigger] resolution.nodes[n]).claim.claim_id,
                checks,
            )
}

/// A stack that some checks tell of is told of by all that they are among.
pub proof fn stack_told_stays<R: CommandRunner>(
    runner: &R,
    main_worktree: Seq<char>,
    records: Records,
    root: IssueNumber,
    some: Seq<CheckView>,
    all: Seq<CheckView>,
)
    requires
        stack_told(runner, main_worktree, records, root, some),
        are_among(some, all),
    ensures
        stack_told(runner, main_worktree, records, root, all),
{
    let resolution = choose|resolution: ResolutionView| #[trigger]
        stack_of(records, root, resolution) && (resolution.problem matches Some(problem)
            ==> some.contains(problem_check(problem))) && forall|n: int|
            1 <= n < resolution.nodes.len() ==> is_assessed(
                runner,
                main_worktree,
                (#[trigger] resolution.nodes[n]).claim.claim_id,
                some,
            );
    if let Some(problem) = resolution.problem {
        let k = some.index_of(problem_check(problem));
        assert(all.contains(some[k]));
    }
    assert forall|n: int| 1 <= n < resolution.nodes.len() implies is_assessed(
        runner,
        main_worktree,
        (#[trigger] resolution.nodes[n]).claim.claim_id,
        all,
    ) by {
        assessed_stays(runner, main_worktree, resolution.nodes[n].claim.claim_id, some, all);
    }
}

proof fn resolutions_are_linked(
    records: Records,
    root: IssueNumber,
    resolution: ResolutionView,
)
    requires
        stack_of(records, root, resolution),
    ensures
        linked(resolution.nodes),
{
    if resolution.nodes.len() > 0 {
        let target = claims_on(records.active, root)[0];
        let chain = choose|chain: Seq<ClaimView>| #[trigger]
            resolved(records, target, chain, resolution);
        stacks_link_exact_generations(records, target, chain, resolution);
    }
}

proof fn stacks_are_assessed<R: CommandRunner>(
    runner: &R,
    main_worktree: Seq<char>,
    records: Records,
    roots: Seq<IssueNumber>,
    count: nat,
    before: Assessment,
    after: Assessment,
)
    requires
        count <= roots.len(),
        assessed_so(runner, main_worktree, before),
        stacks_assessed(runner, main_worktree, records, roots, count, before, after),
    ensures
        assessed_so(runner, main_worktree, after),
        are_among(before.said.checks, after.said.checks),
        forall|r: int|
            0 <= r < count ==> stack_told(
                runner,
                main_worktree,
                records,
                #[trigger] roots[r],
                after.said.checks,
            ),
    decreases count,
{
    if count == 0 {
        assert forall|c: int| 0 <= c < before.said.checks.len() implies after.said.checks.contains(
            #[trigger] before.said.checks[c],
        ) by {}
    } else {
        let between = choose|between: Assessment|
            stacks_assessed(
                runner,
                main_worktree,
                records,
                roots,
                (count - 1) as nat,
                before,
                between,
            ) && #[trigger] last_stack_assessed(
                runner,
                main_worktree,
                records,
                roots,
                count,
                between,
                after,
            );
        stacks_are_assessed(
            runner,
            main_worktree,
            records,
            roots,
            (count - 1) as nat,
            before,
            between,
        );
        let root = roots[count - 1];
        let resolution = choose|resolution: ResolutionView| #[trigger]
            stack_of(records, root, resolution) && nodes_assessed(
                runner,
                main_worktree,
                resolution.nodes,
                resolution.nodes.len(),
                with_problem(between, resolution.problem),
                after,
            );
        let told = with_problem(between, resolution.problem);
        assert(are_among(between.said.checks, told.said.checks)) by {
            assert forall|c: int|
                0 <= c < between.said.checks.len() implies told.said.checks.contains(
                #[trigger] between.said.checks[c],
            ) by {
                assert(told.said.checks[c] == between.said.checks[c]);
            }
        }
        if let Some(problem) = resolution.problem {
            let one = problem_check(problem);
            if !between.said.checks.contains(one) {
                assert(told.said.checks[told.said.checks.len() - 1] == one);
            }
            assert(told.said.checks.contains(one));
        }
        assert(assessed_so(runner, main_worktree, told)) by {
            assert forall|i: int| 0 <= i < told.assessed.len() implies is_assessed(
                runner,
                main_worktree,
                #[trigger] told.assessed[i],
                told.said.checks,
            ) by {
                assessed_stays(
                    runner,
                    main_worktree,
                    between.assessed[i],
                    between.said.checks,
                    told.said.checks,
                );
            }
        }
        resolutions_are_linked(records, root, resolution);
        nodes_are_assessed(
            runner,
            main_worktree,
            resolution.nodes,
            resolution.nodes.len(),
            told,
            after,
        );
        among_goes_on(between.said.checks, told.said.checks, after.said.checks);
        among_goes_on(before.said.checks, between.said.checks, after.said.checks);
        if let Some(problem) = resolution.problem {
            let k = told.said.checks.index_of(problem_check(problem));
            assert(after.said.checks.contains(told.said.checks[k]));
        }
        assert forall|r: int| 0 <= r < count implies stack_told(
            runner,
            main_worktree,
            records,
            #[trigger] roots[r],
            after.said.checks,
        ) by {
            if r < count - 1 {
                stack_told_stays(
                    runner,
                    main_worktree,
                    records,
                    roots[r],
                    between.said.checks,
                    after.said.checks,
                );
            }
        }
    }
}

/// The stacks of issues are told of one by one, and every cycle of issues that wait for each other
/// is an error of publishing.
pub proof fn stacks_are_told<R: CommandRunner>(
    runner: &R,
    main_worktree: Seq<char>,
    records: Records,
    roots: Seq<IssueNumber>,
    found: Advice,
)
    requires
        stacks_checked(runner, main_worktree, records, roots, found),
    ensures
        forall|r: int|
            0 <= r < roots.len() ==> stack_told(
                runner,
                main_worktree,
                records,
                #[trigger] roots[r],
                found.checks,
            ),
        cycles_found(records.active, roots).len() > 0 ==> exists|c: int|
            0 <= c < found.checks.len() && (#[trigger] found.checks[c]).id
                == "publish.wait_for_cycle"@ && found.checks[c].status is Error
                && found.checks[c].gate is Publish,
{
    let start = cycles_told(records, roots);
    let after = choose|after: Assessment| #[trigger]
        stacks_assessed(runner, main_worktree, records, roots, roots.len(), start, after) && found
            == after.said;
    stacks_are_assessed(runner, main_worktree, records, roots, roots.len(), start, after);
    if cycles_found(records.active, roots).len() > 0 {
        let one = cycle_checks(cycles_found(records.active, roots))[0];
        assert(start.said.checks[0] == one);
        assert(found.checks.contains(one));
        let c = found.checks.index_of(one);
        assert(found.checks[c].id == "publish.wait_for_cycle"@);
    }
}

} // verus!
