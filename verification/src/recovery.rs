//! Recovery: what is left to be done by hand where an operation was interrupted.
use vstd::prelude::*;
use vstd::string::*;

use crate::command::{
    answers, arguments, command, permits_observing, printed, text_from_utf8_output, CommandOutput,
    CommandRunner, RunnerError,
};
use crate::drift::{branch_tip_args, branch_tip_arguments};
use crate::evidence::{named, object, text};
use crate::git::{cli_result, CliCommandError, GitCli};
use crate::id::{short_id, short_text, Id, IssueNumber};
use crate::json::{list_view, Json, JsonView};
use crate::model::{OperationRecord, OperationView};
use crate::observation::{worktrees_args, ClaimObservation, ObservationView};
use crate::path::{find_place, is_same_path, place_of, same_path};
use crate::record::{texts_json, write_texts};
use crate::store::{journal_path, Store};
use crate::text::{
    decimal, decimal_text, pairs, same, split, split_text, strip_prefix, views, without_prefix,
};

verus! {

// ---------------------------------------------------------------------------------------------
// What is there
// ---------------------------------------------------------------------------------------------
/// Whether Git resolved what it was asked for.
pub open spec fn resolves(answer: Result<CommandOutput, RunnerError>) -> bool {
    answer matches Ok(output) && output.exit_code == Some(0i32)
}

/// Whether asking Git for a local branch may tell that it is there, or that it is not.
pub open spec fn branch_seen<R: CommandRunner>(
    runner: &R,
    cwd: Seq<char>,
    branch: Seq<char>,
    found: bool,
) -> bool {
    exists|answer: Result<CommandOutput, RunnerError>| #[trigger]
        answers(runner, command("git"@, branch_tip_args(branch), cwd), answer) && found == resolves(
            answer,
        )
}

/// Whether there is a local branch.
pub fn branch_exists<R: CommandRunner>(runner: &R, cwd: &str, branch: &str) -> (found: bool)
    requires
        runner.permits(command("git"@, branch_tip_args(branch@), cwd@)),
    ensures
        branch_seen(runner, cwd@, branch@, found),
{
    let git = GitCli::new(runner);
    match git.attempt(cwd, branch_tip_arguments(branch)) {
        Ok(output) => match output.exit_code {
            Some(code) => code == 0,
            None => false,
        },
        Err(_) => false,
    }
}

/// Whether one of the fields of a list of worktrees names a place.
pub open spec fn lists_place(
    fields: Seq<Seq<char>>,
    places: Seq<(Seq<char>, Seq<char>)>,
    place: Seq<char>,
) -> bool {
    exists|i: int|
        0 <= i < fields.len() && names_place(#[trigger] fields[i], places, place)
}

pub open spec fn names_place(
    field: Seq<char>,
    places: Seq<(Seq<char>, Seq<char>)>,
    place: Seq<char>,
) -> bool {
    without_prefix(field, "worktree "@) matches Some(path) && same_path(
        place_of(places, path),
        place,
    )
}

/// Whether a list of worktrees names a place. What is no list names none.
pub open spec fn registered(
    listed: Result<CommandOutput, CliCommandError>,
    places: Seq<(Seq<char>, Seq<char>)>,
    place: Seq<char>,
) -> bool {
    listed matches Ok(output) && printed(
        output.stdout@,
        "git worktree list --porcelain -z"@,
    ) matches Ok(text) && lists_place(split(text, '\0'), places, place)
}

/// Whether asking Git for its worktrees may tell that one is at a path, or that none is.
pub open spec fn worktree_seen<R: CommandRunner>(
    runner: &R,
    main_worktree: Seq<char>,
    places: Seq<(Seq<char>, Seq<char>)>,
    path: Seq<char>,
    found: bool,
) -> bool {
    exists|listed: Result<CommandOutput, CliCommandError>| #[trigger]
        cli_result(runner, "git"@, worktrees_args(), main_worktree, listed) && found == registered(
            listed,
            places,
            place_of(places, path),
        )
}

/// Whether a worktree at a path is registered. The places are where paths were found to lead to.
pub fn registered_worktree<R: CommandRunner>(
    runner: &R,
    main_worktree: &str,
    places: &Vec<(String, String)>,
    expected: &str,
) -> (found: bool)
    requires
        runner.permits(command("git"@, worktrees_args(), main_worktree@)),
    ensures
        worktree_seen(runner, main_worktree@, pairs(places@), expected@, found),
{
    let git = GitCli::new(runner);
    let parts: Vec<&str> = vec!["worktree", "list", "--porcelain", "-z"];
    let args = arguments(&parts);
    assert(views(args@) =~= worktrees_args());
    let listed = git.run(main_worktree, args);
    assert(cli_result(runner, "git"@, worktrees_args(), main_worktree@, listed));
    let output = match listed {
        Ok(output) => output,
        Err(_) => return false,
    };
    let text = match text_from_utf8_output(&output.stdout, "git worktree list --porcelain -z") {
        Ok(text) => text,
        Err(_) => return false,
    };
    let place = find_place(places, expected);
    let fields = split_text(text.as_str(), '\0');
    let ghost all = views(fields@);
    let ghost known = pairs(places@);
    let mut i: usize = 0;
    while i < fields.len()
        invariant
            runner.permits(command("git"@, worktrees_args(), main_worktree@)),
            i <= fields.len(),
            all == views(fields@),
            known == pairs(places@),
            place@ == place_of(known, expected@),
            listed == Ok::<CommandOutput, CliCommandError>(output),
            printed(output.stdout@, "git worktree list --porcelain -z"@) == Ok::<_, Seq<char>>(text@),
            all == split(text@, '\0'),
            cli_result(runner, "git"@, worktrees_args(), main_worktree@, listed),
            forall|j: int| 0 <= j < i ==> !names_place(#[trigger] all[j], known, place@),
        decreases fields.len() - i,
    {
        if let Some(path) = strip_prefix(fields[i].as_str(), "worktree ") {
            let here = find_place(places, path.as_str());
            if is_same_path(here.as_str(), place.as_str()) {
                assert(names_place(all[i as int], known, place@));
                return true;
            }
        }
        i = i + 1;
    }
    false
}

// ---------------------------------------------------------------------------------------------
// Plans
// ---------------------------------------------------------------------------------------------
/// Git commands that clean up after an operation, and the journal to be removed then.
#[derive(Debug)]
pub struct RecoveryPlan {
    pub commands: Vec<Vec<String>>,
    pub remove_journal: String,
}

pub struct PlanView {
    pub commands: Seq<Seq<Seq<char>>>,
    pub remove_journal: Seq<char>,
}

pub open spec fn command_lines(commands: Seq<Vec<String>>) -> Seq<Seq<Seq<char>>> {
    Seq::new(commands.len(), |i: int| views(commands[i]@))
}

impl View for RecoveryPlan {
    type V = PlanView;

    open spec fn view(&self) -> PlanView {
        PlanView {
            commands: command_lines(self.commands@),
            remove_journal: self.remove_journal@,
        }
    }
}

pub open spec fn command_evidence(args: Seq<Seq<char>>) -> JsonView {
    JsonView::Object(seq![("args"@, texts_json(args)), ("program"@, JsonView::Text("git"@))])
}

pub open spec fn commands_evidence(commands: Seq<Seq<Seq<char>>>) -> JsonView {
    JsonView::List(Seq::new(commands.len(), |i: int| command_evidence(commands[i])))
}

pub open spec fn plan_evidence(plan: PlanView) -> JsonView {
    JsonView::Object(
        seq![
            ("commands"@, commands_evidence(plan.commands)),
            ("remove_journal"@, JsonView::Text(plan.remove_journal)),
        ],
    )
}

pub fn plan_object(plan: &RecoveryPlan) -> (json: Json)
    ensures
        json@ == plan_evidence(plan@),
{
    let mut items: Vec<Json> = Vec::new();
    let mut i: usize = 0;
    while i < plan.commands.len()
        invariant
            i <= plan.commands.len(),
            items.len() == i,
            forall|j: int|
                0 <= j < i ==> (#[trigger] items@[j])@ == command_evidence(
                    views(plan.commands@[j]@),
                ),
        decreases plan.commands.len() - i,
    {
        let members: Vec<(&str, Json)> = vec![
            ("args", write_texts(&plan.commands[i])),
            ("program", text("git")),
        ];
        assert(named(members@) =~= command_evidence(
            views(plan.commands@[i as int]@),
        )->Object_0);
        items.push(object(members));
        i = i + 1;
    }
    proof {
        list_view(items);
        assert(views(items@) =~= commands_evidence(plan@.commands)->List_0);
    }
    let members: Vec<(&str, Json)> = vec![
        ("commands", Json::List(items)),
        ("remove_journal", text(plan.remove_journal.as_str())),
    ];
    assert(named(members@) =~= plan_evidence(plan@)->Object_0);
    object(members)
}

/// The branch that is made for a claim where none is named.
pub open spec fn generated_branch(issue: IssueNumber, claim_id: Id) -> Seq<char> {
    "envoy/issue-"@ + decimal(issue as nat) + "-"@ + short_text(claim_id)
}

pub fn make_generated_branch(issue: IssueNumber, claim_id: Id) -> (branch: String)
    ensures
        branch@ == generated_branch(issue, claim_id),
{
    let mut branch = "envoy/issue-".to_owned();
    branch.append(decimal_text(issue).as_str());
    branch.append("-");
    branch.append(short_id(claim_id).as_str());
    branch
}

pub open spec fn remove_worktree_args(worktree: Seq<char>) -> Seq<Seq<char>> {
    seq!["worktree"@, "remove"@, "--"@, worktree]
}

pub open spec fn delete_branch_args(branch: Seq<char>) -> Seq<Seq<char>> {
    seq!["branch"@, "-d"@, "--"@, branch]
}

/// What is to be done about an operation that was interrupted. Where its claim was made, only the
/// journal is left. Else the worktree is removed if it is registered, and the branch is deleted if
/// it is there and was made for the claim; a branch that was there before is never deleted.
pub open spec fn recovery(
    operation: OperationView,
    journal: Seq<char>,
    claimed: bool,
    worktree_there: bool,
    branch_there: bool,
) -> (PlanView, Seq<Seq<char>>) {
    if claimed {
        (
            PlanView { commands: Seq::empty(), remove_journal: journal },
            seq![
                "Remove operation journal "@ + journal
                    + " after confirming the committed claim is intact"@,
            ],
        )
    } else {
        let generated = operation.branch == generated_branch(operation.issue, operation.claim_id);
        let worktree_commands = if worktree_there {
            seq![remove_worktree_args(operation.worktree)]
        } else {
            Seq::empty()
        };
        let worktree_advice = if worktree_there {
            seq!["Run: git worktree remove -- "@ + operation.worktree]
        } else {
            Seq::empty()
        };
        let branch_commands = if branch_there && generated {
            seq![delete_branch_args(operation.branch)]
        } else {
            Seq::empty()
        };
        let branch_advice = if branch_there && generated {
            seq!["Run: git branch -d -- "@ + operation.branch]
        } else if branch_there {
            seq![
                "Review adopted branch "@ + operation.branch
                    + " manually; Envoy will not recommend deleting it"@,
            ]
        } else {
            Seq::empty()
        };
        (
            PlanView { commands: worktree_commands + branch_commands, remove_journal: journal },
            (worktree_advice + branch_advice).push(
                "Remove operation journal "@ + journal + " only after cleanup succeeds"@,
            ),
        )
    }
}

/// Plans what is to be done about an operation that was interrupted.
pub fn plan_recovery(
    operation: &OperationRecord,
    journal: String,
    claimed: bool,
    worktree_there: bool,
    branch_there: bool,
) -> (result: (RecoveryPlan, Vec<String>))
    ensures
        (result.0@, views(result.1@)) == recovery(
            operation@,
            journal@,
            claimed,
            worktree_there,
            branch_there,
        ),
{
    let ghost wanted = recovery(operation@, journal@, claimed, worktree_there, branch_there);
    let mut commands: Vec<Vec<String>> = Vec::new();
    let mut recommendations: Vec<String> = Vec::new();
    let mut last = "Remove operation journal ".to_owned();
    last.append(journal.as_str());
    if claimed {
        last.append(" after confirming the committed claim is intact");
    } else {
        let generated = same(
            operation.branch.as_str(),
            make_generated_branch(operation.issue, operation.claim_id).as_str(),
        );
        if worktree_there {
            let parts: Vec<&str> = vec!["worktree", "remove", "--", operation.worktree.as_str()];
            let args = arguments(&parts);
            assert(views(args@) =~= remove_worktree_args(operation.worktree@));
            commands.push(args);
            let mut line = "Run: git worktree remove -- ".to_owned();
            line.append(operation.worktree.as_str());
            recommendations.push(line);
        }
        if branch_there {
            if generated {
                let parts: Vec<&str> = vec!["branch", "-d", "--", operation.branch.as_str()];
                let args = arguments(&parts);
                assert(views(args@) =~= delete_branch_args(operation.branch@));
                commands.push(args);
                let mut line = "Run: git branch -d -- ".to_owned();
                line.append(operation.branch.as_str());
                recommendations.push(line);
            } else {
                let mut line = "Review adopted branch ".to_owned();
                line.append(operation.branch.as_str());
                line.append(" manually; Envoy will not recommend deleting it");
                recommendations.push(line);
            }
        }
        last.append(" only after cleanup succeeds");
    }
    recommendations.push(last);
    assert(command_lines(commands@) =~= wanted.0.commands);
    assert(views(recommendations@) =~= wanted.1);
    (RecoveryPlan { commands, remove_journal: journal }, recommendations)
}

/// Whether one of the claims is that generation.
pub open spec fn observes(claims: Seq<ObservationView>, id: Id) -> bool {
    exists|i: int| 0 <= i < claims.len() && (#[trigger] claims[i]).claim.claim_id == id
}

pub fn has_observation(claims: &Vec<ClaimObservation>, id: Id) -> (found: bool)
    ensures
        found == observes(views(claims@), id),
{
    let ghost all = views(claims@);
    let mut i: usize = 0;
    while i < claims.len()
        invariant
            i <= claims.len(),
            all == views(claims@),
            forall|j: int| 0 <= j < i ==> (#[trigger] all[j]).claim.claim_id != id,
        decreases claims.len() - i,
    {
        if claims[i].claim.claim_id == id {
            assert(all[i as int].claim.claim_id == id);
            return true;
        }
        i = i + 1;
    }
    false
}

/// Whether looking into an operation that was interrupted may lead to that plan and that advice.
/// Git is asked only where the claim was not made.
pub open spec fn recovery_found<R: CommandRunner>(
    runner: &R,
    main_worktree: Seq<char>,
    places: Seq<(Seq<char>, Seq<char>)>,
    operation: OperationView,
    journal: Seq<char>,
    claims: Seq<ObservationView>,
    found: (PlanView, Seq<Seq<char>>),
) -> bool {
    if observes(claims, operation.claim_id) {
        found == recovery(operation, journal, true, false, false)
    } else {
        exists|worktree_there: bool, branch_there: bool| #[trigger]
            worktree_seen(runner, main_worktree, places, operation.worktree, worktree_there)
                && #[trigger] branch_seen(
                runner,
                main_worktree,
                operation.branch,
                branch_there,
            ) && found == recovery(operation, journal, false, worktree_there, branch_there)
    }
}

/// Looks into an operation that was interrupted.
pub fn recovery_plan<R: CommandRunner>(
    runner: &R,
    main_worktree: &str,
    places: &Vec<(String, String)>,
    store: &Store,
    operation: &OperationRecord,
    claims: &Vec<ClaimObservation>,
) -> (result: (RecoveryPlan, Vec<String>))
    requires
        permits_observing(runner),
    ensures
        recovery_found(
            runner,
            main_worktree@,
            pairs(places@),
            operation@,
            journal_path(store.directory@, operation.operation_id),
            views(claims@),
            (result.0@, views(result.1@)),
        ),
{
    let journal = store.operation_path(operation.operation_id);
    if has_observation(claims, operation.claim_id) {
        return plan_recovery(operation, journal, true, false, false);
    }
    let worktree_there = registered_worktree(
        runner,
        main_worktree,
        places,
        operation.worktree.as_str(),
    );
    let branch_there = branch_exists(runner, main_worktree, operation.branch.as_str());
    assert(worktree_seen(
        runner,
        main_worktree@,
        pairs(places@),
        operation@.worktree,
        worktree_there,
    ));
    assert(branch_seen(runner, main_worktree@, operation@.branch, branch_there));
    plan_recovery(operation, journal, false, worktree_there, branch_there)
}

/// What is planned for an interrupted operation never deletes a branch that was there before the
/// operation.
pub proof fn adopted_branches_are_kept(
    operation: OperationView,
    journal: Seq<char>,
    claimed: bool,
    worktree_there: bool,
    branch_there: bool,
)
    requires
        operation.branch != generated_branch(operation.issue, operation.claim_id),
    ensures
        !recovery(
            operation,
            journal,
            claimed,
            worktree_there,
            branch_there,
        ).0.commands.contains(delete_branch_args(operation.branch)),
{
    reveal_strlit("worktree");
    reveal_strlit("branch");
    assert(remove_worktree_args(operation.worktree)[0].len() == 8);
    assert(delete_branch_args(operation.branch)[0].len() == 6);
}

/// What is planned is conservative: nothing is removed where the claim was made, and else at most
/// the registered worktree and the generated branch of the operation, neither of them by force.
pub proof fn recovery_is_conservative(
    operation: OperationView,
    journal: Seq<char>,
    claimed: bool,
    worktree_there: bool,
    branch_there: bool,
)
    ensures
        ({
            let commands = recovery(
                operation,
                journal,
                claimed,
                worktree_there,
                branch_there,
            ).0.commands;
            &&& claimed ==> commands.len() == 0
            &&& forall|i: int|
                0 <= i < commands.len() ==> {
                    ||| worktree_there && #[trigger] commands[i] == remove_worktree_args(
                        operation.worktree,
                    )
                    ||| branch_there && commands[i] == delete_branch_args(operation.branch)
                        && operation.branch == generated_branch(
                        operation.issue,
                        operation.claim_id,
                    )
                }
        }),
{
}

} // verus!
