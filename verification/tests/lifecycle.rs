use gh_envoy::base::{
    interpret_ancestry, interpret_head, require_ancestor, resolve_base, resolve_local_branch_tip,
    validate_local_branch,
};
use gh_envoy::claiming::{
    begin_claim, lay_groundwork, requested_path, ClaimSite, RegisteredWorktree, ResolvedPath,
    StartingPoint,
};
use gh_envoy::cli::{claim_exit, error_exit, render_claim, render_next, render_release};
use gh_envoy::command::{CommandOutput, CommandRunner, CommandSpec, RunnerError};
use gh_envoy::config::Config;
use gh_envoy::document::{claim_document, error_document, release_document};
use gh_envoy::exit::EnvoyExitCode;
use gh_envoy::git::{GitCli, RepositoryContext};
use gh_envoy::json::{find_member, Json};
use gh_envoy::lifecycle::{
    find_in_worktree, release_claim, reserve_active, resolve_wait_for, resume_claim,
    unique_active_claim, validate_relationship_arguments, ClaimOptions, ClaimOutcome,
    LifecycleError,
};
use gh_envoy::model::{
    Claim, OperationPhase, OperationRecord, ReleaseMarker, ReleaseReason, ReleaseReport,
    SCHEMA_VERSION,
};
use gh_envoy::porcelain::worktree_of_branch;
use gh_envoy::store::active_claims;
use gh_envoy::time::Timestamp;
use gh_envoy::transaction::{ClaimAction, ClaimEvent, ClaimTransaction};
use std::cell::RefCell;

const NEW_ID: u128 = 0x12345678_1111_4111_8111_111111111111;
const LOCAL: &str = "/srv/remote.git";
const ON_GITHUB: &str = "https://github.com/z-a-f/fixture.git";

fn repository(remote_url: &str) -> RepositoryContext {
    RepositoryContext {
        repository: "z-a-f/fixture".to_owned(),
        remote_name: "origin".to_owned(),
        remote_url: remote_url.to_owned(),
        current_worktree: "/work/main".to_owned(),
        current_branch: Some("main".to_owned()),
        main_worktree: "/work/main".to_owned(),
        common_dir: "/work/main/.git".to_owned(),
    }
}

/// A repository whose base is fetched and found.
fn with_remote() -> FakeRunner {
    FakeRunner::new(vec![
        ("git fetch origin main", success("")),
        (
            "git rev-parse --verify refs/remotes/origin/main^{commit}",
            success("abc123\n"),
        ),
    ])
}

fn site(active: Vec<Claim>) -> ClaimSite {
    ClaimSite {
        active,
        worktree: None,
        listed: Ok(vec![]),
        operation_id: 77,
        started_at: timestamp(),
    }
}

/// What is left of a claim that was gone through to its end.
struct Traces {
    result: Result<Claim, LifecycleError>,
    journal: Vec<OperationRecord>,
    phases: Vec<OperationPhase>,
    recorded: Vec<Claim>,
    directories: Vec<String>,
}

/// Goes through a claim. What is called by a name in `broken` fails.
fn carry_out(runner: &FakeRunner, transaction: ClaimTransaction, broken: &[&str]) -> Traces {
    let mut traces = Traces {
        result: Err(LifecycleError::InvalidState("unfinished".to_owned())),
        journal: vec![],
        phases: vec![],
        recorded: vec![],
        directories: vec![],
    };
    let mut action = transaction.start();
    let mut transaction = transaction;
    loop {
        let event = match action {
            ClaimAction::WriteJournal(operation) => {
                traces.phases.push(operation.phase);
                traces.journal.retain(|entry| entry.operation_id != operation.operation_id);
                traces.journal.push(operation);
                ClaimEvent::Done
            }
            ClaimAction::RemoveJournal(id) => {
                traces.journal.retain(|entry| entry.operation_id != id);
                ClaimEvent::Done
            }
            ClaimAction::RunGit(args) => match GitCli::new(runner).run("/work/main", args) {
                Ok(_) => ClaimEvent::Done,
                Err(error) => ClaimEvent::Failed(LifecycleError::Git(error)),
            },
            ClaimAction::CreateDirectory(path) => {
                traces.directories.push(path.clone());
                if broken.contains(&"directory") {
                    ClaimEvent::Failed(LifecycleError::Io {
                        action: "create worktree parent".to_owned(),
                        path,
                        message: "not a directory".to_owned(),
                    })
                } else {
                    ClaimEvent::Done
                }
            }
            ClaimAction::FindWorktree(branch) => {
                match worktree_of_branch(runner, "/work/main", branch.as_str()) {
                    Ok(place) => ClaimEvent::Found { place, at: timestamp() },
                    Err(error) => ClaimEvent::Failed(error),
                }
            }
            ClaimAction::RecordClaim(claim) => {
                if broken.contains(&"record") {
                    ClaimEvent::Failed(LifecycleError::Io {
                        action: "create claim directory".to_owned(),
                        path: "claims/77".to_owned(),
                        message: "blocks issue directory".to_owned(),
                    })
                } else {
                    traces.recorded.push(claim);
                    ClaimEvent::Done
                }
            }
            ClaimAction::Commit(claim) => {
                traces.result = Ok(claim);
                return traces;
            }
            ClaimAction::Fail(error) => {
                traces.result = Err(error);
                return traces;
            }
        };
        let next = transaction.step(event);
        transaction = next.0;
        action = next.1;
    }
}

/// Makes a claim from beginning to end.
fn claim_issue(
    runner: &FakeRunner,
    repository: &RepositoryContext,
    config: &Config,
    issue: u64,
    options: ClaimOptions,
    site: ClaimSite,
    broken: &[&str],
) -> Result<(Traces, Vec<String>), LifecycleError> {
    let ground = lay_groundwork(runner, repository, config, issue, options, NEW_ID)?;
    let begun = begin_claim(runner, repository, ground, site)?;
    Ok((carry_out(runner, begun.transaction, broken), begun.warnings))
}

fn placed(runner: &mut FakeRunner, branch: &str, worktree: &str, create: bool) {
    if create {
        runner
            .answers
            .push((format!("git branch {branch} abc123"), success("")));
    }
    runner.answers.push((
        format!("git worktree add -- {worktree} {branch}"),
        success(""),
    ));
    runner.answers.push((
        "git worktree list --porcelain".to_owned(),
        success(&format!(
            "worktree /work/main\nHEAD abc\nbranch refs/heads/main\n\nworktree {worktree}\nHEAD abc\nbranch refs/heads/{branch}\n\n"
        )),
    ));
}

fn issue_answer(runner: &mut FakeRunner, issue: u64, output: CommandOutput) {
    runner.answers.push((
        format!("gh issue view {issue} --repo z-a-f/fixture --json state,title"),
        output,
    ));
}

#[test]
fn fresh_claim_and_marker_only_release_work_end_to_end() {
    let mut runner = with_remote();
    placed(
        &mut runner,
        "envoy/issue-123-12345678",
        "/work/fixture-issue-123-12345678",
        true,
    );
    let (traces, warnings) = claim_issue(
        &runner,
        &repository(LOCAL),
        &Config::default(),
        123,
        ClaimOptions::default(),
        site(vec![]),
        &[],
    )
    .expect("claim");
    let claim = traces.result.expect("claimed");
    assert_eq!(claim.base_sha, "abc123");
    assert_eq!(claim.title, None);
    assert_eq!(claim.claim_id, NEW_ID);
    assert_eq!(claim.branch, "envoy/issue-123-12345678");
    assert_eq!(claim.worktree, "/work/fixture-issue-123-12345678");
    assert!(traces.journal.is_empty());
    assert_eq!(
        traces.phases,
        [
            OperationPhase::Reserved,
            OperationPhase::BranchCreated,
            OperationPhase::WorktreeCreated,
            OperationPhase::ClaimCommitted,
        ]
    );
    assert_eq!(traces.directories, ["/work"]);
    assert_eq!(traces.recorded.len(), 1);
    let outcome = ClaimOutcome { claim, warnings };
    assert!(matches!(claim_exit(&outcome), EnvoyExitCode::Success));
    let document = claim_document(&outcome);
    assert_eq!(text_of(member(&document, "status")), "success");

    let (marker, report) = release_claim(
        &traces.recorded,
        &vec![],
        123,
        ReleaseReason::Merged,
        timestamp(),
    )
    .expect("release");
    assert_eq!(
        report,
        ReleaseReport {
            issue: 123,
            claim_id: NEW_ID,
            already_released: false,
            worktree_deleted: false,
            branch_deleted: false,
            cleanup_pending: false,
        }
    );
    let releases = vec![marker.expect("marker")];
    let (again, repeated) = release_claim(
        &traces.recorded,
        &releases,
        123,
        ReleaseReason::Merged,
        timestamp(),
    )
    .expect("release again");
    assert!(again.is_none());
    assert!(repeated.already_released);
}

#[test]
fn offline_local_base_fallback_is_explicit_and_successful() {
    let mut runner = FakeRunner::new(vec![(
        "git rev-parse --verify refs/heads/main^{commit}",
        success("abc123\n"),
    )]);
    placed(
        &mut runner,
        "envoy/issue-7-12345678",
        "/work/fixture-issue-7-12345678",
        true,
    );
    let (traces, warnings) = claim_issue(
        &runner,
        &repository(LOCAL),
        &Config::default(),
        7,
        ClaimOptions::default(),
        site(vec![]),
        &[],
    )
    .expect("claim");
    let outcome = ClaimOutcome { claim: traces.result.expect("claimed"), warnings };
    assert_eq!(outcome.claim.base_sha, "abc123");
    assert_eq!(
        outcome.warnings,
        ["base origin/main is unverified; using local branch main at abc123"]
    );
    assert_eq!(text_of(member(&claim_document(&outcome), "status")), "warning");
    assert!(matches!(claim_exit(&outcome), EnvoyExitCode::Warning));
}

#[test]
fn failed_fetch_uses_existing_remote_tracking_sha_with_a_warning() {
    let mut runner = with_remote();
    runner.answers.remove(0);
    let base = resolve_base(&runner, "/work/main", &Config::default()).expect("base");
    assert_eq!(base.sha, "abc123");
    assert_eq!(
        base.warnings,
        ["could not refresh origin/main; using the existing remote-tracking branch"]
    );
}

#[test]
fn configured_base_and_worktree_root_override_defaults() {
    let mut config = Config::default();
    config.default_base_ref = Some("trunk".to_owned());
    config.worktree_root = Some("/elsewhere/configured-worktrees".to_owned());
    let runner = FakeRunner::new(vec![
        ("git fetch origin trunk", success("")),
        (
            "git rev-parse --verify refs/remotes/origin/trunk^{commit}",
            success("abc123\n"),
        ),
    ]);
    let ground = lay_groundwork(
        &runner,
        &repository(LOCAL),
        &config,
        9,
        ClaimOptions::default(),
        NEW_ID,
    )
    .expect("groundwork");
    match &ground.start {
        StartingPoint::Resolved(base) => assert_eq!(base.reference, "trunk"),
        other => panic!("{other:?}"),
    }
    assert_eq!(
        ground.worktree,
        "/elsewhere/configured-worktrees/fixture-issue-9-12345678"
    );
}

#[test]
fn the_head_of_the_remote_is_the_base_where_none_is_configured() {
    let runner = FakeRunner::new(vec![
        (
            "git symbolic-ref --quiet --short refs/remotes/origin/HEAD",
            success("origin/develop\n"),
        ),
        ("git fetch origin develop", success("")),
        (
            "git rev-parse --verify refs/remotes/origin/develop^{commit}",
            success("abc123\n"),
        ),
    ]);
    let base = resolve_base(&runner, "/work/main", &Config::default()).expect("base");
    assert_eq!(base.reference, "develop");
    assert!(base.warnings.is_empty());
    assert_eq!(interpret_head("origin", Ok(success("other/develop\n"))), None);
}

#[test]
fn missing_configured_base_fails_before_creating_git_state() {
    let mut config = Config::default();
    config.default_base_ref = Some("missing".to_owned());
    let runner = FakeRunner::new(vec![]);
    let error = lay_groundwork(
        &runner,
        &repository(LOCAL),
        &config,
        10,
        ClaimOptions::default(),
        NEW_ID,
    )
    .expect_err("missing base");
    assert_eq!(
        error.message(),
        "could not resolve base origin/missing from a remote-tracking or local branch"
    );
    assert!(!error.is_refusal());
    assert!(matches!(error_exit(error.is_refusal()), EnvoyExitCode::OperationalError));
    assert!(!runner.calls().iter().any(|call| call.starts_with("git branch")));
}

#[test]
fn an_empty_base_makes_no_sense() {
    let runner = FakeRunner::new(vec![
        ("git fetch origin main", success("")),
        (
            "git rev-parse --verify refs/remotes/origin/main^{commit}",
            success("\n"),
        ),
    ]);
    let error = resolve_base(&runner, "/work/main", &Config::default()).expect_err("empty");
    assert_eq!(
        error.message(),
        "invalid lifecycle state: git resolved an empty base SHA"
    );
}

#[test]
fn human_output_reports_claim_warning_and_release_result() {
    let claim = claim(11, NEW_ID);
    let rendered = render_claim(&claim);
    assert!(rendered.contains("Claimed issue #11"));
    assert!(render_next(&claim, false)
        .contains("Next: change directory to the claimed worktree above"));
    let mut report = ReleaseReport {
        issue: 11,
        claim_id: NEW_ID,
        already_released: false,
        worktree_deleted: false,
        branch_deleted: false,
        cleanup_pending: false,
    };
    assert!(render_release(&report).contains("Released issue #11"));
    report.already_released = true;
    assert!(render_release(&report).contains("already released"));
}

#[test]
fn claim_resume_refuses_absent_or_stale_active_claims_without_mutation() {
    let absent = resume_claim(&vec![], 15, &None, &None).expect_err("absent");
    assert!(absent.is_refusal());
    assert!(absent.message().contains("no active claim to resume"));

    let stale = resume_claim(&vec![claim(16, 1)], 16, &None, &None).expect_err("stale");
    assert!(stale.is_refusal());
    assert!(stale.message().contains("not resumable"));
    assert!(stale.message().ends_with("worktree /work/tree-16 does not exist"));

    let place = Some("/work/tree-17".to_owned());
    let elsewhere = Some("/work/other".to_owned());
    let mismatch =
        resume_claim(&vec![claim(17, 1)], 17, &place, &elsewhere).expect_err("mismatch");
    assert!(mismatch.is_refusal());
    assert!(mismatch.message().contains("is registered at /work/other, not at /work/tree-17"));

    let unregistered =
        resume_claim(&vec![claim(22, 1)], 22, &place, &None).expect_err("unregistered");
    assert!(unregistered.message().contains("not resumable"));

    let found = resume_claim(&vec![claim(17, 1)], 17, &place, &place).expect("resumable");
    assert_eq!(found.claim_id, 1);
    let twice = resume_claim(&vec![claim(17, 1), claim(17, 2)], 17, &place, &place);
    assert!(matches!(twice, Err(LifecycleError::InvalidState(_))));
}

#[test]
fn github_issue_state_blocks_closed_claims_unless_forced() {
    let repository = repository("git@github.com:z-a-f/fixture.git");
    let mut runner = with_remote();
    issue_answer(&mut runner, 18, success(r#"{"state":"CLOSED","title":"Finished"}"#));
    let error = lay_groundwork(
        &runner,
        &repository,
        &Config::default(),
        18,
        ClaimOptions::default(),
        NEW_ID,
    )
    .expect_err("closed issue is refused");
    assert!(error.is_refusal());
    assert!(error.message().contains("issue 18 is closed"));
    assert_eq!(
        runner.calls(),
        ["gh issue view 18 --repo z-a-f/fixture --json state,title"]
    );

    let mut forced = ClaimOptions::default();
    forced.force = true;
    placed(
        &mut runner,
        "envoy/issue-18-12345678",
        "/work/fixture-issue-18-12345678",
        true,
    );
    let (traces, warnings) = claim_issue(
        &runner,
        &repository,
        &Config::default(),
        18,
        forced,
        site(vec![]),
        &[],
    )
    .expect("forced closed claim succeeds");
    assert_eq!(traces.result.expect("claimed").title.as_deref(), Some("Finished"));
    assert!(warnings.iter().any(|warning| warning.contains("--force")));
}

#[test]
fn github_open_and_unavailable_issue_observation_remain_claimable() {
    let mut runner = with_remote();
    issue_answer(&mut runner, 19, success(r#"{"state":"OPEN","title":"Ready"}"#));
    let open = lay_groundwork(
        &runner,
        &repository(ON_GITHUB),
        &Config::default(),
        19,
        ClaimOptions::default(),
        NEW_ID,
    )
    .expect("open issue succeeds");
    assert_eq!(open.title.as_deref(), Some("Ready"));
    assert!(open.warnings.is_empty());

    let mut runner = with_remote();
    issue_answer(&mut runner, 20, failure(1, "offline"));
    let offline = lay_groundwork(
        &runner,
        &repository(ON_GITHUB),
        &Config::default(),
        20,
        ClaimOptions::default(),
        NEW_ID,
    )
    .expect("unavailable GitHub remains claimable");
    assert_eq!(offline.title, None);
    assert!(offline
        .warnings
        .iter()
        .any(|warning| warning.contains("could not be verified")));

    let mut runner = with_remote();
    issue_answer(&mut runner, 21, success(r#"{"state":"LOCKED","title":"Unexpected"}"#));
    let unexpected = lay_groundwork(
        &runner,
        &repository(ON_GITHUB),
        &Config::default(),
        21,
        ClaimOptions::default(),
        NEW_ID,
    )
    .expect_err("unknown issue state is rejected");
    assert!(unexpected.message().contains("unknown state \"LOCKED\""));

    let mut runner = with_remote();
    issue_answer(&mut runner, 23, success("not JSON"));
    let malformed = lay_groundwork(
        &runner,
        &repository(ON_GITHUB),
        &Config::default(),
        23,
        ClaimOptions::default(),
        NEW_ID,
    )
    .expect_err("malformed successful GitHub response is rejected");
    assert!(malformed.message().contains("invalid JSON"));
}

#[test]
fn an_issue_that_github_does_not_have_is_refused() {
    let mut runner = with_remote();
    issue_answer(
        &mut runner,
        24,
        failure(1, "could not resolve to an issue with the number of 24"),
    );
    let error = lay_groundwork(
        &runner,
        &repository(ON_GITHUB),
        &Config::default(),
        24,
        ClaimOptions::default(),
        NEW_ID,
    )
    .expect_err("missing");
    assert_eq!(
        error.message(),
        "claim refused: issue 24 does not exist on GitHub or is not reachable in this repository"
    );
}

#[test]
fn reachable_missing_wait_for_issue_is_refused_before_local_mutation() {
    let mut runner = with_remote();
    issue_answer(&mut runner, 113, success(r#"{"state":"OPEN","title":"Ready"}"#));
    issue_answer(
        &mut runner,
        115,
        failure(1, "could not resolve to an issue with the number of 115"),
    );
    let mut options = ClaimOptions::default();
    options.after = vec![115];
    let error = lay_groundwork(
        &runner,
        &repository(ON_GITHUB),
        &Config::default(),
        113,
        options,
        NEW_ID,
    )
    .expect_err("missing wait_for issue is refused");
    assert!(error.message().contains("wait_for GitHub issue 115"));
    assert!(runner.calls().iter().all(|call| call.starts_with("gh ")));
}

#[test]
fn concurrent_claims_produce_one_winner_without_git_leaks() {
    let mut runner = with_remote();
    placed(
        &mut runner,
        "envoy/issue-55-12345678",
        "/work/fixture-issue-55-12345678",
        true,
    );
    let (winner, _) = claim_issue(
        &runner,
        &repository(LOCAL),
        &Config::default(),
        55,
        ClaimOptions::default(),
        site(vec![]),
        &[],
    )
    .expect("winner");
    assert!(winner.result.is_ok());
    let calls = runner.calls().len();
    match claim_issue(
        &runner,
        &repository(LOCAL),
        &Config::default(),
        55,
        ClaimOptions::default(),
        site(winner.recorded),
        &[],
    ) {
        Err(LifecycleError::AlreadyClaimed { issue, claim_id }) => {
            assert_eq!(issue, 55);
            assert_eq!(claim_id, NEW_ID);
        }
        Err(other) => panic!("{other:?}"),
        Ok(_) => panic!("two winners"),
    }
    assert!(runner.calls()[calls..]
        .iter()
        .all(|call| !call.starts_with("git branch") && !call.starts_with("git worktree add")));
}

#[test]
fn failure_after_branch_creation_rolls_back_branch_and_operation() {
    let mut runner = with_remote();
    placed(
        &mut runner,
        "envoy/issue-76-12345678",
        "/work/fixture-issue-76-12345678",
        true,
    );
    runner
        .answers
        .push(("git branch -D envoy/issue-76-12345678".to_owned(), success("")));
    let (traces, _) = claim_issue(
        &runner,
        &repository(LOCAL),
        &Config::default(),
        76,
        ClaimOptions::default(),
        site(vec![]),
        &["directory"],
    )
    .expect("begun");
    let error = traces.result.expect_err("no directory");
    assert!(!error.is_refusal());
    assert_eq!(
        error.message(),
        "failed to create worktree parent at /work: not a directory"
    );
    assert!(traces.journal.is_empty());
    assert!(traces.recorded.is_empty());
    let calls = runner.calls();
    assert_eq!(calls.last().unwrap(), "git branch -D envoy/issue-76-12345678");
    assert!(!calls.iter().any(|call| call.starts_with("git worktree add")));
}

#[test]
fn failure_after_worktree_creation_rolls_back_worktree_branch_and_operation() {
    let mut runner = with_remote();
    placed(
        &mut runner,
        "envoy/issue-77-12345678",
        "/work/fixture-issue-77-12345678",
        true,
    );
    runner.answers.push((
        "git worktree remove --force /work/fixture-issue-77-12345678".to_owned(),
        success(""),
    ));
    runner
        .answers
        .push(("git branch -D envoy/issue-77-12345678".to_owned(), success("")));
    let (traces, _) = claim_issue(
        &runner,
        &repository(LOCAL),
        &Config::default(),
        77,
        ClaimOptions::default(),
        site(vec![]),
        &["record"],
    )
    .expect("begun");
    assert!(traces.result.is_err());
    assert!(traces.journal.is_empty());
    assert!(traces.recorded.is_empty());
    assert_eq!(
        runner.calls()[runner.calls().len() - 2..],
        [
            "git worktree remove --force /work/fixture-issue-77-12345678",
            "git branch -D envoy/issue-77-12345678",
        ]
    );
}

#[test]
fn a_branch_that_cannot_be_made_leaves_nothing_behind() {
    let runner = with_remote();
    let (traces, _) = claim_issue(
        &runner,
        &repository(LOCAL),
        &Config::default(),
        78,
        ClaimOptions::default(),
        site(vec![]),
        &[],
    )
    .expect("begun");
    assert!(matches!(traces.result, Err(LifecycleError::Git(_))));
    assert!(traces.journal.is_empty());
    assert!(!runner.calls().iter().any(|call| call.starts_with("git branch -D")));
}

#[test]
fn marker_only_release_is_idempotent_and_reclaim_creates_a_new_generation() {
    let claims = vec![claim(88, 1)];
    let (marker, released) =
        release_claim(&claims, &vec![], 88, ReleaseReason::Merged, timestamp()).expect("release");
    assert_eq!(released.claim_id, 1);
    assert!(!released.already_released);
    assert!(!released.worktree_deleted);
    assert!(!released.branch_deleted);
    let marker = marker.expect("marker");
    assert_eq!(marker.reason, ReleaseReason::Merged);
    let document = release_document(&released);
    let release = member(&document, "release");
    assert!(matches!(member(release, "already_released"), Json::Bool(false)));

    let releases = vec![marker];
    let (again, repeated) =
        release_claim(&claims, &releases, 88, ReleaseReason::Abandoned, timestamp())
            .expect("release again");
    assert!(again.is_none());
    assert!(repeated.already_released);
    assert_eq!(repeated.claim_id, 1);

    let active = active_claims(&claims, &releases);
    assert!(active.is_empty());
    let mut runner = with_remote();
    placed(
        &mut runner,
        "envoy/issue-88-12345678",
        "/work/fixture-issue-88-12345678",
        true,
    );
    let (traces, _) = claim_issue(
        &runner,
        &repository(LOCAL),
        &Config::default(),
        88,
        ClaimOptions::default(),
        site(active),
        &[],
    )
    .expect("reclaim");
    assert_ne!(traces.result.expect("reclaimed").claim_id, 1);
}

#[test]
fn release_without_any_claim_is_refused_without_creating_a_marker() {
    let error = release_claim(&vec![], &vec![], 99, ReleaseReason::Merged, timestamp())
        .expect_err("no claim");
    assert!(matches!(error, LifecycleError::NoClaim(99)));
    assert!(error.is_refusal());
    assert_eq!(error.message(), "issue 99 has no claim to release");
    assert!(matches!(error_exit(error.is_refusal()), EnvoyExitCode::Blocked));
    let document = error_document("release", "refused", error.message().as_str(), true);
    assert_eq!(text_of(member(&document, "status")), "blocked");
}

#[test]
fn two_active_generations_are_not_released() {
    let claims = vec![claim(5, 1), claim(5, 2)];
    let error = release_claim(&claims, &vec![], 5, ReleaseReason::Merged, timestamp())
        .expect_err("two active");
    assert_eq!(
        error.message(),
        "invalid lifecycle state: issue 5 has multiple active claim generations"
    );
}

#[test]
fn killed_claim_process_preserves_branch_and_worktree_phase_journals() {
    let mut runner = with_remote();
    placed(
        &mut runner,
        "envoy/issue-101-12345678",
        "/work/fixture-issue-101-12345678",
        true,
    );
    for (checkpoint, expected) in [
        ("worktree add", OperationPhase::BranchCreated),
        ("worktree list", OperationPhase::WorktreeCreated),
    ] {
        let ground = lay_groundwork(
            &runner,
            &repository(LOCAL),
            &Config::default(),
            101,
            ClaimOptions::default(),
            NEW_ID,
        )
        .expect("groundwork");
        let begun = begin_claim(&runner, &repository(LOCAL), ground, site(vec![])).expect("begun");
        let mut action = begun.transaction.start();
        let mut transaction = begun.transaction;
        let mut written = None;
        loop {
            match action {
                ClaimAction::WriteJournal(operation) => written = Some(operation.phase),
                ClaimAction::RunGit(args) if args.join(" ").starts_with(checkpoint) => break,
                ClaimAction::FindWorktree(_) if checkpoint == "worktree list" => break,
                _ => {}
            }
            let next = transaction.step(ClaimEvent::Done);
            transaction = next.0;
            action = next.1;
        }
        assert_eq!(written, Some(expected));
        drop(transaction);
    }
}

#[test]
fn a_claim_stays_the_same_where_its_worktree_is_found_elsewhere() {
    let ground = lay_groundwork(
        &with_remote(),
        &repository(LOCAL),
        &Config::default(),
        103,
        ClaimOptions::default(),
        NEW_ID,
    )
    .expect("groundwork");
    let begun = begin_claim(&with_remote(), &repository(LOCAL), ground, site(vec![])).expect("begun");
    let reserved = begun.transaction.claim.clone();
    let mut action = begun.transaction.start();
    let mut transaction = begun.transaction;
    let mut recorded = vec![];
    let made = loop {
        let event = match action {
            ClaimAction::FindWorktree(_) => ClaimEvent::Found {
                place: "/private/work/elsewhere".to_owned(),
                at: timestamp(),
            },
            ClaimAction::RecordClaim(claim) => {
                recorded.push(claim);
                ClaimEvent::Done
            }
            ClaimAction::Commit(claim) => break claim,
            ClaimAction::Fail(error) => panic!("{error:?}"),
            _ => ClaimEvent::Done,
        };
        let next = transaction.step(event);
        transaction = next.0;
        action = next.1;
    };
    assert_eq!(made.worktree, "/private/work/elsewhere");
    assert_eq!(made.issue, reserved.issue);
    assert_eq!(made.branch, reserved.branch);
    assert_eq!(made.claim_id, reserved.claim_id);
    assert_eq!(recorded.len(), 1);
    assert_eq!(recorded[0].worktree, made.worktree);
}

#[test]
fn failed_rollback_keeps_cleanup_pending_operation_for_repair() {
    let mut runner = with_remote();
    placed(
        &mut runner,
        "envoy/issue-102-12345678",
        "/work/fixture-issue-102-12345678",
        true,
    );
    runner.answers.pop();
    runner.answers.push((
        "git worktree list --porcelain".to_owned(),
        failure(1, "injected lifecycle failure\n"),
    ));
    runner.answers.push((
        "git worktree remove --force /work/fixture-issue-102-12345678".to_owned(),
        failure(1, "injected lifecycle failure\n"),
    ));
    let (traces, _) = claim_issue(
        &runner,
        &repository(LOCAL),
        &Config::default(),
        102,
        ClaimOptions::default(),
        site(vec![]),
        &[],
    )
    .expect("begun");
    let error = traces.result.expect_err("injected");
    assert!(error.message().contains("rollback is incomplete"), "{error:?}");
    assert_eq!(traces.journal.len(), 1);
    assert_eq!(traces.journal[0].phase, OperationPhase::CleanupPending);
}

#[test]
fn rollback_removes_created_worktree_but_preserves_adopted_branch() {
    let mut runner = with_remote();
    runner
        .answers
        .push(("git check-ref-format --branch adopted".to_owned(), success("adopted\n")));
    runner.answers.push((
        "git rev-parse --verify refs/heads/adopted^{commit}".to_owned(),
        success("def456\n"),
    ));
    runner.answers.push((
        "git merge-base --is-ancestor abc123 def456".to_owned(),
        success(""),
    ));
    placed(&mut runner, "adopted", "/work/fixture-issue-103-12345678", false);
    runner.answers.pop();
    runner.answers.push((
        "git worktree list --porcelain".to_owned(),
        failure(1, "injected canonicalization failure\n"),
    ));
    runner.answers.push((
        "git worktree remove --force /work/fixture-issue-103-12345678".to_owned(),
        success(""),
    ));
    let mut options = ClaimOptions::default();
    options.branch = Some("adopted".to_owned());
    let (traces, _) = claim_issue(
        &runner,
        &repository(LOCAL),
        &Config::default(),
        103,
        options,
        site(vec![]),
        &[],
    )
    .expect("begun");
    let error = traces.result.expect_err("injected");
    assert!(error.message().contains("worktree list"), "{error:?}");
    assert!(traces.journal.is_empty());
    let calls = runner.calls();
    assert!(calls
        .iter()
        .any(|call| call == "git worktree remove --force /work/fixture-issue-103-12345678"));
    assert!(!calls.iter().any(|call| call.starts_with("git branch ")));
}

fn adopting() -> FakeRunner {
    let mut runner = with_remote();
    for (line, output) in [
        ("git check-ref-format --branch mine", success("mine\n")),
        ("git rev-parse --verify refs/heads/mine^{commit}", success("def456\n")),
        ("git merge-base --is-ancestor abc123 def456", success("")),
        (
            "git worktree list --porcelain",
            success("worktree /work/mine\nHEAD abc\nbranch refs/heads/mine\n\n"),
        ),
    ] {
        runner.answers.push((line.to_owned(), output));
    }
    runner
}

fn at(path: &str) -> ResolvedPath {
    ResolvedPath { path: path.to_owned(), place: Ok(path.to_owned()) }
}

fn adopting_site(registered: Vec<(&str, Option<&str>)>, worktree: Option<ResolvedPath>) -> ClaimSite {
    let mut site = site(vec![]);
    site.worktree = worktree;
    site.listed = Ok(registered
        .into_iter()
        .map(|(path, branch)| RegisteredWorktree {
            at: at(path),
            branch: branch.map(str::to_owned),
        })
        .collect());
    site
}

fn adopt(
    runner: &FakeRunner,
    branch: Option<&str>,
    worktree: Option<&str>,
    site: ClaimSite,
) -> Result<(Traces, Vec<String>), LifecycleError> {
    let mut options = ClaimOptions::default();
    options.branch = branch.map(str::to_owned);
    options.worktree = worktree.map(str::to_owned);
    claim_issue(runner, &repository(LOCAL), &Config::default(), 30, options, site, &[])
}

fn refusal(result: Result<(Traces, Vec<String>), LifecycleError>) -> String {
    match result {
        Err(error) => {
            assert!(error.is_refusal(), "{error:?}");
            error.message()
        }
        Ok(_) => panic!("not refused"),
    }
}

#[test]
fn a_worktree_is_adopted_with_its_branch() {
    let runner = adopting();
    let (traces, _) = adopt(
        &runner,
        None,
        Some("/work/mine"),
        adopting_site(vec![("/work/mine", Some("mine"))], Some(at("/work/mine"))),
    )
    .expect("adopted");
    let claim = traces.result.expect("claimed");
    assert_eq!(claim.branch, "mine");
    assert_eq!(claim.worktree, "/work/mine");
    assert_eq!(
        traces.phases,
        [OperationPhase::Reserved, OperationPhase::ClaimCommitted]
    );
    assert!(!runner
        .calls()
        .iter()
        .any(|call| call.starts_with("git branch") || call.contains("worktree add")));
}

#[test]
fn a_branch_that_is_checked_out_brings_its_worktree() {
    let (traces, _) = adopt(
        &adopting(),
        Some("mine"),
        None,
        adopting_site(vec![("/work/mine", Some("mine"))], None),
    )
    .expect("adopted");
    assert_eq!(traces.result.expect("claimed").worktree, "/work/mine");
}

#[test]
fn what_cannot_be_adopted_is_refused() {
    let mine = || Some(at("/work/mine"));
    assert!(refusal(adopt(&adopting(), None, Some("/work/mine"), adopting_site(vec![], mine())))
        .contains("is not registered with Git"));
    assert!(refusal(adopt(
        &adopting(),
        None,
        Some("/work/mine"),
        adopting_site(vec![("/work/mine", None)], mine()),
    ))
    .contains("is detached and cannot be adopted"));
    assert!(refusal(adopt(
        &adopting(),
        Some("mine"),
        Some("/work/mine"),
        adopting_site(vec![("/work/mine", Some("other"))], mine()),
    ))
    .contains("is not attached to branch \"mine\""));
    assert!(refusal(adopt(
        &with_remote(),
        Some("mine"),
        None,
        adopting_site(vec![], None),
    ))
    .contains("branch \"mine\" is not a valid local branch name"));
    let nowhere = ResolvedPath {
        path: "/work/mine".to_owned(),
        place: Err("no such directory".to_owned()),
    };
    assert!(refusal(adopt(
        &adopting(),
        None,
        Some("/work/mine"),
        adopting_site(vec![], Some(nowhere)),
    ))
    .contains("failed to canonicalize \"/work/mine\": no such directory"));
}

#[test]
fn an_adopted_branch_must_contain_the_base() {
    let runner = adopting();
    let ancestry = |code| {
        let mut output = success("");
        output.exit_code = Some(code);
        interpret_ancestry("abc123", "mine", Ok(output))
    };
    assert!(ancestry(0).is_ok());
    assert_eq!(
        ancestry(1).expect_err("not contained").message(),
        "claim refused: branch \"mine\" does not contain captured base abc123"
    );
    assert!(matches!(ancestry(128), Err(LifecycleError::InvalidState(_))));
    assert!(require_ancestor(&runner, "/work/main", "abc123", "mine").is_ok());
    assert!(validate_local_branch(&runner, "/work/main", "mine").is_ok());
    assert_eq!(
        resolve_local_branch_tip(&runner, "/work/main", "mine").expect("tip"),
        "def456"
    );
    assert!(resolve_local_branch_tip(&runner, "/work/main", "gone")
        .expect_err("gone")
        .is_refusal());
}

#[test]
fn a_stacked_claim_starts_at_the_tip_of_its_parent() {
    let mut runner = with_remote();
    runner.answers.push((
        "git rev-parse --verify refs/heads/branch-1^{commit}".to_owned(),
        success("abc123\n"),
    ));
    placed(
        &mut runner,
        "envoy/issue-2-12345678",
        "/work/fixture-issue-2-12345678",
        true,
    );
    let mut options = ClaimOptions::default();
    options.onto = Some(1);
    options.after = vec![3];
    options.allowed_paths = vec!["src/**".to_owned()];
    options.note = Some("a note".to_owned());
    let (traces, _) = claim_issue(
        &runner,
        &repository(LOCAL),
        &Config::default(),
        2,
        options,
        site(vec![claim(1, 41), claim(3, 43)]),
        &[],
    )
    .expect("stacked");
    let claim = traces.result.expect("claimed");
    assert_eq!(claim.base_issue, Some(1));
    assert_eq!(claim.base_claim_id, Some(41));
    assert_eq!(claim.base_ref, "branch-1");
    assert_eq!(claim.base_sha, "abc123");
    assert_eq!(claim.wait_for[0].issue, 3);
    assert_eq!(claim.wait_for[0].claim_id, Some(43));
    assert_eq!(claim.declared_scope.unwrap().allowed_paths, ["src/**"]);
    assert_eq!(claim.note.as_deref(), Some("a note"));
}

#[test]
fn a_stacked_claim_needs_an_active_parent() {
    let mut options = ClaimOptions::default();
    options.onto = Some(1);
    let error = claim_issue(
        &with_remote(),
        &repository(LOCAL),
        &Config::default(),
        2,
        options,
        site(vec![]),
        &[],
    );
    assert!(refusal(error).contains("issue 1"));
}

#[test]
fn relationships_are_checked_before_anything_else() {
    let with = |onto, after| {
        let mut options = ClaimOptions::default();
        options.onto = onto;
        options.after = after;
        validate_relationship_arguments(2, &options)
    };
    assert!(with(Some(1), vec![3]).is_ok());
    for (onto, after, reason) in [
        (Some(2), vec![], "issue 2 cannot depend on itself"),
        (None, vec![2], "issue 2 cannot depend on itself"),
        (None, vec![3, 3], "issue 3 is repeated in --after"),
        (Some(3), vec![3], "issue 3 cannot be used by both --onto and --after"),
    ] {
        let error = with(onto, after).expect_err(reason);
        assert!(error.is_refusal());
        assert!(error.message().ends_with(reason), "{error:?}");
    }
}

#[test]
fn branches_and_worktrees_belong_to_one_active_claim() {
    let active = vec![claim(1, 1)];
    assert!(reserve_active(&active, 2, "branch-2", "/work/tree-2").is_ok());
    assert!(matches!(
        reserve_active(&active, 1, "branch-2", "/work/tree-2"),
        Err(LifecycleError::AlreadyClaimed { issue: 1, claim_id: 1 })
    ));
    assert_eq!(
        reserve_active(&active, 2, "branch-1", "/work/tree-2")
            .expect_err("branch taken")
            .message(),
        "claim reservation refused: branch \"branch-1\" is already owned by issue 1"
    );
    assert_eq!(
        reserve_active(&active, 2, "branch-2", "/work/tree-1")
            .expect_err("worktree taken")
            .message(),
        "claim reservation refused: worktree \"/work/tree-1\" is already owned by issue 1"
    );
    assert_eq!(find_in_worktree(&active, "/work/tree-1").unwrap().claim_id, 1);
    assert!(find_in_worktree(&active, "/work/tree-2").is_none());
}

#[test]
fn dependencies_name_the_active_generation() {
    let active = vec![claim(1, 11)];
    let refs = resolve_wait_for(&active, &vec![1, 2]).expect("resolved");
    assert_eq!(refs[0].claim_id, Some(11));
    assert_eq!(refs[1].claim_id, None);
    assert_eq!(unique_active_claim(&active, 1).expect("unique").unwrap().claim_id, 11);
    assert!(unique_active_claim(&active, 2).expect("none").is_none());
    assert!(unique_active_claim(&vec![claim(1, 1), claim(1, 2)], 1).is_err());
}

#[test]
fn requested_worktrees_are_taken_from_where_one_stands() {
    let repository = repository(LOCAL);
    assert_eq!(requested_path(&repository, "/elsewhere"), "/elsewhere");
    assert_eq!(requested_path(&repository, "sub/tree"), "/work/main/sub/tree");
}

#[test]
fn a_worktree_that_moved_is_no_longer_adopted() {
    let mut runner = adopting();
    runner.answers.retain(|(line, _)| line != "git worktree list --porcelain");
    runner.answers.push((
        "git worktree list --porcelain".to_owned(),
        success("worktree /work/moved\nHEAD abc\nbranch refs/heads/mine\n\n"),
    ));
    let (traces, _) = adopt(
        &runner,
        Some("mine"),
        Some("/work/mine"),
        adopting_site(vec![("/work/mine", Some("mine"))], Some(at("/work/mine"))),
    )
    .expect("begun");
    let error = traces.result.expect_err("moved");
    assert!(error
        .message()
        .contains("is no longer attached to requested worktree \"/work/mine\""));
    assert!(traces.journal.is_empty());
    assert!(traces.recorded.is_empty());
}

#[test]
fn released_generations_do_not_stand_in_the_way() {
    let claims = vec![claim(1, 1), claim(1, 2)];
    let releases = vec![ReleaseMarker {
        schema_version: SCHEMA_VERSION.to_owned(),
        repo: "o/r".to_owned(),
        issue: 1,
        claim_id: 1,
        reason: ReleaseReason::Abandoned,
        released_at: timestamp(),
    }];
    let active = active_claims(&claims, &releases);
    assert_eq!(active.iter().map(|claim| claim.claim_id).collect::<Vec<_>>(), [2]);
    let (marker, report) =
        release_claim(&claims, &releases, 1, ReleaseReason::Manual, timestamp()).expect("release");
    assert_eq!(report.claim_id, 2);
    assert_eq!(marker.unwrap().reason, ReleaseReason::Manual);
}

fn member<'a>(json: &'a Json, name: &str) -> &'a Json {
    match json {
        Json::Object(members) => find_member(members, name).expect("member"),
        other => panic!("no object: {other:?}"),
    }
}

fn text_of(json: &Json) -> &str {
    match json {
        Json::Text(text) => text,
        other => panic!("no text: {other:?}"),
    }
}

/// Answers commands by what their arguments are.
struct FakeRunner {
    answers: Vec<(String, CommandOutput)>,
    calls: RefCell<Vec<String>>,
}

impl FakeRunner {
    fn new(answers: Vec<(&str, CommandOutput)>) -> Self {
        Self {
            answers: answers
                .into_iter()
                .map(|(line, output)| (line.to_owned(), output))
                .collect(),
            calls: RefCell::new(Vec::new()),
        }
    }

    fn calls(&self) -> Vec<String> {
        self.calls.borrow().clone()
    }
}

impl CommandRunner for FakeRunner {
    fn run(&self, spec: &CommandSpec) -> Result<CommandOutput, RunnerError> {
        let line = format!("{} {}", spec.program, spec.args.join(" "));
        self.calls.borrow_mut().push(line.clone());
        for (wanted, output) in &self.answers {
            if line == *wanted {
                return Ok(CommandOutput {
                    exit_code: output.exit_code,
                    stdout: output.stdout.clone(),
                    stderr: output.stderr.clone(),
                });
            }
        }
        Ok(failure(1, ""))
    }
}

fn success(stdout: &str) -> CommandOutput {
    CommandOutput {
        exit_code: Some(0),
        stdout: stdout.as_bytes().to_vec(),
        stderr: Vec::new(),
    }
}

fn failure(code: i32, stderr: &str) -> CommandOutput {
    CommandOutput {
        exit_code: Some(code),
        stdout: Vec::new(),
        stderr: stderr.as_bytes().to_vec(),
    }
}

fn timestamp() -> Timestamp {
    Timestamp { secs: 1783706400, nanos: 0 }
}

fn claim(number: u64, claim_id: u128) -> Claim {
    Claim {
        schema_version: SCHEMA_VERSION.to_owned(),
        claim_id,
        repo: "o/r".to_owned(),
        issue: number,
        title: None,
        branch: format!("branch-{number}"),
        worktree: format!("/work/tree-{number}"),
        base_remote: "origin".to_owned(),
        base_ref: "main".to_owned(),
        base_sha: format!("sha-{number}"),
        base_issue: None,
        base_claim_id: None,
        wait_for: Vec::new(),
        declared_scope: None,
        note: None,
        created_at: timestamp(),
    }
}
