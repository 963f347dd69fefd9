use gh_envoy::cli::{
    error_code, error_exit, parse_issue, render_claim, render_next, render_release, render_resume,
    render_shell_warning, shell_exit, status_exit, usage_exit, ClaimArgs, Cli, DoctorArgs, EnvoyCommand,
    ReleaseReasonArg,
};
use gh_envoy::document::{error_document, write_list, Documented};
use gh_envoy::exit::EnvoyExitCode;
use gh_envoy::json::{find_member, Json};
use gh_envoy::model::{Claim, ReleaseReason, ReleaseReport, WaitForRef, SCHEMA_VERSION};
use gh_envoy::status::StatusReport;
use gh_envoy::time::Timestamp;

const ID: u128 = 0x12345678_1111_4111_8111_111111111111;

fn member<'a>(json: &'a Json, name: &str) -> &'a Json {
    match json {
        Json::Object(members) => find_member(members, name).expect("member"),
        other => panic!("no object: {other:?}"),
    }
}

#[test]
fn issues_are_positive_integers() {
    assert_eq!(parse_issue("7").expect("issue"), 7);
    assert_eq!(parse_issue("+7").expect("issue"), 7);
    assert_eq!(parse_issue("18446744073709551615").expect("issue"), u64::MAX);
    for wrong in ["0", "", "-1", "not-a-number", "7 ", "18446744073709551616"] {
        assert_eq!(
            parse_issue(wrong).expect_err(wrong),
            "issue must be a positive integer"
        );
    }
}

#[test]
fn commands_are_called_by_their_names() {
    let cli = Cli {
        json: true,
        command: EnvoyCommand::Doctor(DoctorArgs { issue: None, stack: None }),
    };
    assert_eq!(cli.command.name(), "doctor");
    assert_eq!(EnvoyCommand::List.name(), "list");
    assert_eq!(EnvoyCommand::Status.name(), "status");
}

#[test]
fn claim_arguments_become_options() {
    let args = ClaimArgs {
        issue: 3,
        branch: Some("b".to_owned()),
        worktree: None,
        onto: Some(1),
        after: vec![2],
        scope: vec!["src/**".to_owned()],
        disallow: vec!["docs/**".to_owned()],
        note: Some("n".to_owned()),
        force: true,
        cd: false,
        no_cd: false,
        resume: false,
    };
    let options = args.options();
    assert_eq!(options.branch.as_deref(), Some("b"));
    assert_eq!(options.worktree, None);
    assert_eq!(options.onto, Some(1));
    assert_eq!(options.after, [2]);
    assert_eq!(options.allowed_paths, ["src/**"]);
    assert_eq!(options.disallowed_paths, ["docs/**"]);
    assert_eq!(options.note.as_deref(), Some("n"));
    assert!(options.force);
}

#[test]
fn shells_are_opened_for_people() {
    let args = |cd, no_cd, resume| ClaimArgs {
        issue: 3,
        branch: None,
        worktree: None,
        onto: None,
        after: vec![],
        scope: vec![],
        disallow: vec![],
        note: None,
        force: false,
        cd,
        no_cd,
        resume,
    };
    assert!(!args(false, false, false).enters_shell(false, false));
    assert!(args(false, false, false).enters_shell(false, true));
    assert!(!args(false, true, false).enters_shell(false, true));
    assert!(args(true, false, false).enters_shell(false, false));
    assert!(args(false, false, true).enters_shell(false, false));
    assert!(!args(true, false, true).enters_shell(true, true));
    assert_eq!(shell_exit(false, true).code(), 0);
    assert_eq!(shell_exit(false, false).code(), 1);
    assert_eq!(shell_exit(true, true).code(), 1);
}

#[test]
fn reasons_to_release_carry_over() {
    for (arg, reason) in [
        (ReleaseReasonArg::Merged, ReleaseReason::Merged),
        (ReleaseReasonArg::Closed, ReleaseReason::Closed),
        (ReleaseReasonArg::Abandoned, ReleaseReason::Abandoned),
        (ReleaseReasonArg::Manual, ReleaseReason::Manual),
    ] {
        assert_eq!(ReleaseReason::from(arg), reason);
    }
}

#[test]
fn claims_are_shown_to_people() {
    let claim = claim(11, ID);
    assert_eq!(
        render_claim(&claim),
        "Claimed issue #11 as 12345678\nBranch: branch-11\nWorktree: /work/tree-11\nBase: origin/main at sha-11\n"
    );
    assert_eq!(
        render_next(&claim, false),
        "Next: change directory to the claimed worktree above\n"
    );
    assert_eq!(
        render_next(&claim, true),
        "Entering a shell in /work/tree-11\n"
    );
    assert_eq!(render_resume(&claim), "Resuming issue #11 as 12345678\n");
    assert_eq!(
        render_shell_warning(false, "gone"),
        "claim succeeded, but the worktree shell could not start: gone"
    );
    assert_eq!(
        render_shell_warning(true, "gone"),
        "active claim found, but the worktree shell could not start: gone"
    );
    let mut report = ReleaseReport {
        issue: 11,
        claim_id: ID,
        already_released: false,
        worktree_deleted: false,
        branch_deleted: false,
        cleanup_pending: false,
    };
    assert_eq!(render_release(&report), "Released issue #11 generation 12345678\n");
    report.already_released = true;
    assert_eq!(
        render_release(&report),
        "Issue #11 generation 12345678 is already released\n"
    );
}

#[test]
fn commands_end_with_their_codes() {
    for (code, number) in [
        (EnvoyExitCode::Success, 0),
        (EnvoyExitCode::Warning, 1),
        (EnvoyExitCode::Blocked, 2),
        (EnvoyExitCode::OperationalError, 3),
        (EnvoyExitCode::Held, 4),
    ] {
        assert_eq!(code.code(), number);
    }
    assert_eq!(error_exit(true).code(), 2);
    assert_eq!(error_exit(false).code(), 3);
    assert_eq!(error_code(true), "refused");
    assert_eq!(error_code(false), "operational_error");
    assert_eq!(usage_exit(true).code(), 0);
    assert_eq!(usage_exit(false).code(), 3);
    assert_eq!(status_exit(&StatusReport::default()).code(), 0);
}

#[test]
fn failures_are_documented() {
    let document = error_document("list", "operational_error", "not a repository", false);
    for (name, value) in [
        ("schema_version", "0.1"),
        ("command", "list"),
        ("status", "error"),
    ] {
        match member(&document, name) {
            Json::Text(text) => assert_eq!(text, value),
            other => panic!("{other:?}"),
        }
    }
    let error = member(&document, "error");
    assert!(matches!(member(error, "code"), Json::Text(code) if code == "operational_error"));
    assert!(matches!(member(error, "message"), Json::Text(text) if text == "not a repository"));
}

#[test]
fn claims_are_documented_as_they_are_stored() {
    let mut claim = claim(11, ID);
    claim.wait_for = vec![WaitForRef { issue: 3, claim_id: Some(ID) }];
    let stored = claim.to_value().expect("stored");
    assert_eq!(format!("{:?}", claim.document()), format!("{stored:?}"));
    assert!(matches!(
        member(&stored, "created_at"),
        Json::Text(text) if text == "2026-07-10T18:00:00Z"
    ));
    assert!(matches!(write_list(&vec![claim]), Json::List(items) if items.len() == 1));
}

fn timestamp() -> Timestamp {
    Timestamp { secs: 1783706400, nanos: 0 }
}

fn claim(number: u64, claim_id: u128) -> Claim {
    Claim {
        schema_version: SCHEMA_VERSION.to_owned(),
        claim_id,
        repo: "o/r".to_owned(),
        issue: number,
        title: None,
        branch: format!("branch-{number}"),
        worktree: format!("/work/tree-{number}"),
        base_remote: "origin".to_owned(),
        base_ref: "main".to_owned(),
        base_sha: format!("sha-{number}"),
        base_issue: None,
        base_claim_id: None,
        wait_for: Vec::new(),
        declared_scope: None,
        note: None,
        created_at: timestamp(),
    }
}
