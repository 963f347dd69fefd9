use gh_envoy::filing::{claim_file, operation_file, read_run_file, release_file, run_file};
use gh_envoy::json::parse_json;
use gh_envoy::model::{
    Claim, OperationKind, OperationPhase, OperationRecord, ReleaseMarker, ReleaseReason, RunMode,
    SCHEMA_VERSION,
};
use gh_envoy::store::{
    load_claims, load_operations, load_releases, ordered, read_claim_file, read_operation_file,
    read_release_file, same_claim, stem_of_record, validate_claim_location, NewRun, RecordFile, Store, StoreError,
};
use gh_envoy::time::Timestamp;

#[test]
fn records_lie_where_their_identity_says() {
    let store = Store::new("/common/envoy".to_owned());
    let id: u128 = 0x22222222_2222_4222_8222_222222222222;
    assert_eq!(store.root(), "/common/envoy");
    assert_eq!(
        store.operation_path(id),
        "/common/envoy/operations/22222222-2222-4222-8222-222222222222.json"
    );
    assert_eq!(store.claim_issue_directory(7), "/common/envoy/claims/7");
    assert_eq!(store.release_issue_directory(7), "/common/envoy/releases/7");
    assert_eq!(
        store.claim_path(&claim(7, id)),
        "/common/envoy/claims/7/22222222-2222-4222-8222-222222222222.json"
    );
    assert_eq!(
        store.run_directory(id),
        "/common/envoy/runs/22222222-2222-4222-8222-222222222222"
    );
}

#[test]
fn claim_generations_are_read_in_order() {
    let store = Store::new("/common/envoy".to_owned());
    let directory = store.claim_issue_directory(7);
    let mut first = claim(7, 9);
    first.created_at = Timestamp { secs: 1783706300, nanos: 0 };
    let second = claim(7, 1);
    let third = claim(7, 2);
    let claims = load_claims(
        &directory,
        7,
        &vec![filed(&third), filed(&first), filed(&second)],
    )
    .expect("read claim history");
    assert_eq!(
        claims.iter().map(|claim| claim.claim_id).collect::<Vec<_>>(),
        [9, 1, 2]
    );
    assert!(same_claim(&claims[1], &second));
    assert!(!same_claim(&claims[1], &third));
    assert!(load_claims(&directory, 7, &vec![]).expect("absent").is_empty());
    let turned = ordered(vec![third, second]);
    assert_eq!(turned[0].claim_id, 1);
}

#[test]
fn claims_that_lie_elsewhere_are_refused() {
    let claim = claim(7, 1);
    let directory = "/common/envoy/claims/8";
    match read_claim_file(directory, 8, &filed(&claim)) {
        Err(StoreError::LocationMismatch { path, .. }) => {
            assert!(path.starts_with("/common/envoy/claims/8/"));
        }
        other => panic!("{other:?}"),
    }
    let mut moved = filed(&claim);
    moved.name = "22222222-2222-4222-8222-222222222222.json".to_owned();
    assert!(matches!(
        read_claim_file("/common/envoy/claims/7", 7, &moved),
        Err(StoreError::LocationMismatch { .. })
    ));
    assert!(read_claim_file("/common/envoy/claims/7", 7, &filed(&claim)).is_ok());
}

#[test]
fn records_that_are_no_json_or_no_claim_are_refused() {
    let broken = RecordFile { name: "broken.json".to_owned(), bytes: b"{not-json\n".to_vec() };
    match read_claim_file("/d", 1, &broken) {
        Err(StoreError::Json { path, .. }) => assert_eq!(path, "/d/broken.json"),
        other => panic!("{other:?}"),
    }
    let empty = RecordFile { name: "broken.json".to_owned(), bytes: b"{}".to_vec() };
    assert!(matches!(read_claim_file("/d", 1, &empty), Err(StoreError::Model(_))));
}

#[test]
fn operations_and_releases_are_read_back() {
    let operation = OperationRecord {
        schema_version: SCHEMA_VERSION.to_owned(),
        operation_id: 12,
        kind: OperationKind::Claim,
        claim_id: 13,
        issue: 7,
        branch: "b".to_owned(),
        worktree: "/w".to_owned(),
        phase: OperationPhase::WorktreeCreated,
        started_at: timestamp(),
    };
    let stored = operation_file(&operation).expect("filed");
    assert_eq!(stored.name, format!("{}.json", uuid::Uuid::from_u128(12)));
    let read = read_operation_file("/d", &stored).expect("operation");
    assert_eq!(read.phase, OperationPhase::WorktreeCreated);
    assert_eq!(format!("{read:?}"), format!("{operation:?}"));
    let mut misplaced = operation_file(&operation).expect("filed");
    misplaced.name = format!("{}.json", uuid::Uuid::from_u128(14));
    assert!(matches!(
        load_operations("/d", &vec![misplaced]),
        Err(StoreError::LocationMismatch { .. })
    ));

    let release = ReleaseMarker {
        schema_version: SCHEMA_VERSION.to_owned(),
        repo: "o/r".to_owned(),
        issue: 7,
        claim_id: 13,
        reason: ReleaseReason::Merged,
        released_at: timestamp(),
    };
    let stored = release_file(&release).expect("filed");
    let read = read_release_file("/d", 7, &stored).expect("release");
    assert_eq!(format!("{read:?}"), format!("{release:?}"));
    assert_eq!(load_releases("/d", 7, &vec![stored]).expect("releases").len(), 1);
}

#[test]
fn locked_store_creates_layout_and_preserves_claim_generations() {
    let first = claim(7, 1);
    let second = claim(7, 2);
    let files = vec![filed(&first), filed(&second)];
    let claims = load_claims("/common/envoy/claims/7", 7, &files).expect("read claim history");
    assert_eq!(claims.len(), 2);
    assert!(claims.iter().any(|claim| same_claim(claim, &first)));
    assert!(claims.iter().any(|claim| same_claim(claim, &second)));
}

#[test]
fn operation_updates_replace_whole_json_and_release_markers_are_immutable() {
    let mut operation = OperationRecord {
        schema_version: SCHEMA_VERSION.to_owned(),
        operation_id: 12,
        kind: OperationKind::Claim,
        claim_id: 13,
        issue: 7,
        branch: "b".to_owned(),
        worktree: "/w".to_owned(),
        phase: OperationPhase::Reserved,
        started_at: timestamp(),
    };
    operation.phase = OperationPhase::WorktreeCreated;
    let stored = operation_file(&operation).expect("filed");
    let persisted = read_operation_file("/d", &stored).expect("operation");
    assert_eq!(persisted.phase, OperationPhase::WorktreeCreated);
    assert!(parse_json(&stored.bytes).is_ok());
}

#[test]
fn records_are_filed_over_several_lines() {
    let release = ReleaseMarker {
        schema_version: SCHEMA_VERSION.to_owned(),
        repo: "o/r".to_owned(),
        issue: 7,
        claim_id: 13,
        reason: ReleaseReason::Merged,
        released_at: timestamp(),
    };
    let file = release_file(&release).expect("filed");
    assert_eq!(file.name, "00000000-0000-0000-0000-00000000000d.json");
    assert_eq!(
        String::from_utf8(file.bytes).unwrap(),
        "{\n  \"schema_version\": \"0.1\",\n  \"repo\": \"o/r\",\n  \"issue\": 7,\n  \
         \"claim_id\": \"00000000-0000-0000-0000-00000000000d\",\n  \"reason\": \"merged\",\n  \
         \"released_at\": \"2026-07-10T18:00:00Z\"\n}\n"
    );
    let mut invalid = claim(7, 1);
    invalid.worktree = "relative".to_owned();
    assert!(matches!(claim_file(&invalid), Err(StoreError::Model(_))));
}

#[test]
fn runs_are_read_back_from_their_own_directory() {
    let store = Store::new("/common/envoy".to_owned());
    let claim = claim(7, 1);
    let run = store
        .create_run(
            &vec![claim.clone()],
            &claim,
            false,
            NewRun {
                run_id: 31,
                agent: "codex".to_owned(),
                mode: RunMode::Interactive,
                created_at: timestamp(),
            },
        )
        .expect("run");
    let file = run_file(&run).expect("filed");
    assert_eq!(file.name, "run.json");
    let read = read_run_file(&store, 31, &file.bytes).expect("read back");
    assert_eq!(format!("{read:?}"), format!("{run:?}"));
    assert!(matches!(
        read_run_file(&store, 32, &file.bytes),
        Err(StoreError::InvalidRunStore { .. })
    ));
    match read_run_file(&store, 31, &b"{".to_vec()) {
        Err(StoreError::Json { path, .. }) => {
            assert_eq!(path, format!("{}/run.json", store.run_directory(31)));
        }
        other => panic!("{other:?}"),
    }
    assert!(matches!(
        read_run_file(&store, 31, &b"{}".to_vec()),
        Err(StoreError::Model(_))
    ));
}

fn filed(claim: &Claim) -> RecordFile {
    claim_file(claim).expect("filed")
}

#[test]
fn records_must_lie_where_they_belong() {
    let claim = claim(7, 1);
    let name = filed(&claim).name;
    assert!(validate_claim_location("/d", 7, &name, &claim).is_ok());
    assert!(validate_claim_location("/d", 8, &name, &claim).is_err());
    match validate_claim_location("/d", 7, "other.json", &claim) {
        Err(StoreError::LocationMismatch { path, message }) => {
            assert_eq!(path, "/d/other.json");
            assert_eq!(message, "claim issue or claim_id does not match its storage path");
        }
        other => panic!("{other:?}"),
    }
}

#[test]
fn only_json_files_are_records() {
    assert_eq!(stem_of_record("a.json").as_deref(), Some("a"));
    assert_eq!(stem_of_record("a.tmp"), None);
    assert_eq!(stem_of_record("a.b.json").as_deref(), Some("a.b"));
    assert!(parse_json(&b"{".to_vec()).is_err());
}

#[test]
fn every_store_error_says_what_is_wrong() {
    let id = 0x22222222_2222_4222_8222_222222222222;
    for (error, part) in [
        (
            StoreError::Io {
                action: "read claim".to_owned(),
                path: "/p".to_owned(),
                message: "gone".to_owned(),
            },
            "failed to read claim",
        ),
        (
            StoreError::Json { path: "/p".to_owned(), message: "eof".to_owned() },
            "invalid JSON",
        ),
        (
            StoreError::MissingClaimGeneration { issue: 7, claim_id: id },
            "22222222-2222-4222-8222-222222222222",
        ),
        (StoreError::RunNotFound { run_id: id }, "22222222-2222-4222-8222-222222222222"),
        (StoreError::RunAlreadyExists { run_id: id }, "already exists"),
        (
            StoreError::InvalidRunTransition { run_id: id, message: "no".to_owned() },
            "no",
        ),
        (
            StoreError::InvalidRunStore { path: "/p".to_owned(), message: "no".to_owned() },
            "/p",
        ),
    ] {
        assert!(error.message().contains(part), "{}", error.message());
    }
}

fn timestamp() -> Timestamp {
    Timestamp { secs: 1783706400, nanos: 0 }
}

fn claim(number: u64, claim_id: u128) -> Claim {
    Claim {
        schema_version: SCHEMA_VERSION.to_owned(),
        claim_id,
        repo: "o/r".to_owned(),
        issue: number,
        title: None,
        branch: format!("branch-{number}"),
        worktree: format!("/work/tree-{number}"),
        base_remote: "origin".to_owned(),
        base_ref: "main".to_owned(),
        base_sha: format!("sha-{number}"),
        base_issue: None,
        base_claim_id: None,
        wait_for: Vec::new(),
        declared_scope: None,
        note: None,
        created_at: timestamp(),
    }
}
