//! What records may say, and what is read from a store.
use vstd::prelude::*;

use crate::id::{id_text, Id, IssueNumber};
use crate::json::json_document;
use crate::model::{
    Claim, ClaimView, OperationRecord, OperationView, ReleaseMarker, ReleaseView, RunRecord,
    RunTransition, RunView,
};
use crate::path::same_path;
use crate::record::{claim_in, operation_in, release_in};
use crate::store::{
    claim_at, claim_reading, claims_at, generation_in, new_run_outcome, operation_reading,
    record_stem, release_reading, stored_transition, NewRun, RecordFile, StoreError,
};
use crate::text::blank;

verus! {

/// A record of a claim is accepted exactly where it is of this version, its worktree is absolute,
/// what names its repository, its branch and its base is not blank, and it names both the issue and
/// the generation that it is based on, or neither.
pub proof fn accepted_claims_are_complete(claim: ClaimView)
    ensures
        claim.problem() is None <==> {
            &&& claim.schema_version == "0.1"@
            &&& claim.worktree.len() > 0 && claim.worktree[0] == '/'
            &&& !blank(claim.repo)
            &&& !blank(claim.branch)
            &&& !blank(claim.base_remote)
            &&& !blank(claim.base_ref)
            &&& !blank(claim.base_sha)
            &&& claim.base_issue is Some <==> claim.base_claim_id is Some
        },
{
}

/// A record of a release is accepted exactly where it is of this version and names its repository.
pub proof fn accepted_releases_are_complete(release: ReleaseView)
    ensures
        release.problem() is None <==> release.schema_version == "0.1"@ && !blank(release.repo),
{
}

/// A record of an operation is accepted exactly where it is of this version, its worktree is
/// absolute, its branch is not blank, and its phase is one that an operation of its kind can be in:
/// those of runs are for runs alone, and a run is in one of them or only reserved.
pub proof fn accepted_operations_are_complete(operation: OperationView)
    ensures
        operation.problem() is None <==> {
            &&& operation.schema_version == "0.1"@
            &&& operation.worktree.len() > 0 && operation.worktree[0] == '/'
            &&& !blank(operation.branch)
            &&& operation.phase is RunArtifactsCreated || operation.phase is RunCommitted
                ==> operation.kind is Run
            &&& operation.kind is Run ==> operation.phase is Reserved || operation.phase
                is RunArtifactsCreated || operation.phase is RunCommitted
        },
{
}

/// Whether a file is named as a record: something, and then `.json`.
pub open spec fn is_named(name: Seq<char>, stem: Seq<char>) -> bool {
    stem.len() > 0 && name == stem + ".json"@
}

proof fn stems_are_names(name: Seq<char>, stem: Seq<char>)
    ensures
        record_stem(name) == Some(stem) <==> is_named(name, stem),
{
    reveal_strlit(".json");
    let suffix = ".json"@;
    if is_named(name, stem) {
        assert(name.skip(stem.len() as int) =~= suffix);
        assert(name.take(stem.len() as int) =~= stem);
        assert(name.len() - suffix.len() == stem.len());
    }
    if record_stem(name) == Some(stem) {
        assert(name =~= stem + suffix);
    }
}

/// A claim that is read from a file is the one that the file holds: a claim that obeys its rules, on
/// the issue whose directory the file is in, and with the identifier that the file is named by.
pub proof fn claims_are_read_where_they_belong(
    directory: Seq<char>,
    issue: IssueNumber,
    file: RecordFile,
    result: Result<Claim, StoreError>,
)
    requires
        claim_reading(directory, issue, file, result),
    ensures
        result matches Ok(claim) ==> claim@.issue == issue && is_named(
            file.name@,
            id_text(claim@.claim_id),
        ) && claim@.problem() is None && (json_document(file.bytes@) matches Ok(value)
            && claim_in(value) == Some(claim@)),
        (json_document(file.bytes@) matches Ok(value) && (claim_in(value) matches Some(claim)
            && claim.problem() is None && claim.issue == issue && is_named(
            file.name@,
            id_text(claim.claim_id),
        ))) ==> result is Ok,
{
    if let Ok(value) = json_document(file.bytes@) {
        if let Some(claim) = claim_in(value) {
            stems_are_names(file.name@, id_text(claim.claim_id));
        }
    }
}

/// So is a release.
pub proof fn releases_are_read_where_they_belong(
    directory: Seq<char>,
    issue: IssueNumber,
    file: RecordFile,
    result: Result<ReleaseMarker, StoreError>,
)
    requires
        release_reading(directory, issue, file, result),
    ensures
        result matches Ok(release) ==> release@.issue == issue && is_named(
            file.name@,
            id_text(release@.claim_id),
        ) && release@.problem() is None && (json_document(file.bytes@) matches Ok(value)
            && release_in(value) == Some(release@)),
        (json_document(file.bytes@) matches Ok(value) && (release_in(value) matches Some(release)
            && release.problem() is None && release.issue == issue && is_named(
            file.name@,
            id_text(release.claim_id),
        ))) ==> result is Ok,
{
    if let Ok(value) = json_document(file.bytes@) {
        if let Some(release) = release_in(value) {
            stems_are_names(file.name@, id_text(release.claim_id));
        }
    }
}

/// So is an operation, whose file is named by its own identifier.
pub proof fn operations_are_read_where_they_belong(
    directory: Seq<char>,
    file: RecordFile,
    result: Result<OperationRecord, StoreError>,
)
    requires
        operation_reading(directory, file, result),
    ensures
        result matches Ok(operation) ==> is_named(
            file.name@,
            id_text(operation@.operation_id),
        ) && operation@.problem() is None && (json_document(file.bytes@) matches Ok(value)
            && operation_in(value) == Some(operation@)),
        (json_document(file.bytes@) matches Ok(value) && (operation_in(value) matches Some(
            operation,
        ) && operation.problem() is None && is_named(
            file.name@,
            id_text(operation.operation_id),
        ))) ==> result is Ok,
{
    if let Ok(value) = json_document(file.bytes@) {
        if let Some(operation) = operation_in(value) {
            stems_are_names(file.name@, id_text(operation.operation_id));
        }
    }
}

/// Whether a file holds a claim on an issue.
pub open spec fn holds_claim(issue: IssueNumber, file: RecordFile, claim: ClaimView) -> bool {
    &&& json_document(file.bytes@) matches Ok(value) && claim_in(value) == Some(claim)
    &&& claim.problem() is None
    &&& claim.issue == issue
    &&& is_named(file.name@, id_text(claim.claim_id))
}

/// The claims on an issue are those that the files of its directory hold. All files that are named
/// as records are read, and each has to hold a claim; the others are left alone.
pub proof fn directories_hold_claims(
    issue: IssueNumber,
    files: Seq<RecordFile>,
    read: Seq<ClaimView>,
)
    requires
        claims_at(issue, files) == Some(read),
    ensures
        forall|k: int|
            0 <= k < read.len() ==> exists|i: int|
                0 <= i < files.len() && holds_claim(
                    issue,
                    #[trigger] files[i],
                    #[trigger] read[k],
                ),
        forall|i: int, stem: Seq<char>|
            0 <= i < files.len() && #[trigger] is_named(files[i].name@, stem) ==> exists|k: int|
                0 <= k < read.len() && holds_claim(issue, files[i], #[trigger] read[k]),
    decreases files.len(),
{
    if files.len() > 0 {
        let front = files.drop_last();
        let last = files.last();
        assert(files[files.len() - 1] == last);
        let early = claims_at(issue, front)->0;
        directories_hold_claims(issue, front, early);
        if record_stem(last.name@) is Some {
            let claim = claim_at(issue, last)->0;
            stems_are_names(last.name@, id_text(claim.claim_id));
            assert(read == early.push(claim));
            assert(holds_claim(issue, last, claim));
            assert(read[read.len() - 1] == claim);
        }
        assert forall|k: int| 0 <= k < read.len() implies exists|i: int|
            0 <= i < files.len() && holds_claim(
                issue,
                #[trigger] files[i],
                #[trigger] read[k],
            ) by {
            if k < early.len() {
                assert(read[k] == early[k]);
                let i = choose|i: int|
                    0 <= i < front.len() && holds_claim(issue, #[trigger] front[i], early[k]);
                assert(files[i] == front[i]);
            } else {
                assert(holds_claim(issue, files[files.len() - 1], read[k]));
            }
        }
        assert forall|i: int, stem: Seq<char>|
            0 <= i < files.len() && #[trigger] is_named(files[i].name@, stem) implies exists|k: int|
            0 <= k < read.len() && holds_claim(issue, files[i], #[trigger] read[k]) by {
            stems_are_names(files[i].name@, stem);
            if i < front.len() {
                assert(front[i] == files[i]);
                assert(is_named(front[i].name@, stem));
                let k = choose|k: int|
                    0 <= k < early.len() && holds_claim(issue, front[i], #[trigger] early[k]);
                assert(read[k] == early[k]);
            } else {
                assert(holds_claim(issue, files[i], read[read.len() - 1]));
            }
        }
    }
}

proof fn found_generation(claims: Seq<ClaimView>, id: Id)
    ensures
        match generation_in(claims, id) {
            Some(claim) => claims.contains(claim) && claim.claim_id == id,
            None => forall|i: int| 0 <= i < claims.len() ==> (#[trigger] claims[i]).claim_id != id,
        },
    decreases claims.len(),
{
    if claims.len() > 0 {
        let rest = claims.drop_first();
        found_generation(rest, id);
        assert forall|i: int| 0 < i < claims.len() implies #[trigger] claims[i] == rest[i - 1] by {}
        if claims[0].claim_id == id {
            assert(claims.contains(claims[0]));
        } else if let Some(claim) = generation_in(rest, id) {
            let i = rest.index_of(claim);
            assert(claims[i + 1] == claim);
        }
    }
}

/// A run that is made belongs to a recorded claim that has not changed, and was not there before. It
/// is queued, for the agent and in the mode that were asked for, in the worktree of the claim; it
/// has no process, no times but that of its making, and no result yet.
pub proof fn new_runs_belong_to_their_claim(
    root: Seq<char>,
    recorded: Seq<ClaimView>,
    claim: ClaimView,
    exists_already: bool,
    new: NewRun,
    run: RunRecord,
)
    requires
        new_run_outcome(root, recorded, claim, exists_already, new, Ok(run)),
    ensures
        !exists_already,
        exists|i: int|
            0 <= i < recorded.len() && (#[trigger] recorded[i]).claim_id == claim.claim_id
                && same_path(recorded[i].worktree, claim.worktree) && recorded[i].branch
                == claim.branch && recorded[i].issue == claim.issue && recorded[i].base_sha
                == claim.base_sha && recorded[i].created_at == claim.created_at,
        run@.run_id == new.run_id && run@.agent == new.agent@ && run@.mode == new.mode
            && run@.created_at == new.created_at,
        run@.claim_id == claim.claim_id && run@.issue == claim.issue && run@.repo == claim.repo
            && run@.worktree == claim.worktree,
        run@.state is Queued && run@.worker_pid is None && run@.child_pid is None && run@.started_at
            is None && run@.finished_at is None && run@.exit_code is None && run@.error is None,
{
    found_generation(recorded, claim.claim_id);
    let found = generation_in(recorded, claim.claim_id)->0;
    let i = recorded.index_of(found);
    assert(recorded[i] == found);
}

/// A run is not made for a claim that is not recorded, nor for one that was recorded otherwise.
pub proof fn strange_claims_get_no_runs(
    root: Seq<char>,
    recorded: Seq<ClaimView>,
    claim: ClaimView,
    exists_already: bool,
    new: NewRun,
    result: Result<RunRecord, StoreError>,
)
    requires
        new_run_outcome(root, recorded, claim, exists_already, new, result),
    ensures
        (forall|i: int|
            0 <= i < recorded.len() ==> (#[trigger] recorded[i]).claim_id != claim.claim_id) ==> (
        result matches Err(StoreError::MissingClaimGeneration { issue, claim_id }) && issue
            == claim.issue && claim_id == claim.claim_id),
        exists_already ==> result is Err,
{
    found_generation(recorded, claim.claim_id);
    if let Some(found) = generation_in(recorded, claim.claim_id) {
        let i = recorded.index_of(found);
        assert(recorded[i].claim_id == claim.claim_id);
    }
}

/// A run that is stored changes by a transition that it can make, and only where the run obeys its
/// rules afterwards; a run that is not stored cannot change.
pub proof fn stored_runs_change_by_transitions(
    stored: Option<RunView>,
    run_id: Id,
    transition: RunTransition,
    result: Result<RunRecord, StoreError>,
)
    requires
        stored_transition(stored, run_id, transition, result),
    ensures
        stored is None ==> (result matches Err(StoreError::RunNotFound { run_id: id }) && id
            == run_id),
        result matches Ok(changed) ==> stored is Some && transition.outcome(stored->0) == Some(
            changed@,
        ) && changed@.problem() is None,
        stored matches Some(run) && transition.outcome(run) is None ==> result is Err,
{
}

} // verus!
