//! Filing: the files that records are stored as.
use vstd::prelude::*;
use vstd::string::*;

use crate::id::{id_string, id_text, Id, IssueNumber};
use crate::json::{
    json_document, parse_json, pretty_notation, print_lines, printable, Json, JsonView, DEPTH,
};
use crate::model::{
    Claim, ClaimView, ModelError, OperationRecord, ReleaseMarker, RunRecord, RunView,
};
use crate::path::{join_path, joined_path};
use crate::record::{
    claim_json, claims_are_printable, operation_json, operations_are_printable, release_json,
    releases_are_printable, run_in, run_json, runs_are_printable,
};
use crate::run::{check_run_place, misplacement};
use crate::store::{
    claim_at, claims_at, operation_at, record_stem, release_at, run_place, RecordFile, Store,
    StoreError,
};
use crate::text::{ends, without_suffix};

verus! {

// ---------------------------------------------------------------------------------------------
// Writing
// ---------------------------------------------------------------------------------------------
/// The name of the file of a record.
pub open spec fn record_name(id: Id) -> Seq<char> {
    id_text(id) + ".json"@
}

/// What the file of a record holds: its value over several lines, and a line feed at the end.
pub open spec fn record_bytes(value: JsonView) -> Seq<u8> {
    pretty_notation(value).push(10)
}

/// How filing a record goes, by what is wrong with the record and what it is written as: it obeys
/// its rules and has a value, or else says what it is that it does not.
pub open spec fn filing(
    problem: Option<Seq<char>>,
    value: Option<JsonView>,
    name: Seq<char>,
    result: Result<RecordFile, StoreError>,
) -> bool {
    match (problem, value) {
        (Some(problem), _) => result matches Err(StoreError::Model(ModelError::Invalid(message)))
            && message@ == problem,
        (None, None) => result matches Err(StoreError::Model(ModelError::Json)),
        (None, Some(value)) => result matches Ok(file) && file.name@ == name && file.bytes@
            == record_bytes(value),
    }
}

proof fn stem_of_name(id: Id)
    ensures
        record_stem(record_name(id)) == Some(id_text(id)),
{
    let name = record_name(id);
    assert(name.skip(name.len() - ".json"@.len()) =~= ".json"@);
    assert(name.take(name.len() - ".json"@.len()) =~= id_text(id));
    assert(ends(name, ".json"@));
    assert(without_suffix(name, ".json"@) == Some(id_text(id)));
}

fn name_record(id: Id) -> (name: String)
    ensures
        name@ == record_name(id),
        record_stem(name@) == Some(id_text(id)),
{
    let mut name = id_string(id);
    name.append(".json");
    proof {
        stem_of_name(id);
    }
    name
}

fn print_record(name: String, json: &Json) -> (result: Result<RecordFile, StoreError>)
    requires
        printable(json@, DEPTH as nat),
    ensures
        result matches Ok(file) && file.name@ == name@ && file.bytes@ == record_bytes(json@)
            && json_document(file.bytes@) == Ok::<_, Seq<char>>(json@),
{
    match print_lines(json) {
        Some(bytes) => Ok(RecordFile { name, bytes }),
        None => Err(StoreError::Model(ModelError::Json)),
    }
}

/// The file of a claim. What it holds reads back as the claim.
pub fn claim_file(claim: &Claim) -> (result: Result<RecordFile, StoreError>)
    ensures
        filing(
            claim@.problem(),
            claim_json(claim@),
            record_name(claim@.claim_id),
            result,
        ),
        claim@.recordable() && claim@.problem() is None ==> (result matches Ok(file) && claim_at(
            claim@.issue,
            file,
        ) == Some(claim@)),
{
    match claim.to_value() {
        Ok(json) => {
            proof {
                claims_are_printable(claim@);
            }
            print_record(name_record(claim.claim_id), &json)
        },
        Err(error) => Err(StoreError::Model(error)),
    }
}

/// The file of a release. What it holds reads back as the release.
pub fn release_file(release: &ReleaseMarker) -> (result: Result<RecordFile, StoreError>)
    ensures
        filing(
            release@.problem(),
            release_json(release@),
            record_name(release@.claim_id),
            result,
        ),
        release@.recordable() && release@.problem() is None ==> (result matches Ok(file)
            && release_at(release@.issue, file) == Some(release@)),
{
    match release.to_value() {
        Ok(json) => {
            proof {
                releases_are_printable(release@);
            }
            print_record(name_record(release.claim_id), &json)
        },
        Err(error) => Err(StoreError::Model(error)),
    }
}

/// The journal entry of an operation. What it holds reads back as the operation.
pub fn operation_file(operation: &OperationRecord) -> (result: Result<RecordFile, StoreError>)
    ensures
        filing(
            operation@.problem(),
            operation_json(operation@),
            record_name(operation@.operation_id),
            result,
        ),
        operation@.recordable() && operation@.problem() is None ==> (result matches Ok(file)
            && operation_at(file) == Some(operation@)),
{
    match operation.to_value() {
        Ok(json) => {
            proof {
                operations_are_printable(operation@);
            }
            print_record(name_record(operation.operation_id), &json)
        },
        Err(error) => Err(StoreError::Model(error)),
    }
}

/// The file of a run, in a directory of its own. What it holds reads back as the run.
pub fn run_file(run: &RunRecord) -> (result: Result<RecordFile, StoreError>)
    ensures
        filing(run@.problem(), run_json(run@), "run.json"@, result),
        run@.recordable() && run@.problem() is None ==> (result matches Ok(file)
            && forall|root: Seq<char>|
            misplacement(root, run@.run_id, run@) is None ==> #[trigger] run_at(
                root,
                run@.run_id,
                file.bytes@,
            ) == Some(run@)),
{
    match run.to_value() {
        Ok(json) => {
            proof {
                runs_are_printable(run@);
            }
            print_record("run.json".to_owned(), &json)
        },
        Err(error) => Err(StoreError::Model(error)),
    }
}

// ---------------------------------------------------------------------------------------------
// Reading runs
// ---------------------------------------------------------------------------------------------
/// The run that a file in the directory of a run holds, where it holds one that belongs there.
pub open spec fn run_at(root: Seq<char>, run_id: Id, bytes: Seq<u8>) -> Option<RunView> {
    match json_document(bytes) {
        Err(_) => None,
        Ok(value) => match run_in(value) {
            Some(run) if run.problem() is None && misplacement(root, run_id, run) is None => Some(
                run,
            ),
            _ => None,
        },
    }
}

/// How reading a run goes.
pub open spec fn run_reading(
    root: Seq<char>,
    run_id: Id,
    bytes: Seq<u8>,
    result: Result<RunRecord, StoreError>,
) -> bool {
    let place = run_place(root, run_id);
    match json_document(bytes) {
        Err(problem) => result matches Err(StoreError::Json { path, message }) && path@
            == joined_path(place, "run.json"@) && message@ == problem,
        Ok(value) => match run_in(value) {
            None => result matches Err(StoreError::Model(ModelError::Json)),
            Some(run) => match run.problem() {
                Some(problem) => result matches Err(StoreError::Model(ModelError::Invalid(message)))
                    && message@ == problem,
                None => match misplacement(root, run_id, run) {
                    Some(problem) => result matches Err(
                        StoreError::InvalidRunStore { path, message },
                    ) && path@ == place && message@ == problem,
                    None => result matches Ok(found) && found@ == run,
                },
            },
        },
    }
}

/// Reads a run from what its file holds, and checks that it lies where it belongs.
pub fn read_run_file(store: &Store, run_id: Id, bytes: &Vec<u8>) -> (result: Result<
    RunRecord,
    StoreError,
>)
    ensures
        run_reading(store.directory@, run_id, bytes@, result),
        match result {
            Ok(run) => run_at(store.directory@, run_id, bytes@) == Some(run@),
            Err(_) => run_at(store.directory@, run_id, bytes@) is None,
        },
{
    let value = match parse_json(bytes) {
        Ok(value) => value,
        Err(message) => {
            let path = join_path(store.run_directory(run_id).as_str(), "run.json");
            return Err(StoreError::Json { path, message });
        },
    };
    let run = match RunRecord::from_value(&value) {
        Ok(run) => run,
        Err(error) => return Err(StoreError::Model(error)),
    };
    match check_run_place(store, run_id, &run) {
        Ok(()) => Ok(run),
        Err(error) => Err(error),
    }
}

// ---------------------------------------------------------------------------------------------
// Files that are read back
// ---------------------------------------------------------------------------------------------
/// Claims on an issue that are each read back from their own file are read back from all of the
/// files together, every one of them and no others.
pub proof fn filed_claims_are_read_back(
    issue: IssueNumber,
    claims: Seq<ClaimView>,
    files: Seq<RecordFile>,
)
    requires
        files.len() == claims.len(),
        forall|i: int|
            0 <= i < claims.len() ==> claim_at(issue, #[trigger] files[i]) == Some(claims[i]),
    ensures
        claims_at(issue, files) == Some(claims),
    decreases claims.len(),
{
    if claims.len() > 0 {
        let front = files.drop_last();
        assert forall|i: int| 0 <= i < front.len() implies claim_at(issue, #[trigger] front[i])
            == Some(claims.drop_last()[i]) by {
            assert(front[i] == files[i]);
        }
        filed_claims_are_read_back(issue, claims.drop_last(), front);
        assert(claim_at(issue, files[files.len() - 1]) == Some(claims.last()));
        assert(claims.drop_last().push(claims.last()) =~= claims);
    } else {
        assert(claims =~= Seq::empty());
    }
}

} // verus!
