//! The store: where records lie, what may lie where, and in which order they are listed.
use vstd::prelude::*;
use vstd::string::*;

use crate::id::{id_string, id_text, Id, IssueNumber};
use crate::json::{json_document, parse_json, Json};
use crate::model::{
    Claim, ClaimView, ModelError, OperationRecord, OperationView, ReleaseMarker, ReleaseView,
    RunMode, RunRecord, RunState, RunTransition, RunView, Validate, SCHEMA_VERSION,
};
use crate::path::{is_same_path, join_path, joined_path, same_path};
use crate::record::{claim_in, operation_in, release_in};
use crate::text::{
    decimal, decimal_text, optional, same, same_optional, same_texts, strip_suffix, views,
    without_suffix,
};
use crate::time::Timestamp;

verus! {

// ---------------------------------------------------------------------------------------------
// Order
// ---------------------------------------------------------------------------------------------
/// A record that has its place among others by an instant and an identifier.
pub trait Recorded: View + Sized {
    spec fn instant_of(record: Self::V) -> Timestamp;

    spec fn id_of(record: Self::V) -> Id;

    fn instant(&self) -> (at: Timestamp)
        ensures
            at == Self::instant_of(self@),
    ;

    fn identifier(&self) -> (id: Id)
        ensures
            id == Self::id_of(self@),
    ;
}

impl Recorded for Claim {
    open spec fn instant_of(record: ClaimView) -> Timestamp {
        record.created_at
    }

    open spec fn id_of(record: ClaimView) -> Id {
        record.claim_id
    }

    fn instant(&self) -> (at: Timestamp) {
        self.created_at
    }

    fn identifier(&self) -> (id: Id) {
        self.claim_id
    }
}

impl Recorded for ReleaseMarker {
    open spec fn instant_of(record: ReleaseView) -> Timestamp {
        record.released_at
    }

    open spec fn id_of(record: ReleaseView) -> Id {
        record.claim_id
    }

    fn instant(&self) -> (at: Timestamp) {
        self.released_at
    }

    fn identifier(&self) -> (id: Id) {
        self.claim_id
    }
}

impl Recorded for OperationRecord {
    open spec fn instant_of(record: OperationView) -> Timestamp {
        record.started_at
    }

    open spec fn id_of(record: OperationView) -> Id {
        record.operation_id
    }

    fn instant(&self) -> (at: Timestamp) {
        self.started_at
    }

    fn identifier(&self) -> (id: Id) {
        self.operation_id
    }
}

impl Recorded for RunRecord {
    open spec fn instant_of(record: RunView) -> Timestamp {
        record.created_at
    }

    open spec fn id_of(record: RunView) -> Id {
        record.run_id
    }

    fn instant(&self) -> (at: Timestamp) {
        self.created_at
    }

    fn identifier(&self) -> (id: Id) {
        self.run_id
    }
}

/// The earlier of two records comes first, and of two at the same time the one with the smaller
/// identifier.
pub open spec fn record_before<T: Recorded>(a: T::V, b: T::V) -> bool {
    T::instant_of(a).earlier(T::instant_of(b)) || (T::instant_of(a) == T::instant_of(b) && T::id_of(
        a,
    ) < T::id_of(b))
}

/// The records with one more at its place, behind those that it does not come before.
pub open spec fn with_record<T: Recorded>(records: Seq<T::V>, record: T::V) -> Seq<T::V>
    decreases records.len(),
{
    if records.len() > 0 && record_before::<T>(record, records.last()) {
        with_record::<T>(records.drop_last(), record).push(records.last())
    } else {
        records.push(record)
    }
}

/// The records in their order.
pub open spec fn in_order<T: Recorded>(records: Seq<T::V>) -> Seq<T::V>
    decreases records.len(),
{
    if records.len() == 0 {
        Seq::empty()
    } else {
        with_record::<T>(in_order::<T>(records.drop_last()), records.last())
    }
}

fn is_record_before<T: Recorded>(a: &T, b: &T) -> (result: bool)
    ensures
        result == record_before::<T>(a@, b@),
{
    let x = a.instant();
    let y = b.instant();
    let m: Id = a.identifier();
    let n: Id = b.identifier();
    x.is_earlier(y) || (x == y && m < n)
}

fn put_record<T: Recorded>(records: &mut Vec<T>, record: T)
    ensures
        views(final(records)@) == with_record::<T>(views(old(records)@), record@),
{
    let ghost all = views(records@);
    let ghost wanted = record@;
    let mut at: usize = records.len();
    assert(all.take(at as int) =~= all);
    assert(all.skip(at as int) =~= Seq::empty());
    assert(with_record::<T>(all.take(at as int), wanted) + all.skip(at as int) =~= with_record::<T>(
        all,
        wanted,
    ));
    while at > 0 && is_record_before(&record, &records[at - 1])
        invariant
            at <= records.len(),
            views(records@) == all,
            record@ == wanted,
            with_record::<T>(all.take(at as int), wanted) + all.skip(at as int) == with_record::<T>(
                all,
                wanted,
            ),
        decreases at,
    {
        let ghost front = all.take(at as int);
        assert(front.drop_last() =~= all.take(at - 1));
        assert(front.last() == records@[at - 1]@);
        assert(with_record::<T>(all.take(at - 1), wanted).push(all[at - 1]) + all.skip(at as int)
            =~= with_record::<T>(all.take(at - 1), wanted) + all.skip(at - 1));
        at = at - 1;
    }
    let ghost front = all.take(at as int);
    if at > 0 {
        assert(front.last() == records@[at - 1]@);
    }
    records.insert(at, record);
    assert(with_record::<T>(front, wanted) =~= front.push(wanted));
    assert(views(records@) =~= front.push(wanted) + all.skip(at as int));
}

proof fn with_record_is_ordered<T: Recorded>(records: Seq<T::V>, record: T::V)
    requires
        forall|i: int, j: int|
            0 <= i < j < records.len() ==> !record_before::<T>(
                #[trigger] records[j],
                #[trigger] records[i],
            ),
    ensures
        with_record::<T>(records, record).to_multiset() == records.push(record).to_multiset(),
        with_record::<T>(records, record).len() == records.len() + 1,
        forall|i: int, j: int|
            0 <= i < j < records.len() + 1 ==> !record_before::<T>(
                #[trigger] with_record::<T>(records, record)[j],
                #[trigger] with_record::<T>(records, record)[i],
            ),
        forall|i: int|
            0 <= i < records.len() + 1 ==> (#[trigger] with_record::<T>(records, record)[i] == record
                || records.contains(with_record::<T>(records, record)[i])),
    decreases records.len(),
{
    broadcast use vstd::seq_lib::group_to_multiset_ensures;

    let result = with_record::<T>(records, record);
    if records.len() > 0 && record_before::<T>(record, records.last()) {
        let front = records.drop_last();
        let last = records.last();
        assert forall|i: int, j: int| 0 <= i < j < front.len() implies !record_before::<T>(
            #[trigger] front[j],
            #[trigger] front[i],
        ) by {
            assert(front[j] == records[j] && front[i] == records[i]);
        }
        with_record_is_ordered::<T>(front, record);
        let inner = with_record::<T>(front, record);
        assert(result == inner.push(last));
        assert(records =~= front.push(last));
        assert(inner.push(last).to_multiset() =~= front.push(record).to_multiset().insert(last));
        assert(records.push(record).to_multiset() =~= front.push(record).to_multiset().insert(
            last,
        ));
        assert forall|i: int, j: int| 0 <= i < j < result.len() implies !record_before::<T>(
            #[trigger] result[j],
            #[trigger] result[i],
        ) by {
            if j == inner.len() {
                assert(inner[i] == record || front.contains(inner[i]));
                if inner[i] != record {
                    let k = choose|k: int| 0 <= k < front.len() && front[k] == inner[i];
                    assert(records[k] == inner[i] && records[records.len() - 1] == last);
                }
            } else {
                assert(inner[j] == result[j] && inner[i] == result[i]);
            }
        }
        assert forall|i: int| 0 <= i < result.len() implies (#[trigger] result[i] == record
            || records.contains(result[i])) by {
            if i < inner.len() {
                assert(inner[i] == record || front.contains(inner[i]));
                if inner[i] != record {
                    let k = choose|k: int| 0 <= k < front.len() && front[k] == inner[i];
                    assert(records[k] == result[i]);
                }
            } else {
                assert(records[records.len() - 1] == result[i]);
            }
        }
    } else {
        assert forall|i: int, j: int| 0 <= i < j < result.len() implies !record_before::<T>(
            #[trigger] result[j],
            #[trigger] result[i],
        ) by {
            if j == records.len() {
                if i < records.len() - 1 {
                    assert(!record_before::<T>(records[records.len() - 1], records[i]));
                }
            } else {
                assert(result[j] == records[j] && result[i] == records[i]);
            }
        }
        assert forall|i: int| 0 <= i < result.len() implies (#[trigger] result[i] == record
            || records.contains(result[i])) by {
            if i < records.len() {
                assert(records[i] == result[i]);
            }
        }
    }
}

/// Records in their order are the same records, and none comes before one in front of it.
pub proof fn order_keeps_records<T: Recorded>(records: Seq<T::V>)
    ensures
        in_order::<T>(records).to_multiset() == records.to_multiset(),
        in_order::<T>(records).len() == records.len(),
        forall|i: int, j: int|
            0 <= i < j < records.len() ==> !record_before::<T>(
                #[trigger] in_order::<T>(records)[j],
                #[trigger] in_order::<T>(records)[i],
            ),
    decreases records.len(),
{
    broadcast use vstd::seq_lib::group_to_multiset_ensures;

    if records.len() > 0 {
        let front = records.drop_last();
        order_keeps_records::<T>(front);
        with_record_is_ordered::<T>(in_order::<T>(front), records.last());
        assert(records =~= front.push(records.last()));
        assert(in_order::<T>(front).push(records.last()).to_multiset() =~= in_order::<T>(
            front,
        ).to_multiset().insert(records.last()));
    }
}

/// The records in their order.
pub fn ordered<T: Recorded>(records: Vec<T>) -> (result: Vec<T>)
    ensures
        views(result@) == in_order::<T>(views(records@)),
{
    let ghost all = views(records@);
    let mut records = records;
    let mut backwards: Vec<T> = Vec::new();
    while records.len() > 0
        invariant
            views(records@) == all.take(records.len() as int),
            records.len() + backwards.len() == all.len(),
            forall|i: int|
                0 <= i < backwards.len() ==> (#[trigger] backwards@[i])@ == all[all.len() - 1 - i],
        decreases records.len(),
    {
        let ghost before_pop = records@;
        let record = records.pop().unwrap();
        assert(before_pop.last()@ == all[before_pop.len() - 1]) by {
            assert(views(before_pop)[before_pop.len() - 1] == all.take(before_pop.len() as int)[
            before_pop.len() - 1]);
        }
        backwards.push(record);
        assert(views(records@) =~= all.take(records.len() as int)) by {
            assert forall|i: int| 0 <= i < records.len() implies views(records@)[i] == all[i] by {
                assert(views(before_pop)[i] == all.take(before_pop.len() as int)[i]);
            }
        }
    }
    let mut result: Vec<T> = Vec::new();
    assert(views(result@) =~= in_order::<T>(all.take(0)));
    while backwards.len() > 0
        invariant
            backwards.len() <= all.len(),
            forall|i: int|
                0 <= i < backwards.len() ==> (#[trigger] backwards@[i])@ == all[all.len() - 1 - i],
            views(result@) == in_order::<T>(all.take(all.len() - backwards.len())),
        decreases backwards.len(),
    {
        let ghost done = all.len() - backwards.len();
        let ghost next = backwards@.last();
        assert(next@ == all[done]) by {
            assert(backwards@[backwards.len() - 1] == next);
        }
        let record = backwards.pop().unwrap();
        assert(all.take(done + 1).drop_last() =~= all.take(done));
        put_record(&mut result, record);
    }
    assert(all.take(all.len() as int) =~= all);
    result
}

// ---------------------------------------------------------------------------------------------
// Places
// ---------------------------------------------------------------------------------------------
/// Why the store could not do what it was asked.
#[derive(Debug)]
pub enum StoreError {
    Io { action: String, path: String, message: String },
    Json { path: String, message: String },
    Model(ModelError),
    LocationMismatch { path: String, message: String },
    MissingClaimGeneration { issue: IssueNumber, claim_id: Id },
    ClaimGenerationMismatch { issue: IssueNumber, claim_id: Id },
    RunAlreadyExists { run_id: Id },
    RunNotFound { run_id: Id },
    InvalidRunTransition { run_id: Id, message: String },
    InvalidRunStore { path: String, message: String },
}

impl StoreError {
    pub open spec fn text(self) -> Seq<char> {
        match self {
            StoreError::Io { action, path, message } => "failed to "@ + action@ + " at "@ + path@
                + ": "@ + message@,
            StoreError::Json { path, message } => "invalid JSON at "@ + path@ + ": "@ + message@,
            StoreError::Model(error) => error.text(),
            StoreError::LocationMismatch { path, message } => "invalid store record location "@
                + path@ + ": "@ + message@,
            StoreError::MissingClaimGeneration { issue, claim_id } => "claim generation "@
                + id_text(claim_id) + " of issue "@ + decimal(issue as nat) + " is not recorded"@,
            StoreError::ClaimGenerationMismatch { issue, claim_id } => "claim generation "@
                + id_text(claim_id) + " of issue "@ + decimal(issue as nat)
                + " differs from its record"@,
            StoreError::RunAlreadyExists { run_id } => "run "@ + id_text(run_id)
                + " already exists"@,
            StoreError::RunNotFound { run_id } => "run "@ + id_text(run_id) + " does not exist"@,
            StoreError::InvalidRunTransition { run_id, message } => "run "@ + id_text(run_id)
                + " cannot change: "@ + message@,
            StoreError::InvalidRunStore { path, message } => "invalid run at "@ + path@ + ": "@
                + message@,
        }
    }

    pub fn message(&self) -> (text: String)
        ensures
            text@ == self.text(),
    {
        match self {
            StoreError::Io { action, path, message } => {
                let mut text = "failed to ".to_owned();
                text.append(action.as_str());
                text.append(" at ");
                text.append(path.as_str());
                text.append(": ");
                text.append(message.as_str());
                text
            },
            StoreError::Json { path, message } => {
                let mut text = "invalid JSON at ".to_owned();
                text.append(path.as_str());
                text.append(": ");
                text.append(message.as_str());
                text
            },
            StoreError::Model(error) => error.message(),
            StoreError::LocationMismatch { path, message } => {
                let mut text = "invalid store record location ".to_owned();
                text.append(path.as_str());
                text.append(": ");
                text.append(message.as_str());
                text
            },
            StoreError::MissingClaimGeneration { issue, claim_id } => {
                let mut text = "claim generation ".to_owned();
                text.append(id_string(*claim_id).as_str());
                text.append(" of issue ");
                text.append(decimal_text(*issue).as_str());
                text.append(" is not recorded");
                text
            },
            StoreError::ClaimGenerationMismatch { issue, claim_id } => {
                let mut text = "claim generation ".to_owned();
                text.append(id_string(*claim_id).as_str());
                text.append(" of issue ");
                text.append(decimal_text(*issue).as_str());
                text.append(" differs from its record");
                text
            },
            StoreError::RunAlreadyExists { run_id } => {
                let mut text = "run ".to_owned();
                text.append(id_string(*run_id).as_str());
                text.append(" already exists");
                text
            },
            StoreError::RunNotFound { run_id } => {
                let mut text = "run ".to_owned();
                text.append(id_string(*run_id).as_str());
                text.append(" does not exist");
                text
            },
            StoreError::InvalidRunTransition { run_id, message } => {
                let mut text = "run ".to_owned();
                text.append(id_string(*run_id).as_str());
                text.append(" cannot change: ");
                text.append(message.as_str());
                text
            },
            StoreError::InvalidRunStore { path, message } => {
                let mut text = "invalid run at ".to_owned();
                text.append(path.as_str());
                text.append(": ");
                text.append(message.as_str());
                text
            },
        }
    }
}

/// A store, by the directory that it is kept in.
#[derive(Debug)]
pub struct Store {
    pub directory: String,
}

/// The records of a store.
#[derive(Debug)]
pub struct Ledger {
    pub claims: Vec<Claim>,
    pub releases: Vec<ReleaseMarker>,
    pub operations: Vec<OperationRecord>,
}

pub fn clone_operations(operations: &Vec<OperationRecord>) -> (copy: Vec<OperationRecord>)
    ensures
        views(copy@) == views(operations@),
{
    let mut copy: Vec<OperationRecord> = Vec::new();
    let mut i: usize = 0;
    while i < operations.len()
        invariant
            i <= operations.len(),
            copy.len() == i,
            forall|j: int| 0 <= j < i ==> (#[trigger] copy@[j])@ == operations@[j]@,
        decreases operations.len() - i,
    {
        copy.push(operations[i].clone());
        i = i + 1;
    }
    assert(views(copy@) =~= views(operations@));
    copy
}

/// The file of a record.
pub open spec fn record_path(directory: Seq<char>, id: Id) -> Seq<char> {
    joined_path(directory, id_text(id) + ".json"@)
}

/// The journal entry of an operation.
pub open spec fn journal_path(root: Seq<char>, operation_id: Id) -> Seq<char> {
    record_path(joined_path(root, "operations"@), operation_id)
}

/// The directory of the records of an issue.
pub open spec fn issue_directory(
    root: Seq<char>,
    kind: Seq<char>,
    issue: IssueNumber,
) -> Seq<char> {
    joined_path(joined_path(root, kind), decimal(issue as nat))
}

/// The directory of a run.
pub open spec fn run_place(root: Seq<char>, run_id: Id) -> Seq<char> {
    joined_path(joined_path(root, "runs"@), id_text(run_id))
}

fn make_record_path(directory: &str, id: Id) -> (path: String)
    ensures
        path@ == record_path(directory@, id),
{
    let mut name = id_string(id);
    name.append(".json");
    join_path(directory, name.as_str())
}

impl Store {
    pub fn new(root: String) -> (store: Self)
        ensures
            store.directory@ == root@,
    {
        Store { directory: root }
    }

    pub fn root(&self) -> (root: &str)
        ensures
            root@ == self.directory@,
    {
        self.directory.as_str()
    }

    /// Where the journal entry of an operation lies.
    pub fn operation_path(&self, operation_id: Id) -> (path: String)
        ensures
            path@ == journal_path(self.directory@, operation_id),
    {
        let directory = join_path(self.directory.as_str(), "operations");
        make_record_path(directory.as_str(), operation_id)
    }

    /// Where the claims on an issue lie.
    pub fn claim_issue_directory(&self, issue: IssueNumber) -> (path: String)
        ensures
            path@ == issue_directory(self.directory@, "claims"@, issue),
    {
        let directory = join_path(self.directory.as_str(), "claims");
        join_path(directory.as_str(), decimal_text(issue).as_str())
    }

    /// Where the releases of claims on an issue lie.
    pub fn release_issue_directory(&self, issue: IssueNumber) -> (path: String)
        ensures
            path@ == issue_directory(self.directory@, "releases"@, issue),
    {
        let directory = join_path(self.directory.as_str(), "releases");
        join_path(directory.as_str(), decimal_text(issue).as_str())
    }

    /// Where a claim lies.
    pub fn claim_path(&self, claim: &Claim) -> (path: String)
        ensures
            path@ == record_path(
                issue_directory(self.directory@, "claims"@, claim@.issue),
                claim@.claim_id,
            ),
    {
        make_record_path(self.claim_issue_directory(claim.issue).as_str(), claim.claim_id)
    }

    /// Where a release lies.
    pub fn release_path(&self, release: &ReleaseMarker) -> (path: String)
        ensures
            path@ == record_path(
                issue_directory(self.directory@, "releases"@, release@.issue),
                release@.claim_id,
            ),
    {
        make_record_path(self.release_issue_directory(release.issue).as_str(), release.claim_id)
    }

    /// Where a run lies.
    pub fn run_directory(&self, run_id: Id) -> (path: String)
        ensures
            path@ == run_place(self.directory@, run_id),
    {
        let directory = join_path(self.directory.as_str(), "runs");
        join_path(directory.as_str(), id_string(run_id).as_str())
    }
}

/// What the name of a record file says in front of `.json`.
pub open spec fn record_stem(name: Seq<char>) -> Option<Seq<char>> {
    match without_suffix(name, ".json"@) {
        Some(stem) if stem.len() > 0 => Some(stem),
        _ => None,
    }
}

pub fn stem_of_record(name: &str) -> (stem: Option<String>)
    ensures
        optional(stem) == record_stem(name@),
{
    match strip_suffix(name, ".json") {
        Some(stem) => if stem.as_str().is_empty() {
            None
        } else {
            Some(stem)
        },
        None => None,
    }
}

// ---------------------------------------------------------------------------------------------
// Reading
// ---------------------------------------------------------------------------------------------
/// A file of the store: its name, and what it holds.
#[derive(Debug)]
pub struct RecordFile {
    pub name: String,
    pub bytes: Vec<u8>,
}

/// Whether a file is named by an identifier.
fn is_named_by(name: &str, id: Id) -> (result: bool)
    ensures
        result == (record_stem(name@) == Some(id_text(id))),
{
    match stem_of_record(name) {
        Some(stem) => same(stem.as_str(), id_string(id).as_str()),
        None => false,
    }
}

/// The verdict on where a record lies.
pub open spec fn location_verdict(
    placed: bool,
    directory: Seq<char>,
    name: Seq<char>,
    problem: Seq<char>,
    result: Result<(), StoreError>,
) -> bool {
    if placed {
        result is Ok
    } else {
        result matches Err(StoreError::LocationMismatch { path, message }) && path@ == joined_path(
            directory,
            name,
        ) && message@ == problem
    }
}

/// Refuses a claim that does not lie in the directory of its issue, in the file of its generation.
pub fn validate_claim_location(
    directory: &str,
    issue: IssueNumber,
    name: &str,
    claim: &Claim,
) -> (result: Result<(), StoreError>)
    ensures
        location_verdict(
            claim@.issue == issue && record_stem(name@) == Some(id_text(claim@.claim_id)),
            directory@,
            name@,
            "claim issue or claim_id does not match its storage path"@,
            result,
        ),
{
    if claim.issue != issue || !is_named_by(name, claim.claim_id) {
        return Err(
            StoreError::LocationMismatch {
                path: join_path(directory, name),
                message: "claim issue or claim_id does not match its storage path".to_owned(),
            },
        );
    }
    Ok(())
}

/// Refuses a release that does not lie in the directory of its issue, in the file of its
/// generation.
pub fn validate_release_location(
    directory: &str,
    issue: IssueNumber,
    name: &str,
    release: &ReleaseMarker,
) -> (result: Result<(), StoreError>)
    ensures
        location_verdict(
            release@.issue == issue && record_stem(name@) == Some(id_text(release@.claim_id)),
            directory@,
            name@,
            "release issue or claim_id does not match its storage path"@,
            result,
        ),
{
    if release.issue != issue || !is_named_by(name, release.claim_id) {
        return Err(
            StoreError::LocationMismatch {
                path: join_path(directory, name),
                message: "release issue or claim_id does not match its storage path".to_owned(),
            },
        );
    }
    Ok(())
}

/// Refuses an operation that does not lie in the file that is named by it.
pub fn validate_operation_location(
    directory: &str,
    name: &str,
    operation: &OperationRecord,
) -> (result: Result<(), StoreError>)
    ensures
        location_verdict(
            record_stem(name@) == Some(id_text(operation@.operation_id)),
            directory@,
            name@,
            "operation_id does not match its filename"@,
            result,
        ),
{
    if !is_named_by(name, operation.operation_id) {
        return Err(
            StoreError::LocationMismatch {
                path: join_path(directory, name),
                message: "operation_id does not match its filename".to_owned(),
            },
        );
    }
    Ok(())
}

/// What reading a claim from a file comes to.
pub open spec fn claim_reading(
    directory: Seq<char>,
    issue: IssueNumber,
    file: RecordFile,
    result: Result<Claim, StoreError>,
) -> bool {
    let path = joined_path(directory, file.name@);
    match json_document(file.bytes@) {
        Err(problem) => result matches Err(StoreError::Json { path: at, message }) && at@ == path
            && message@ == problem,
        Ok(value) => match claim_in(value) {
            None => result matches Err(StoreError::Model(ModelError::Json)),
            Some(claim) => match claim.problem() {
                Some(problem) => result matches Err(StoreError::Model(ModelError::Invalid(message)))
                    && message@ == problem,
                None => if claim.issue != issue || record_stem(file.name@) != Some(
                    id_text(claim.claim_id),
                ) {
                    result matches Err(StoreError::LocationMismatch { path: at, message }) && at@
                        == path && message@
                        == "claim issue or claim_id does not match its storage path"@
                } else {
                    result matches Ok(found) && found@ == claim
                },
            },
        },
    }
}

/// Reads a claim from a file of the directory of an issue, and checks that it lies where it
/// belongs.
pub fn read_claim_file(directory: &str, issue: IssueNumber, file: &RecordFile) -> (result: Result<
    Claim,
    StoreError,
>)
    ensures
        claim_reading(directory@, issue, *file, result),
{
    let path = join_path(directory, file.name.as_str());
    let value = match parse_json(&file.bytes) {
        Ok(value) => value,
        Err(message) => return Err(StoreError::Json { path, message }),
    };
    let claim = match Claim::from_value(&value) {
        Ok(claim) => claim,
        Err(error) => return Err(StoreError::Model(error)),
    };
    match validate_claim_location(directory, issue, file.name.as_str(), &claim) {
        Ok(()) => Ok(claim),
        Err(error) => Err(error),
    }
}

/// What reading a release from a file comes to.
pub open spec fn release_reading(
    directory: Seq<char>,
    issue: IssueNumber,
    file: RecordFile,
    result: Result<ReleaseMarker, StoreError>,
) -> bool {
    let path = joined_path(directory, file.name@);
    match json_document(file.bytes@) {
        Err(problem) => result matches Err(StoreError::Json { path: at, message }) && at@ == path
            && message@ == problem,
        Ok(value) => match release_in(value) {
            None => result matches Err(StoreError::Model(ModelError::Json)),
            Some(release) => match release.problem() {
                Some(problem) => result matches Err(StoreError::Model(ModelError::Invalid(message)))
                    && message@ == problem,
                None => if release.issue != issue || record_stem(file.name@) != Some(
                    id_text(release.claim_id),
                ) {
                    result matches Err(StoreError::LocationMismatch { path: at, message }) && at@
                        == path && message@
                        == "release issue or claim_id does not match its storage path"@
                } else {
                    result matches Ok(found) && found@ == release
                },
            },
        },
    }
}

/// Reads a release from a file of the directory of an issue, and checks that it lies where it
/// belongs.
pub fn read_release_file(directory: &str, issue: IssueNumber, file: &RecordFile) -> (result: Result<
    ReleaseMarker,
    StoreError,
>)
    ensures
        release_reading(directory@, issue, *file, result),
{
    let path = join_path(directory, file.name.as_str());
    let value = match parse_json(&file.bytes) {
        Ok(value) => value,
        Err(message) => return Err(StoreError::Json { path, message }),
    };
    let release = match ReleaseMarker::from_value(&value) {
        Ok(release) => release,
        Err(error) => return Err(StoreError::Model(error)),
    };
    match validate_release_location(directory, issue, file.name.as_str(), &release) {
        Ok(()) => Ok(release),
        Err(error) => Err(error),
    }
}

/// What reading an operation from a file comes to.
pub open spec fn operation_reading(
    directory: Seq<char>,
    file: RecordFile,
    result: Result<OperationRecord, StoreError>,
) -> bool {
    let path = joined_path(directory, file.name@);
    match json_document(file.bytes@) {
        Err(problem) => result matches Err(StoreError::Json { path: at, message }) && at@ == path
            && message@ == problem,
        Ok(value) => match operation_in(value) {
            None => result matches Err(StoreError::Model(ModelError::Json)),
            Some(operation) => match operation.problem() {
                Some(problem) => result matches Err(StoreError::Model(ModelError::Invalid(message)))
                    && message@ == problem,
                None => if record_stem(file.name@) != Some(id_text(operation.operation_id)) {
                    result matches Err(StoreError::LocationMismatch { path: at, message }) && at@
                        == path && message@ == "operation_id does not match its filename"@
                } else {
                    result matches Ok(found) && found@ == operation
                },
            },
        },
    }
}

/// Reads an operation from a file of the journal, and checks that it lies where it belongs.
pub fn read_operation_file(directory: &str, file: &RecordFile) -> (result: Result<
    OperationRecord,
    StoreError,
>)
    ensures
        operation_reading(directory@, *file, result),
{
    let path = join_path(directory, file.name.as_str());
    let value = match parse_json(&file.bytes) {
        Ok(value) => value,
        Err(message) => return Err(StoreError::Json { path, message }),
    };
    let operation = match OperationRecord::from_value(&value) {
        Ok(operation) => operation,
        Err(error) => return Err(StoreError::Model(error)),
    };
    match validate_operation_location(directory, file.name.as_str(), &operation) {
        Ok(()) => Ok(operation),
        Err(error) => Err(error),
    }
}

/// The claim that a file of the store holds, where it holds one that belongs there.
pub open spec fn claim_at(issue: IssueNumber, file: RecordFile) -> Option<ClaimView> {
    match json_document(file.bytes@) {
        Err(_) => None,
        Ok(value) => match claim_in(value) {
            Some(claim) if claim.problem() is None && claim.issue == issue
                && record_stem(file.name@) == Some(id_text(claim.claim_id)) => Some(claim),
            _ => None,
        },
    }
}

/// The claims that the record files among the files hold, where every one of them holds one.
pub open spec fn claims_at(issue: IssueNumber, files: Seq<RecordFile>) -> Option<Seq<ClaimView>>
    decreases files.len(),
{
    if files.len() == 0 {
        Some(Seq::empty())
    } else if record_stem(files.last().name@) is None {
        claims_at(issue, files.drop_last())
    } else {
        match (claims_at(issue, files.drop_last()), claim_at(issue, files.last())) {
            (Some(claims), Some(claim)) => Some(claims.push(claim)),
            _ => None,
        }
    }
}

/// Reads the claims on an issue from the files of its directory, in their order. Files that are no
/// records are left alone; the first record that cannot be read is reported.
pub fn load_claims(
    directory: &str,
    issue: IssueNumber,
    files: &Vec<RecordFile>,
) -> (result: Result<Vec<Claim>, StoreError>)
    ensures
        match result {
            Ok(claims) => claims_at(issue, files@) matches Some(read) && views(claims@)
                == in_order::<Claim>(read),
            Err(error) => claims_at(issue, files@) is None && exists|i: int|
                0 <= i < files.len() && record_stem(files@[i].name@) is Some && claims_at(
                    issue, files@.take(i),
                ) is Some && claim_reading(directory@, issue, #[trigger] files@[i], Err(error)),
        },
{
    let mut claims: Vec<Claim> = Vec::new();
    let mut i: usize = 0;
    assert(files@.take(0) =~= Seq::empty());
    assert(views(claims@) =~= Seq::empty());
    while i < files.len()
        invariant
            i <= files.len(),
            claims_at(issue, files@.take(i as int)) == Some(views(claims@)),
        decreases files.len() - i,
    {
        let ghost done = views(claims@);
        assert(files@.take(i + 1).drop_last() =~= files@.take(i as int));
        if stem_of_record(files[i].name.as_str()).is_some() {
            match read_claim_file(directory, issue, &files[i]) {
                Ok(claim) => {
                    claims.push(claim);
                    assert(views(claims@) =~= done.push(claim_at(issue, files@[i as int])->0));
                },
                Err(error) => {
                    proof {
                        assert(claim_at(issue, files@[i as int]) is None);
                        unreadable_claims(issue, files@, i + 1);
                        assert(claim_reading(directory@, issue, files@[i as int], Err(error)));
                    }
                    return Err(error);
                },
            }
        }
        i = i + 1;
    }
    assert(files@.take(i as int) =~= files@);
    Ok(ordered(claims))
}

/// Files of which a part at the front cannot be read cannot be read.
proof fn unreadable_claims(issue: IssueNumber, files: Seq<RecordFile>, end: int)
    requires
        0 <= end <= files.len(),
        claims_at(issue, files.take(end)) is None,
    ensures
        claims_at(issue, files) is None,
    decreases files.len() - end,
{
    if end < files.len() {
        assert(files.take(end + 1).drop_last() =~= files.take(end));
        unreadable_claims(issue, files, end + 1);
    } else {
        assert(files.take(end) =~= files);
    }
}

/// The release that a file of the store holds, where it holds one that belongs there.
pub open spec fn release_at(issue: IssueNumber, file: RecordFile) -> Option<ReleaseView> {
    match json_document(file.bytes@) {
        Err(_) => None,
        Ok(value) => match release_in(value) {
            Some(release) if release.problem() is None && release.issue == issue
                && record_stem(file.name@) == Some(id_text(release.claim_id)) => Some(release),
            _ => None,
        },
    }
}

/// The releases that the record files among the files hold, where every one of them holds one.
pub open spec fn releases_at(issue: IssueNumber, files: Seq<RecordFile>) -> Option<Seq<ReleaseView>>
    decreases files.len(),
{
    if files.len() == 0 {
        Some(Seq::empty())
    } else if record_stem(files.last().name@) is None {
        releases_at(issue, files.drop_last())
    } else {
        match (releases_at(issue, files.drop_last()), release_at(issue, files.last())) {
            (Some(releases), Some(release)) => Some(releases.push(release)),
            _ => None,
        }
    }
}

/// Reads the releases of claims on an issue from the files of its directory, in their order. Files
/// that are no records are left alone; the first record that cannot be read is reported.
pub fn load_releases(
    directory: &str,
    issue: IssueNumber,
    files: &Vec<RecordFile>,
) -> (result: Result<Vec<ReleaseMarker>, StoreError>)
    ensures
        match result {
            Ok(releases) => releases_at(issue, files@) matches Some(read) && views(releases@)
                == in_order::<ReleaseMarker>(read),
            Err(error) => releases_at(issue, files@) is None && exists|i: int|
                0 <= i < files.len() && record_stem(files@[i].name@) is Some && releases_at(
                    issue, files@.take(i),
                ) is Some && release_reading(directory@, issue, #[trigger] files@[i], Err(error)),
        },
{
    let mut releases: Vec<ReleaseMarker> = Vec::new();
    let mut i: usize = 0;
    assert(files@.take(0) =~= Seq::empty());
    assert(views(releases@) =~= Seq::empty());
    while i < files.len()
        invariant
            i <= files.len(),
            releases_at(issue, files@.take(i as int)) == Some(views(releases@)),
        decreases files.len() - i,
    {
        let ghost done = views(releases@);
        assert(files@.take(i + 1).drop_last() =~= files@.take(i as int));
        if stem_of_record(files[i].name.as_str()).is_some() {
            match read_release_file(directory, issue, &files[i]) {
                Ok(release) => {
                    releases.push(release);
                    assert(views(releases@) =~= done.push(release_at(issue, files@[i as int])->0));
                },
                Err(error) => {
                    proof {
                        assert(release_at(issue, files@[i as int]) is None);
                        unreadable_releases(issue, files@, i + 1);
                        assert(release_reading(directory@, issue, files@[i as int], Err(error)));
                    }
                    return Err(error);
                },
            }
        }
        i = i + 1;
    }
    assert(files@.take(i as int) =~= files@);
    Ok(ordered(releases))
}

/// Files of which a part at the front cannot be read cannot be read.
proof fn unreadable_releases(issue: IssueNumber, files: Seq<RecordFile>, end: int)
    requires
        0 <= end <= files.len(),
        releases_at(issue, files.take(end)) is None,
    ensures
        releases_at(issue, files) is None,
    decreases files.len() - end,
{
    if end < files.len() {
        assert(files.take(end + 1).drop_last() =~= files.take(end));
        unreadable_releases(issue, files, end + 1);
    } else {
        assert(files.take(end) =~= files);
    }
}

/// The operation that a file of the store holds, where it holds one that belongs there.
pub open spec fn operation_at(file: RecordFile) -> Option<OperationView> {
    match json_document(file.bytes@) {
        Err(_) => None,
        Ok(value) => match operation_in(value) {
            Some(operation) if operation.problem() is None && record_stem(
                file.name@,
            ) == Some(id_text(operation.operation_id)) => Some(operation),
            _ => None,
        },
    }
}

/// The operations that the record files among the files hold, where every one of them holds one.
pub open spec fn operations_at(files: Seq<RecordFile>) -> Option<Seq<OperationView>>
    decreases files.len(),
{
    if files.len() == 0 {
        Some(Seq::empty())
    } else if record_stem(files.last().name@) is None {
        operations_at(files.drop_last())
    } else {
        match (operations_at(files.drop_last()), operation_at(files.last())) {
            (Some(operations), Some(operation)) => Some(operations.push(operation)),
            _ => None,
        }
    }
}

/// Reads the operations under way from the files of the journal, in their order. Files that are no
/// records are left alone; the first record that cannot be read is reported.
pub fn load_operations(
    directory: &str,
    files: &Vec<RecordFile>,
) -> (result: Result<Vec<OperationRecord>, StoreError>)
    ensures
        match result {
            Ok(operations) => operations_at(files@) matches Some(read) && views(operations@)
                == in_order::<OperationRecord>(read),
            Err(error) => operations_at(files@) is None && exists|i: int|
                0 <= i < files.len() && record_stem(files@[i].name@) is Some && operations_at(
                    files@.take(i),
                ) is Some && operation_reading(directory@, #[trigger] files@[i], Err(error)),
        },
{
    let mut operations: Vec<OperationRecord> = Vec::new();
    let mut i: usize = 0;
    assert(files@.take(0) =~= Seq::empty());
    assert(views(operations@) =~= Seq::empty());
    while i < files.len()
        invariant
            i <= files.len(),
            operations_at(files@.take(i as int)) == Some(views(operations@)),
        decreases files.len() - i,
    {
        let ghost done = views(operations@);
        assert(files@.take(i + 1).drop_last() =~= files@.take(i as int));
        if stem_of_record(files[i].name.as_str()).is_some() {
            match read_operation_file(directory, &files[i]) {
                Ok(operation) => {
                    operations.push(operation);
                    assert(views(operations@) =~= done.push(operation_at(files@[i as int])->0));
                },
                Err(error) => {
                    proof {
                        assert(operation_at(files@[i as int]) is None);
                        unreadable_operations(files@, i + 1);
                        assert(operation_reading(directory@, files@[i as int], Err(error)));
                    }
                    return Err(error);
                },
            }
        }
        i = i + 1;
    }
    assert(files@.take(i as int) =~= files@);
    Ok(ordered(operations))
}

/// Files of which a part at the front cannot be read cannot be read.
proof fn unreadable_operations(files: Seq<RecordFile>, end: int)
    requires
        0 <= end <= files.len(),
        operations_at(files.take(end)) is None,
    ensures
        operations_at(files) is None,
    decreases files.len() - end,
{
    if end < files.len() {
        assert(files.take(end + 1).drop_last() =~= files.take(end));
        unreadable_operations(files, end + 1);
    } else {
        assert(files.take(end) =~= files);
    }
}

// ---------------------------------------------------------------------------------------------
// Active claims
// ---------------------------------------------------------------------------------------------
/// Whether the very generation has been released.
pub open spec fn is_released(claim: ClaimView, releases: Seq<ReleaseView>) -> bool {
    exists|i: int|
        0 <= i < releases.len() && (#[trigger] releases[i]).issue == claim.issue
            && releases[i].claim_id == claim.claim_id
}

/// The claims that have not been released.
pub open spec fn unreleased(claims: Seq<ClaimView>, releases: Seq<ReleaseView>) -> Seq<ClaimView>
    decreases claims.len(),
{
    if claims.len() == 0 {
        Seq::empty()
    } else if is_released(claims.last(), releases) {
        unreleased(claims.drop_last(), releases)
    } else {
        unreleased(claims.drop_last(), releases).push(claims.last())
    }
}

/// The claims that hold, in their order.
pub open spec fn active(claims: Seq<ClaimView>, releases: Seq<ReleaseView>) -> Seq<ClaimView> {
    in_order::<Claim>(unreleased(claims, releases))
}

fn has_release(claim: &Claim, releases: &Vec<ReleaseMarker>) -> (result: bool)
    ensures
        result == is_released(claim@, views(releases@)),
{
    let mut i: usize = 0;
    while i < releases.len()
        invariant
            i <= releases.len(),
            forall|j: int|
                0 <= j < i ==> !((#[trigger] views(releases@)[j]).issue == claim@.issue && views(
                    releases@,
                )[j].claim_id == claim@.claim_id),
        decreases releases.len() - i,
    {
        if releases[i].issue == claim.issue && releases[i].claim_id == claim.claim_id {
            assert(views(releases@)[i as int].issue == claim@.issue);
            return true;
        }
        i = i + 1;
    }
    false
}

/// The claims that hold: all that are recorded and have not been released, in their order.
pub fn active_claims(claims: &Vec<Claim>, releases: &Vec<ReleaseMarker>) -> (result: Vec<Claim>)
    ensures
        views(result@) == active(views(claims@), views(releases@)),
{
    let ghost all = views(claims@);
    let mut found: Vec<Claim> = Vec::new();
    let mut i: usize = 0;
    assert(all.take(0) =~= Seq::empty());
    assert(views(found@) =~= Seq::empty());
    while i < claims.len()
        invariant
            i <= claims.len(),
            all == views(claims@),
            views(found@) == unreleased(all.take(i as int), views(releases@)),
        decreases claims.len() - i,
    {
        let ghost done = views(found@);
        assert(all.take(i + 1).drop_last() =~= all.take(i as int));
        assert(all.take(i + 1).last() == claims@[i as int]@);
        if !has_release(&claims[i], releases) {
            found.push(claims[i].clone());
            assert(views(found@) =~= done.push(claims@[i as int]@));
        }
        i = i + 1;
    }
    assert(all.take(i as int) =~= all);
    ordered(found)
}

/// A claim is active exactly where it is recorded and has not been released.
pub proof fn active_means_unreleased(
    claims: Seq<ClaimView>,
    releases: Seq<ReleaseView>,
    claim: ClaimView,
)
    ensures
        active(claims, releases).contains(claim) <==> claims.contains(claim) && !is_released(
            claim,
            releases,
        ),
{
    broadcast use vstd::seq_lib::group_to_multiset_ensures;

    let left = unreleased(claims, releases);
    order_keeps_records::<Claim>(left);
    unreleased_contains(claims, releases, claim);
    let sorted = in_order::<Claim>(left);
    assert(sorted.to_multiset().count(claim) == left.to_multiset().count(claim));
    assert(sorted.contains(claim) <==> sorted.to_multiset().count(claim) > 0);
    assert(left.contains(claim) <==> left.to_multiset().count(claim) > 0);
}

proof fn unreleased_contains(
    claims: Seq<ClaimView>,
    releases: Seq<ReleaseView>,
    claim: ClaimView,
)
    ensures
        unreleased(claims, releases).contains(claim) <==> claims.contains(claim) && !is_released(
            claim,
            releases,
        ),
    decreases claims.len(),
{
    if claims.len() > 0 {
        let front = claims.drop_last();
        unreleased_contains(front, releases, claim);
        let left = unreleased(front, releases);
        let result = unreleased(claims, releases);
        if claims.contains(claim) && !is_released(claim, releases) {
            let k = choose|k: int| 0 <= k < claims.len() && claims[k] == claim;
            if k < front.len() {
                assert(front[k] == claim);
                let m = choose|m: int| 0 <= m < left.len() && left[m] == claim;
                assert(result[m] == claim);
            } else {
                assert(result[result.len() - 1] == claim);
            }
        }
        if result.contains(claim) {
            let m = choose|m: int| 0 <= m < result.len() && result[m] == claim;
            if m < left.len() {
                assert(left[m] == claim);
                let k = choose|k: int| 0 <= k < front.len() && front[k] == claim;
                assert(claims[k] == claim);
            } else {
                assert(claims[claims.len() - 1] == claim);
            }
        }
    }
}

// ---------------------------------------------------------------------------------------------
// Runs
// ---------------------------------------------------------------------------------------------
fn same_refs(a: &Vec<crate::model::WaitForRef>, b: &Vec<crate::model::WaitForRef>) -> (equal: bool)
    ensures
        equal == (a@ == b@),
{
    if a.len() != b.len() {
        return false;
    }
    let mut i: usize = 0;
    while i < a.len()
        invariant
            i <= a.len(),
            a.len() == b.len(),
            forall|j: int| 0 <= j < i ==> a@[j] == b@[j],
        decreases a.len() - i,
    {
        if a[i] != b[i] {
            return false;
        }
        i = i + 1;
    }
    assert(a@ =~= b@);
    true
}

fn same_scope(
    a: &Option<crate::model::DeclaredScope>,
    b: &Option<crate::model::DeclaredScope>,
) -> (equal: bool)
    ensures
        equal == (optional(*a) == optional(*b)),
{
    match (a, b) {
        (Some(a), Some(b)) => same_texts(&a.allowed_paths, &b.allowed_paths)
            && same_texts(&a.disallowed_paths, &b.disallowed_paths),
        (None, None) => true,
        (Some(_), None) => false,
        (None, Some(_)) => false,
    }
}

/// Whether two claims are the same: in every field, and in the worktree that they name.
pub open spec fn alike(a: ClaimView, b: ClaimView) -> bool {
    (ClaimView { worktree: b.worktree, ..a }) == b && same_path(a.worktree, b.worktree)
}

pub fn same_claim(a: &Claim, b: &Claim) -> (equal: bool)
    ensures
        equal == alike(a@, b@),
{
    same(a.schema_version.as_str(), b.schema_version.as_str()) && a.claim_id == b.claim_id && same(
        a.repo.as_str(),
        b.repo.as_str(),
    ) && a.issue == b.issue && same_optional(&a.title, &b.title) && same(
        a.branch.as_str(),
        b.branch.as_str(),
    ) && is_same_path(a.worktree.as_str(), b.worktree.as_str()) && same(
        a.base_remote.as_str(),
        b.base_remote.as_str(),
    ) && same(a.base_ref.as_str(), b.base_ref.as_str()) && same(
        a.base_sha.as_str(),
        b.base_sha.as_str(),
    ) && a.base_issue == b.base_issue && a.base_claim_id == b.base_claim_id && same_refs(
        &a.wait_for,
        &b.wait_for,
    ) && same_scope(&a.declared_scope, &b.declared_scope) && same_optional(&a.note, &b.note)
        && a.created_at == b.created_at
}

/// What a run is started with.
#[derive(Debug)]
pub struct NewRun {
    pub run_id: Id,
    pub agent: String,
    pub mode: RunMode,
    pub created_at: Timestamp,
}

/// The record of a run that has just been put in line for a claim.
pub open spec fn queued_run(root: Seq<char>, claim: ClaimView, new: NewRun) -> RunView {
    let place = run_place(root, new.run_id);
    RunView {
        schema_version: SCHEMA_VERSION@,
        run_id: new.run_id,
        repo: claim.repo,
        claim_id: claim.claim_id,
        issue: claim.issue,
        agent: new.agent@,
        mode: new.mode,
        state: RunState::Queued,
        worktree: claim.worktree,
        worker_pid: None,
        child_pid: None,
        created_at: new.created_at,
        started_at: None,
        finished_at: None,
        exit_code: None,
        prompt_path: joined_path(place, "prompt.md"@),
        stdout_path: joined_path(place, "stdout.log"@),
        stderr_path: joined_path(place, "stderr.log"@),
        error: None,
    }
}

/// The first of the claims of that generation.
pub open spec fn generation_in(claims: Seq<ClaimView>, id: Id) -> Option<ClaimView>
    decreases claims.len(),
{
    if claims.len() == 0 {
        None
    } else if claims[0].claim_id == id {
        Some(claims[0])
    } else {
        generation_in(claims.drop_first(), id)
    }
}

/// What putting a run in line comes to: it belongs to the exact claim that is recorded, its
/// identifier is new, and its record obeys the rules.
pub open spec fn new_run_outcome(
    root: Seq<char>,
    recorded: Seq<ClaimView>,
    claim: ClaimView,
    exists_already: bool,
    new: NewRun,
    result: Result<RunRecord, StoreError>,
) -> bool {
    match generation_in(recorded, claim.claim_id) {
        None => result == Err::<RunRecord, _>(
            StoreError::MissingClaimGeneration { issue: claim.issue, claim_id: claim.claim_id },
        ),
        Some(found) => if !alike(found, claim) {
            result == Err::<RunRecord, _>(
                StoreError::ClaimGenerationMismatch {
                    issue: claim.issue,
                    claim_id: claim.claim_id,
                },
            )
        } else if exists_already {
            result == Err::<RunRecord, _>(StoreError::RunAlreadyExists { run_id: new.run_id })
        } else {
            match queued_run(root, claim, new).problem() {
                Some(problem) => result matches Err(StoreError::Model(ModelError::Invalid(message)))
                    && message@ == problem,
                None => result matches Ok(run) && run@ == queued_run(root, claim, new),
            }
        },
    }
}

impl Store {
    /// Puts a run in line for a claim, among the claims that are recorded on its issue.
    pub fn create_run(
        &self,
        recorded: &Vec<Claim>,
        claim: &Claim,
        exists_already: bool,
        new: NewRun,
    ) -> (result: Result<RunRecord, StoreError>)
        ensures
            new_run_outcome(
                self.directory@,
                views(recorded@),
                claim@,
                exists_already,
                new,
                result,
            ),
    {
        let ghost all = views(recorded@);
        let mut i: usize = 0;
        assert(all.skip(0) =~= all);
        while i < recorded.len() && recorded[i].claim_id != claim.claim_id
            invariant
                i <= recorded.len(),
                all == views(recorded@),
                generation_in(all, claim.claim_id) == generation_in(
                    all.skip(i as int),
                    claim.claim_id,
                ),
            decreases recorded.len() - i,
        {
            assert(all.skip(i as int)[0] == recorded@[i as int]@);
            assert(all.skip(i as int).drop_first() =~= all.skip(i + 1));
            i = i + 1;
        }
        if i == recorded.len() {
            return Err(
                StoreError::MissingClaimGeneration { issue: claim.issue, claim_id: claim.claim_id },
            );
        }
        assert(all.skip(i as int)[0] == recorded@[i as int]@);
        if !same_claim(&recorded[i], claim) {
            return Err(
                StoreError::ClaimGenerationMismatch {
                    issue: claim.issue,
                    claim_id: claim.claim_id,
                },
            );
        }
        if exists_already {
            return Err(StoreError::RunAlreadyExists { run_id: new.run_id });
        }
        let place = self.run_directory(new.run_id);
        let ghost wanted = queued_run(self.directory@, claim@, new);
        let run = RunRecord {
            schema_version: SCHEMA_VERSION.to_owned(),
            run_id: new.run_id,
            repo: claim.repo.clone(),
            claim_id: claim.claim_id,
            issue: claim.issue,
            agent: new.agent.clone(),
            mode: new.mode,
            state: RunState::Queued,
            worktree: claim.worktree.clone(),
            worker_pid: None,
            child_pid: None,
            created_at: new.created_at,
            started_at: None,
            finished_at: None,
            exit_code: None,
            prompt_path: join_path(place.as_str(), "prompt.md"),
            stdout_path: join_path(place.as_str(), "stdout.log"),
            stderr_path: join_path(place.as_str(), "stderr.log"),
            error: None,
        };
        assert(run@ == wanted);
        match run.validate() {
            Ok(()) => Ok(run),
            Err(error) => Err(StoreError::Model(error)),
        }
    }
}

/// What an event does to the stored run: the changed run is stored where the event can happen and
/// leaves a valid run, and else the stored one stays.
pub open spec fn stored_transition(
    stored: Option<RunView>,
    run_id: Id,
    transition: RunTransition,
    result: Result<RunRecord, StoreError>,
) -> bool {
    match stored {
        None => result == Err::<RunRecord, _>(StoreError::RunNotFound { run_id }),
        Some(run) => match transition.outcome(run) {
            None => result matches Err(StoreError::InvalidRunTransition { run_id: id, message })
                && id == run_id && message@ == "run cannot transition from "@ + run.state.name()
                + " using the requested event"@,
            Some(next) => match next.problem() {
                None => result matches Ok(changed) && changed@ == next,
                Some(problem) => result matches Err(
                    StoreError::InvalidRunTransition { run_id: id, message },
                ) && id == run_id && message@ == problem,
            },
        },
    }
}

/// The run to store after an event.
pub fn transition_run(
    stored: &Option<RunRecord>,
    run_id: Id,
    transition: RunTransition,
) -> (result: Result<RunRecord, StoreError>)
    ensures
        stored_transition(optional(*stored), run_id, transition, result),
{
    let mut run = match stored {
        Some(run) => run.clone(),
        None => return Err(StoreError::RunNotFound { run_id }),
    };
    match run.apply_transition(transition) {
        Ok(()) => Ok(run),
        Err(ModelError::Invalid(message)) => Err(StoreError::InvalidRunTransition { run_id, message }),
        Err(ModelError::Json) => Err(StoreError::Model(ModelError::Json)),
    }
}

} // verus!
