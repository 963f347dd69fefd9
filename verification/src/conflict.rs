//! Conflicts: where the changes of claims meet, and where they leave the scope that was declared.
use globset::{GlobBuilder, GlobSet};
use vstd::prelude::*;
use vstd::string::*;

use crate::id::{Id, IssueNumber};
use crate::model::{Claim, ClaimView, ScopeView};
use crate::observation::{ClaimObservation, DiffSummary, DiffView, ObservationView};
use crate::text::{
    ascending_texts, ascending_texts_are_sorted, before, clone_texts, contains_text, insert_text,
    is_before, optional, pairs, quote, quoted, same, same_texts, strip_prefix, views, with_text,
    without_prefix,
};

verus! {

/// What another claim is to a claim.
#[derive(Clone, Copy, Debug, PartialEq, Eq, Structural)]
pub enum OverlapRelationship {
    Sibling,
    Unrelated,
    Ancestor,
    Descendant,
    Consolidation,
}

/// Whether both claims track the paths that they share.
#[derive(Clone, Copy, Debug, PartialEq, Eq, Structural)]
pub enum OverlapConfidence {
    Full,
    Untracked,
}

#[derive(Clone, Copy, Debug, PartialEq, Eq, Structural)]
pub enum OverlapSeverity {
    Info,
    Warning,
    Blocking,
}

/// Paths that a claim shares with another one, of one confidence, one severity and one list of
/// risk labels.
#[derive(Debug)]
pub struct DiffOverlap {
    pub with_issue: IssueNumber,
    pub with_claim_id: Id,
    pub relationship: OverlapRelationship,
    pub shared_paths: Vec<String>,
    pub confidence: OverlapConfidence,
    pub severity: OverlapSeverity,
    pub labels: Vec<String>,
}

pub struct OverlapView {
    pub with_issue: IssueNumber,
    pub with_claim_id: Id,
    pub relationship: OverlapRelationship,
    pub shared_paths: Seq<Seq<char>>,
    pub confidence: OverlapConfidence,
    pub severity: OverlapSeverity,
    pub labels: Seq<Seq<char>>,
}

impl View for DiffOverlap {
    type V = OverlapView;

    open spec fn view(&self) -> OverlapView {
        OverlapView {
            with_issue: self.with_issue,
            with_claim_id: self.with_claim_id,
            relationship: self.relationship,
            shared_paths: views(self.shared_paths@),
            confidence: self.confidence,
            severity: self.severity,
            labels: views(self.labels@),
        }
    }
}

impl Clone for DiffOverlap {
    fn clone(&self) -> (copy: Self)
        ensures
            copy@ == self@,
    {
        DiffOverlap {
            with_issue: self.with_issue,
            with_claim_id: self.with_claim_id,
            relationship: self.relationship,
            shared_paths: clone_texts(&self.shared_paths),
            confidence: self.confidence,
            severity: self.severity,
            labels: clone_texts(&self.labels),
        }
    }
}

#[derive(Clone, Copy, Debug, PartialEq, Eq, Structural)]
pub enum ScopeWarningReason {
    OutsideAllowedScope,
    InsideDisallowedScope,
}

/// A changed path that the declared scope does not cover.
#[derive(Debug)]
pub struct ScopeWarning {
    pub path: String,
    pub reason: ScopeWarningReason,
}

pub struct ScopeWarningView {
    pub path: Seq<char>,
    pub reason: ScopeWarningReason,
}

impl View for ScopeWarning {
    type V = ScopeWarningView;

    open spec fn view(&self) -> ScopeWarningView {
        ScopeWarningView { path: self.path@, reason: self.reason }
    }
}

impl Clone for ScopeWarning {
    fn clone(&self) -> (copy: Self)
        ensures
            copy@ == self@,
    {
        ScopeWarning { path: self.path.clone(), reason: self.reason }
    }
}

/// Why claims could not be analyzed.
#[derive(Debug)]
pub enum ConflictError {
    InvalidGlob { pattern: String, message: String },
}

impl ConflictError {
    pub open spec fn text(self) -> Seq<char> {
        match self {
            ConflictError::InvalidGlob { pattern, message } => "invalid path glob "@ + quoted(pattern@)
                + ": "@ + message@,
        }
    }

    pub fn message(&self) -> (text: String)
        ensures
            text@ == self.text(),
    {
        match self {
            ConflictError::InvalidGlob { pattern, message } => {
                let mut text = "invalid path glob ".to_owned();
                text.append(quote(pattern.as_str()).as_str());
                text.append(": ");
                text.append(message.as_str());
                text
            },
        }
    }
}

// ---------------------------------------------------------------------------------------------
// Globs
// ---------------------------------------------------------------------------------------------
/// Why a pattern is no glob, where it is none.
pub uninterp spec fn glob_fault(pattern: Seq<char>) -> Option<Seq<char>>;

/// Whether a path matches a glob whose wildcards stay within a segment, and whose backslashes
/// stand for themselves.
pub uninterp spec fn glob_hit(pattern: Seq<char>, path: Seq<char>) -> bool;

/// `GlobBuilder::build`, with literal separators and without escapes, and then `GlobSet::new`:
/// what the first of them that fails says of the pattern. What the syntax of globs is stays
/// unsaid; the result is named by the pattern alone.
#[verifier::external_body]
fn glob_failure(pattern: &str) -> (message: Option<String>)
    ensures
        optional(message) == glob_fault(pattern@),
{
    GlobBuilder::new(pattern).literal_separator(true).backslash_escape(false).build().and_then(
        |glob| GlobSet::new([glob]),
    ).err().map(|error| error.to_string())
}

/// `GlobSet::is_match` of the one glob that `GlobBuilder::build` makes of the pattern, with
/// literal separators and without escapes. Which paths match is named by the pattern and the path.
#[verifier::external_body]
fn glob_is_match(pattern: &str, path: &str) -> (matched: bool)
    requires
        glob_fault(pattern@) is None,
    ensures
        matched == glob_hit(pattern@, path@),
{
    GlobBuilder::new(pattern).literal_separator(true).backslash_escape(false).build().and_then(
        |glob| GlobSet::new([glob]),
    ).is_ok_and(|globs| globs.is_match(path))
}

/// A pattern as it is seen from the root of the repository: without a leading `./`.
pub open spec fn rooted(pattern: Seq<char>) -> Seq<char> {
    match without_prefix(pattern, "./"@) {
        Some(rest) => rest,
        None => pattern,
    }
}

/// Why a pattern is no glob, where it is none.
pub open spec fn pattern_fault(pattern: Seq<char>) -> Option<Seq<char>> {
    glob_fault(rooted(pattern))
}

/// Whether a path of the repository matches a pattern.
pub open spec fn pattern_hit(pattern: Seq<char>, path: Seq<char>) -> bool {
    glob_hit(rooted(pattern), path)
}

fn rooted_pattern(pattern: &str) -> (result: String)
    ensures
        result@ == rooted(pattern@),
{
    match strip_prefix(pattern, "./") {
        Some(rest) => rest,
        None => pattern.to_owned(),
    }
}

/// The verdict on a pattern: the fault of the pattern is what is reported.
pub open spec fn glob_verdict(
    result: Result<(), ConflictError>,
    fault: Option<(Seq<char>, Seq<char>)>,
) -> bool {
    match result {
        Ok(_) => fault is None,
        Err(ConflictError::InvalidGlob { pattern, message }) => fault == Some((pattern@, message@)),
    }
}

/// A pattern together with its fault.
pub open spec fn fault_of(pattern: Seq<char>) -> Option<(Seq<char>, Seq<char>)> {
    match pattern_fault(pattern) {
        Some(message) => Some((pattern, message)),
        None => None,
    }
}

pub fn validate_glob_pattern(pattern: &str) -> (result: Result<(), ConflictError>)
    ensures
        glob_verdict(result, fault_of(pattern@)),
{
    let plain = rooted_pattern(pattern);
    match glob_failure(plain.as_str()) {
        None => Ok(()),
        Some(message) => Err(ConflictError::InvalidGlob { pattern: pattern.to_owned(), message }),
    }
}

/// The first of the patterns that is no glob.
pub open spec fn first_fault(patterns: Seq<Seq<char>>) -> Option<(Seq<char>, Seq<char>)>
    decreases patterns.len(),
{
    if patterns.len() == 0 {
        None
    } else {
        match first_fault(patterns.drop_last()) {
            Some(fault) => Some(fault),
            None => fault_of(patterns.last()),
        }
    }
}

proof fn no_fault(patterns: Seq<Seq<char>>)
    requires
        first_fault(patterns) is None,
    ensures
        forall|i: int| 0 <= i < patterns.len() ==> pattern_fault(#[trigger] patterns[i]) is None,
    decreases patterns.len(),
{
    if patterns.len() > 0 {
        no_fault(patterns.drop_last());
        assert forall|i: int| 0 <= i < patterns.len() implies pattern_fault(#[trigger] patterns[i]) is None by {
            if i < patterns.len() - 1 {
                assert(patterns[i] == patterns.drop_last()[i]);
            }
        }
    }
}

fn validate_patterns(patterns: &Vec<String>) -> (result: Result<(), ConflictError>)
    ensures
        glob_verdict(result, first_fault(views(patterns@))),
{
    let ghost all = views(patterns@);
    let mut i: usize = 0;
    assert(all.take(0) =~= Seq::empty());
    while i < patterns.len()
        invariant
            i <= patterns.len(),
            all == views(patterns@),
            first_fault(all.take(i as int)) is None,
        decreases patterns.len() - i,
    {
        assert(all.take(i + 1).drop_last() =~= all.take(i as int));
        assert(all.take(i + 1).last() == patterns@[i as int]@);
        match validate_glob_pattern(patterns[i].as_str()) {
            Ok(()) => {},
            Err(error) => {
                proof {
                    fault_stays_first(all, i + 1);
                }
                return Err(error);
            },
        }
        i = i + 1;
    }
    assert(all.take(i as int) =~= all);
    Ok(())
}

/// The first fault of a part at the front is the first fault of the whole.
proof fn fault_stays_first(patterns: Seq<Seq<char>>, end: int)
    requires
        0 <= end <= patterns.len(),
        first_fault(patterns.take(end)) is Some,
    ensures
        first_fault(patterns) == first_fault(patterns.take(end)),
    decreases patterns.len() - end,
{
    if end < patterns.len() {
        assert(patterns.take(end + 1).drop_last() =~= patterns.take(end));
        fault_stays_first(patterns, end + 1);
    } else {
        assert(patterns.take(end) =~= patterns);
    }
}

/// Whether a path matches one of the patterns.
pub open spec fn any_hit(patterns: Seq<Seq<char>>, path: Seq<char>) -> bool {
    exists|i: int| 0 <= i < patterns.len() && pattern_hit(#[trigger] patterns[i], path)
}

fn matches_any(patterns: &Vec<String>, path: &str) -> (result: bool)
    requires
        first_fault(views(patterns@)) is None,
    ensures
        result == any_hit(views(patterns@), path@),
{
    let ghost all = views(patterns@);
    proof {
        no_fault(all);
    }
    let mut i: usize = 0;
    while i < patterns.len()
        invariant
            i <= patterns.len(),
            all == views(patterns@),
            forall|j: int| 0 <= j < all.len() ==> pattern_fault(#[trigger] all[j]) is None,
            forall|j: int| 0 <= j < i ==> !pattern_hit(#[trigger] all[j], path@),
        decreases patterns.len() - i,
    {
        assert(all[i as int] == patterns@[i as int]@);
        let plain = rooted_pattern(patterns[i].as_str());
        if glob_is_match(plain.as_str(), path) {
            assert(pattern_hit(all[i as int], path@));
            return true;
        }
        i = i + 1;
    }
    false
}

// ---------------------------------------------------------------------------------------------
// Declared scope
// ---------------------------------------------------------------------------------------------
/// What a path gives rise to: a warning where it lies outside of what is allowed, and one where it
/// lies inside of what is disallowed.
pub open spec fn judged(path: Seq<char>, outside: bool, inside: bool) -> Seq<ScopeWarningView> {
    let first = if outside {
        seq![ScopeWarningView { path, reason: ScopeWarningReason::OutsideAllowedScope }]
    } else {
        Seq::empty()
    };
    if inside {
        first.push(ScopeWarningView { path, reason: ScopeWarningReason::InsideDisallowedScope })
    } else {
        first
    }
}

pub fn judge_path(path: &str, outside: bool, inside: bool) -> (warnings: Vec<ScopeWarning>)
    ensures
        views(warnings@) == judged(path@, outside, inside),
{
    let mut warnings: Vec<ScopeWarning> = Vec::new();
    if outside {
        warnings.push(
            ScopeWarning {
                path: path.to_owned(),
                reason: ScopeWarningReason::OutsideAllowedScope,
            },
        );
    }
    if inside {
        warnings.push(
            ScopeWarning {
                path: path.to_owned(),
                reason: ScopeWarningReason::InsideDisallowedScope,
            },
        );
    }
    assert(views(warnings@) =~= judged(path@, outside, inside));
    warnings
}

/// What a path gives rise to within a scope: where paths are allowed it must be one of them, and it
/// must be none that is disallowed.
pub open spec fn path_warnings(scope: ScopeView, path: Seq<char>) -> Seq<ScopeWarningView> {
    judged(
        path,
        scope.allowed_paths.len() > 0 && !any_hit(scope.allowed_paths, path),
        any_hit(scope.disallowed_paths, path),
    )
}

/// The warnings of several paths, in their order.
pub open spec fn paths_warnings(scope: ScopeView, paths: Seq<Seq<char>>) -> Seq<ScopeWarningView>
    decreases paths.len(),
{
    if paths.len() == 0 {
        Seq::empty()
    } else {
        paths_warnings(scope, paths.drop_last()) + path_warnings(scope, paths.last())
    }
}

/// Every path that a claim changes, tracked or not, in ascending order.
pub open spec fn touched_paths(diff: DiffView) -> Seq<Seq<char>> {
    ascending_texts(diff.changed_paths + diff.untracked_paths)
}

/// Whether a claim declares a scope and has changes to hold against it.
pub open spec fn is_scoped(claim: ClaimView, diff: Option<DiffView>) -> bool {
    &&& diff is Some
    &&& claim.declared_scope matches Some(scope) && !(scope.allowed_paths.len() == 0
        && scope.disallowed_paths.len() == 0)
}

/// The changes of a claim that its declared scope does not cover, by path.
pub open spec fn scope_findings(claim: ClaimView, diff: Option<DiffView>) -> Seq<ScopeWarningView> {
    if is_scoped(claim, diff) {
        paths_warnings(claim.declared_scope->0, touched_paths(diff->0))
    } else {
        Seq::empty()
    }
}

/// The first pattern of a scope, where it is looked at, that is no glob.
pub open spec fn scope_fault(claim: ClaimView, diff: Option<DiffView>) -> Option<
    (Seq<char>, Seq<char>),
> {
    if is_scoped(claim, diff) {
        match first_fault(claim.declared_scope->0.allowed_paths) {
            Some(fault) => Some(fault),
            None => first_fault(claim.declared_scope->0.disallowed_paths),
        }
    } else {
        None
    }
}

fn joined_paths(a: &Vec<String>, b: &Vec<String>) -> (paths: Vec<String>)
    ensures
        views(paths@) == ascending_texts(views(a@) + views(b@)),
{
    let ghost all = views(a@) + views(b@);
    let mut paths: Vec<String> = Vec::new();
    let mut i: usize = 0;
    assert(all.take(0) =~= Seq::empty());
    assert(views(paths@) =~= Seq::empty());
    while i < a.len()
        invariant
            i <= a.len(),
            all == views(a@) + views(b@),
            views(paths@) == ascending_texts(all.take(i as int)),
        decreases a.len() - i,
    {
        assert(all.take(i + 1).drop_last() =~= all.take(i as int));
        assert(all[i as int] == a@[i as int]@);
        insert_text(&mut paths, a[i].clone());
        i = i + 1;
    }
    i = 0;
    while i < b.len()
        invariant
            i <= b.len(),
            all == views(a@) + views(b@),
            views(paths@) == ascending_texts(all.take(a.len() + i)),
        decreases b.len() - i,
    {
        let ghost n = a.len() + i;
        assert(all.take(n + 1).drop_last() =~= all.take(n));
        assert(all[n] == b@[i as int]@);
        insert_text(&mut paths, b[i].clone());
        i = i + 1;
    }
    assert(all.take(a.len() + i) =~= all);
    paths
}

fn scope_warnings(claim: &Claim, diff: &Option<DiffSummary>) -> (result: Result<
    Vec<ScopeWarning>,
    ConflictError,
>)
    ensures
        match result {
            Ok(warnings) => scope_fault(claim@, optional(*diff)) is None && views(warnings@)
                == scope_findings(claim@, optional(*diff)),
            Err(ConflictError::InvalidGlob { pattern, message }) => scope_fault(
                claim@,
                optional(*diff),
            ) == Some((pattern@, message@)),
        },
{
    let mut warnings: Vec<ScopeWarning> = Vec::new();
    assert(views(warnings@) =~= Seq::empty());
    let diff = match diff {
        Some(diff) => diff,
        None => return Ok(warnings),
    };
    let scope = match &claim.declared_scope {
        Some(scope) => scope,
        None => return Ok(warnings),
    };
    if scope.allowed_paths.len() == 0 && scope.disallowed_paths.len() == 0 {
        return Ok(warnings);
    }
    match validate_patterns(&scope.allowed_paths) {
        Ok(()) => {},
        Err(error) => return Err(error),
    }
    match validate_patterns(&scope.disallowed_paths) {
        Ok(()) => {},
        Err(error) => return Err(error),
    }
    let paths = joined_paths(&diff.changed_paths, &diff.untracked_paths);
    let ghost all = views(paths@);
    let mut i: usize = 0;
    assert(all.take(0) =~= Seq::empty());
    while i < paths.len()
        invariant
            i <= paths.len(),
            all == views(paths@),
            first_fault(scope@.allowed_paths) is None,
            first_fault(scope@.disallowed_paths) is None,
            views(warnings@) == paths_warnings(scope@, all.take(i as int)),
        decreases paths.len() - i,
    {
        let path = &paths[i];
        let ghost done = views(warnings@);
        assert(all.take(i + 1).drop_last() =~= all.take(i as int));
        assert(all.take(i + 1).last() == path@);
        let outside = scope.allowed_paths.len() > 0 && !matches_any(
            &scope.allowed_paths,
            path.as_str(),
        );
        let inside = matches_any(&scope.disallowed_paths, path.as_str());
        let mut more = judge_path(path.as_str(), outside, inside);
        let ghost added = views(more@);
        warnings.append(&mut more);
        assert(views(warnings@) =~= done + added);
        i = i + 1;
    }
    assert(all.take(i as int) =~= all);
    Ok(warnings)
}

// ---------------------------------------------------------------------------------------------
// How claims relate
// ---------------------------------------------------------------------------------------------
/// The last of the claims with that identifier.
pub open spec fn claim_with_id(claims: Seq<ClaimView>, id: Id) -> Option<ClaimView>
    decreases claims.len(),
{
    if claims.len() == 0 {
        None
    } else if claims.last().claim_id == id {
        Some(claims.last())
    } else {
        claim_with_id(claims.drop_last(), id)
    }
}

/// The generation that one builds on, among the claims.
pub open spec fn next_up(claims: Seq<ClaimView>, id: Option<Id>) -> Option<Id> {
    match id {
        Some(id) => match claim_with_id(claims, id) {
            Some(claim) => claim.base_claim_id,
            None => None,
        },
        None => None,
    }
}

/// The generation that is reached by going up that many times.
pub open spec fn ancestor(claims: Seq<ClaimView>, from: Option<Id>, steps: nat) -> Option<Id>
    decreases steps,
{
    if steps == 0 {
        from
    } else {
        next_up(claims, ancestor(claims, from, (steps - 1) as nat))
    }
}

/// Whether a claim builds, directly or through others, on a generation.
pub open spec fn builds_on(claims: Seq<ClaimView>, claim: ClaimView, target: Id) -> bool {
    exists|steps: nat| #[trigger] ancestor(claims, claim.base_claim_id, steps) == Some(target)
}

/// Whether a claim waits for a generation.
pub open spec fn waits_for(claim: ClaimView, id: Id) -> bool {
    exists|i: int|
        0 <= i < claim.wait_for.len() && (#[trigger] claim.wait_for[i]).claim_id == Some(id)
}

/// What `other` is to `subject`.
pub open spec fn relation(
    claims: Seq<ClaimView>,
    subject: ClaimView,
    other: ClaimView,
) -> OverlapRelationship {
    if builds_on(claims, subject, other.claim_id) {
        OverlapRelationship::Ancestor
    } else if builds_on(claims, other, subject.claim_id) {
        OverlapRelationship::Descendant
    } else if waits_for(subject, other.claim_id) || waits_for(other, subject.claim_id) {
        OverlapRelationship::Consolidation
    } else if subject.base_claim_id is Some && subject.base_claim_id == other.base_claim_id {
        OverlapRelationship::Sibling
    } else {
        OverlapRelationship::Unrelated
    }
}

/// The relationship seen from the other side.
pub open spec fn reversed(relationship: OverlapRelationship) -> OverlapRelationship {
    match relationship {
        OverlapRelationship::Ancestor => OverlapRelationship::Descendant,
        OverlapRelationship::Descendant => OverlapRelationship::Ancestor,
        _ => relationship,
    }
}

/// Of two claims that do not build on each other in a circle, each is to the other what the other
/// is to it, seen from the other side.
pub proof fn relation_is_directional(
    claims: Seq<ClaimView>,
    subject: ClaimView,
    other: ClaimView,
)
    requires
        !(builds_on(claims, subject, other.claim_id) && builds_on(claims, other, subject.claim_id)),
    ensures
        relation(claims, other, subject) == reversed(relation(claims, subject, other)),
{
}

fn base_of(claims: &Vec<ClaimObservation>, id: Id) -> (base: Option<Id>)
    ensures
        base == next_up(claims_of(views(claims@)), Some(id)),
{
    let ghost all = claims_of(views(claims@));
    let mut end: usize = claims.len();
    assert(all.take(end as int) =~= all);
    while end > 0
        invariant
            end <= claims.len(),
            all == claims_of(views(claims@)),
            claim_with_id(all, id) == claim_with_id(all.take(end as int), id),
        decreases end,
    {
        assert(all.take(end as int).last() == claims@[end - 1]@.claim);
        assert(all.take(end as int).drop_last() =~= all.take(end - 1));
        if claims[end - 1].claim.claim_id == id {
            return claims[end - 1].claim.base_claim_id;
        }
        end = end - 1;
    }
    None
}

/// The claims that are observed.
pub open spec fn claims_of(observed: Seq<ObservationView>) -> Seq<ClaimView> {
    Seq::new(observed.len(), |i: int| observed[i].claim)
}

/// Going up from where a path came by before leads nowhere that it did not lead to.
proof fn repeats(claims: Seq<ClaimView>, from: Option<Id>, first: nat, again: nat, steps: nat)
    requires
        first < again,
        ancestor(claims, from, first) == ancestor(claims, from, again),
    ensures
        exists|earlier: nat|
            earlier < again && #[trigger] ancestor(claims, from, earlier) == ancestor(
                claims,
                from,
                steps,
            ),
    decreases steps,
{
    if steps < again {
        assert(ancestor(claims, from, steps) == ancestor(claims, from, steps));
    } else {
        repeats(claims, from, first, again, (steps - 1) as nat);
        let earlier = choose|earlier: nat|
            earlier < again && #[trigger] ancestor(claims, from, earlier) == ancestor(
                claims,
                from,
                (steps - 1) as nat,
            );
        assert(ancestor(claims, from, earlier + 1) == ancestor(claims, from, steps));
        if earlier + 1 == again {
            assert(ancestor(claims, from, first) == ancestor(claims, from, steps));
        }
    }
}

/// Once a path has ended it stays ended.
proof fn ended_stays_ended(claims: Seq<ClaimView>, from: Option<Id>, end: nat, steps: nat)
    requires
        end <= steps,
        ancestor(claims, from, end) is None,
    ensures
        ancestor(claims, from, steps) is None,
    decreases steps,
{
    if end < steps {
        ended_stays_ended(claims, from, end, (steps - 1) as nat);
    }
}

/// Generations that are each reached from one before them, and of which none occurs twice, are no
/// more than there are claims, and one.
proof fn distinct_ancestors_are_bounded(claims: Seq<ClaimView>, visited: Seq<Id>)
    requires
        visited.no_duplicates(),
        forall|i: int| 0 <= i < visited.len() - 1 ==> claim_with_id(claims, #[trigger] visited[i]) is Some,
    ensures
        visited.len() <= claims.len() + 1,
{
    if visited.len() > 0 {
        let inner = visited.drop_last();
        let known = Seq::new(claims.len(), |i: int| claims[i].claim_id);
        assert(inner.no_duplicates());
        inner.unique_seq_to_set();
        assert forall|id: Id| inner.to_set().contains(id) implies known.to_set().contains(id) by {
            let i = choose|i: int| 0 <= i < inner.len() && inner[i] == id;
            assert(claim_with_id(claims, visited[i]) is Some);
            claim_with_id_is_one(claims, id);
            let k = choose|k: int| 0 <= k < claims.len() && (#[trigger] claims[k]).claim_id == id;
            assert(known[k] == id);
        }
        assert(inner.to_set().subset_of(known.to_set()));
        known.lemma_cardinality_of_set();
        vstd::set_lib::lemma_len_subset(inner.to_set(), known.to_set());
    }
}

proof fn claim_with_id_is_one(claims: Seq<ClaimView>, id: Id)
    requires
        claim_with_id(claims, id) is Some,
    ensures
        exists|k: int| 0 <= k < claims.len() && (#[trigger] claims[k]).claim_id == id,
    decreases claims.len(),
{
    if claims.last().claim_id == id {
        assert(claims[claims.len() - 1].claim_id == id);
    } else {
        claim_with_id_is_one(claims.drop_last(), id);
        let k = choose|k: int|
            0 <= k < claims.drop_last().len() && (#[trigger] claims.drop_last()[k]).claim_id == id;
        assert(claims[k].claim_id == id);
    }
}

fn contains_visited(visited: &Vec<Id>, id: Id) -> (found: bool)
    ensures
        found == visited@.contains(id),
{
    let mut i: usize = 0;
    while i < visited.len()
        invariant
            i <= visited.len(),
            forall|j: int| 0 <= j < i ==> #[trigger] visited@[j] != id,
        decreases visited.len() - i,
    {
        if visited[i] == id {
            return true;
        }
        i = i + 1;
    }
    false
}

fn reaches_parent(claims: &Vec<ClaimObservation>, start: &Claim, target: Id) -> (result: bool)
    ensures
        result == builds_on(claims_of(views(claims@)), start@, target),
{
    let ghost all = claims_of(views(claims@));
    let ghost from = start@.base_claim_id;
    let mut current: Option<Id> = start.base_claim_id;
    let mut visited: Vec<Id> = Vec::new();
    loop
        invariant
            all == claims_of(views(claims@)),
            from == start@.base_claim_id,
            current == ancestor(all, from, visited.len() as nat),
            visited@.no_duplicates(),
            forall|i: int|
                0 <= i < visited.len() ==> ancestor(all, from, i as nat) == Some(
                    #[trigger] visited@[i],
                ),
            forall|i: int| 0 <= i < visited.len() ==> #[trigger] visited@[i] != target,
            forall|i: int|
                0 <= i < visited.len() - 1 ==> claim_with_id(all, #[trigger] visited@[i]) is Some,
            visited.len() > 0 && current is Some ==> claim_with_id(all, visited@.last()) is Some,
            visited.len() <= claims.len() + 1,
        decreases claims.len() + 2 - visited.len(),
    {
        let id: Id = match current {
            None => {
                proof {
                    let n = visited.len() as nat;
                    assert forall|steps: nat| #[trigger] ancestor(all, from, steps) != Some(target) by {
                        if steps < n {
                            assert(visited@[steps as int] != target);
                        } else {
                            ended_stays_ended(all, from, n, steps);
                        }
                    }
                }
                return false;
            },
            Some(id) => id,
        };
        if id == target {
            assert(ancestor(all, from, visited.len() as nat) == Some(target));
            return true;
        }
        if contains_visited(&visited, id) {
            proof {
                let first = choose|i: int| 0 <= i < visited.len() && visited@[i] == id;
                let again = visited.len() as nat;
                assert(ancestor(all, from, first as nat) == Some(visited@[first]));
                assert forall|steps: nat| #[trigger] ancestor(all, from, steps) != Some(target) by {
                    repeats(all, from, first as nat, again, steps);
                    let earlier = choose|earlier: nat|
                        earlier < again && #[trigger] ancestor(all, from, earlier) == ancestor(
                            all,
                            from,
                            steps,
                        );
                    assert(visited@[earlier as int] != target);
                }
            }
            return false;
        }
        let ghost before_push = visited@;
        visited.push(id);
        proof {
            assert forall|i: int| 0 <= i < visited.len() implies ancestor(all, from, i as nat)
                == Some(#[trigger] visited@[i]) by {
                if i < before_push.len() {
                    assert(ancestor(all, from, i as nat) == Some(before_push[i]));
                }
            }
            assert forall|i: int| 0 <= i < visited.len() implies #[trigger] visited@[i] != target by {
                if i < before_push.len() {
                    assert(before_push[i] != target);
                }
            }
            assert forall|i: int| 0 <= i < visited.len() - 1 implies claim_with_id(
                all,
                #[trigger] visited@[i],
            ) is Some by {
                if i < before_push.len() - 1 {
                    assert(claim_with_id(all, before_push[i]) is Some);
                } else {
                    assert(before_push.last() == visited@[i]);
                }
            }
            distinct_ancestors_are_bounded(all, visited@);
        }
        current = base_of(claims, id);
    }
}

fn refers_to(claim: &Claim, id: Id) -> (result: bool)
    ensures
        result == waits_for(claim@, id),
{
    let mut i: usize = 0;
    while i < claim.wait_for.len()
        invariant
            i <= claim.wait_for.len(),
            forall|j: int| 0 <= j < i ==> (#[trigger] claim@.wait_for[j]).claim_id != Some(id),
        decreases claim.wait_for.len() - i,
    {
        if let Some(other) = claim.wait_for[i].claim_id {
            if other == id {
                assert(claim@.wait_for[i as int].claim_id == Some(id));
                return true;
            }
        }
        i = i + 1;
    }
    false
}

fn relationship(
    claims: &Vec<ClaimObservation>,
    subject: &Claim,
    other: &Claim,
) -> (relationship: OverlapRelationship)
    ensures
        relationship == relation(claims_of(views(claims@)), subject@, other@),
{
    if reaches_parent(claims, subject, other.claim_id) {
        OverlapRelationship::Ancestor
    } else if reaches_parent(claims, other, subject.claim_id) {
        OverlapRelationship::Descendant
    } else if refers_to(subject, other.claim_id) || refers_to(other, subject.claim_id) {
        OverlapRelationship::Consolidation
    } else {
        let siblings = match (subject.base_claim_id, other.base_claim_id) {
            (Some(a), Some(b)) => a == b,
            _ => false,
        };
        if siblings {
            OverlapRelationship::Sibling
        } else {
            OverlapRelationship::Unrelated
        }
    }
}

// ---------------------------------------------------------------------------------------------
// Overlaps
// ---------------------------------------------------------------------------------------------
/// The globs of the rules.
pub open spec fn globs_of(rules: Seq<(Seq<char>, Seq<char>)>) -> Seq<Seq<char>> {
    Seq::new(rules.len(), |i: int| rules[i].0)
}

/// The labels of the risks that a path is one of, in ascending order.
pub open spec fn labels_of(rules: Seq<(Seq<char>, Seq<char>)>, path: Seq<char>) -> Seq<Seq<char>>
    decreases rules.len(),
{
    if rules.len() == 0 {
        Seq::empty()
    } else if pattern_hit(rules.last().0, path) {
        with_text(labels_of(rules.drop_last(), path), rules.last().1)
    } else {
        labels_of(rules.drop_last(), path)
    }
}

/// How much it matters that claims share a path: between claims that do not build on each other
/// more, and at a risk more.
pub open spec fn severity_of(relationship: OverlapRelationship, risk: bool) -> OverlapSeverity {
    match relationship {
        OverlapRelationship::Sibling | OverlapRelationship::Unrelated => if risk {
            OverlapSeverity::Blocking
        } else {
            OverlapSeverity::Warning
        },
        _ => if risk {
            OverlapSeverity::Warning
        } else {
            OverlapSeverity::Info
        },
    }
}

/// How a path that one claim touches is shared with another: both track it, or the other touches
/// it too.
pub open spec fn shared_as(subject: DiffView, other: DiffView, path: Seq<char>) -> Option<
    OverlapConfidence,
> {
    if subject.changed_paths.contains(path) && other.changed_paths.contains(path) {
        Some(OverlapConfidence::Full)
    } else if other.changed_paths.contains(path) || other.untracked_paths.contains(path) {
        Some(OverlapConfidence::Untracked)
    } else {
        None
    }
}

/// Whether two findings are of one confidence, one severity and one list of labels.
pub open spec fn same_group(a: OverlapView, b: OverlapView) -> bool {
    a.confidence == b.confidence && a.severity == b.severity && a.labels == b.labels
}

pub open spec fn confidence_rank(confidence: OverlapConfidence) -> int {
    match confidence {
        OverlapConfidence::Full => 0,
        OverlapConfidence::Untracked => 1,
    }
}

pub open spec fn severity_rank(severity: OverlapSeverity) -> int {
    match severity {
        OverlapSeverity::Info => 0,
        OverlapSeverity::Warning => 1,
        OverlapSeverity::Blocking => 2,
    }
}

/// Lists of texts are ordered by their first difference; a proper prefix comes first.
pub open spec fn texts_before(a: Seq<Seq<char>>, b: Seq<Seq<char>>) -> bool
    decreases a.len(),
{
    if b.len() == 0 {
        false
    } else if a.len() == 0 {
        true
    } else if a[0] == b[0] {
        texts_before(a.drop_first(), b.drop_first())
    } else {
        before(a[0], b[0])
    }
}

/// Groups stand by confidence, then by severity, then by labels.
pub open spec fn group_before(a: OverlapView, b: OverlapView) -> bool {
    if a.confidence != b.confidence {
        confidence_rank(a.confidence) < confidence_rank(b.confidence)
    } else if a.severity != b.severity {
        severity_rank(a.severity) < severity_rank(b.severity)
    } else {
        texts_before(a.labels, b.labels)
    }
}

/// The groups with a finding put into its own: its paths behind those that are there, or a group
/// of its own at its place.
pub open spec fn with_finding(groups: Seq<OverlapView>, finding: OverlapView) -> Seq<OverlapView>
    decreases groups.len(),
{
    if groups.len() == 0 {
        seq![finding]
    } else if same_group(groups.last(), finding) {
        groups.drop_last().push(
            OverlapView {
                shared_paths: groups.last().shared_paths + finding.shared_paths,
                ..groups.last()
            },
        )
    } else if group_before(groups.last(), finding) {
        groups.push(finding)
    } else {
        with_finding(groups.drop_last(), finding).push(groups.last())
    }
}

/// What a path that two claims share gives rise to, by the labels of its risks.
pub open spec fn labelled_finding(
    other: ClaimView,
    relationship: OverlapRelationship,
    labels: Seq<Seq<char>>,
    confidence: OverlapConfidence,
    path: Seq<char>,
) -> OverlapView {
    OverlapView {
        with_issue: other.issue,
        with_claim_id: other.claim_id,
        relationship,
        shared_paths: seq![path],
        confidence,
        severity: severity_of(relationship, labels.len() > 0),
        labels,
    }
}

/// What a path that two claims share gives rise to.
pub open spec fn finding_at(
    other: ClaimView,
    relationship: OverlapRelationship,
    rules: Seq<(Seq<char>, Seq<char>)>,
    confidence: OverlapConfidence,
    path: Seq<char>,
) -> OverlapView {
    labelled_finding(other, relationship, labels_of(rules, path), confidence, path)
}

/// The overlaps of two claims at the given paths of the first.
pub open spec fn overlaps_at(
    subject: DiffView,
    other: ObservationView,
    relationship: OverlapRelationship,
    rules: Seq<(Seq<char>, Seq<char>)>,
    paths: Seq<Seq<char>>,
) -> Seq<OverlapView>
    decreases paths.len(),
{
    if paths.len() == 0 {
        Seq::empty()
    } else {
        let front = overlaps_at(subject, other, relationship, rules, paths.drop_last());
        match shared_as(subject, other.diff->0, paths.last()) {
            Some(confidence) => with_finding(
                front,
                finding_at(other.claim, relationship, rules, confidence, paths.last()),
            ),
            None => front,
        }
    }
}

/// The overlaps of one claim with another, where the changes of both can be told.
pub open spec fn overlaps_with(
    observed: Seq<ObservationView>,
    rules: Seq<(Seq<char>, Seq<char>)>,
    subject: int,
    other: int,
) -> Seq<OverlapView> {
    if subject == other || observed[subject].diff is None || observed[other].diff is None {
        Seq::empty()
    } else {
        overlaps_at(
            observed[subject].diff->0,
            observed[other],
            relation(claims_of(observed), observed[subject].claim, observed[other].claim),
            rules,
            touched_paths(observed[subject].diff->0),
        )
    }
}

/// The overlaps of one claim with the first of the claims, one after the other.
pub open spec fn overlaps_among(
    observed: Seq<ObservationView>,
    rules: Seq<(Seq<char>, Seq<char>)>,
    subject: int,
    others: nat,
) -> Seq<OverlapView>
    decreases others,
{
    if others == 0 {
        Seq::empty()
    } else {
        overlaps_among(observed, rules, subject, (others - 1) as nat) + overlaps_with(
            observed,
            rules,
            subject,
            others - 1,
        )
    }
}

/// Overlaps stand by the issue and the generation that they are with, then by confidence,
/// severity, labels and paths.
pub open spec fn overlap_before(a: OverlapView, b: OverlapView) -> bool {
    if a.with_issue != b.with_issue {
        a.with_issue < b.with_issue
    } else if a.with_claim_id != b.with_claim_id {
        a.with_claim_id < b.with_claim_id
    } else if a.confidence != b.confidence {
        confidence_rank(a.confidence) < confidence_rank(b.confidence)
    } else if a.severity != b.severity {
        severity_rank(a.severity) < severity_rank(b.severity)
    } else if a.labels != b.labels {
        texts_before(a.labels, b.labels)
    } else {
        texts_before(a.shared_paths, b.shared_paths)
    }
}

/// The overlaps with one more at its place, behind those that it does not stand before.
pub open spec fn with_overlap(overlaps: Seq<OverlapView>, overlap: OverlapView) -> Seq<OverlapView>
    decreases overlaps.len(),
{
    if overlaps.len() > 0 && overlap_before(overlap, overlaps.last()) {
        with_overlap(overlaps.drop_last(), overlap).push(overlaps.last())
    } else {
        overlaps.push(overlap)
    }
}

/// The overlaps in their order.
pub open spec fn ordered_overlaps(overlaps: Seq<OverlapView>) -> Seq<OverlapView>
    decreases overlaps.len(),
{
    if overlaps.len() == 0 {
        Seq::empty()
    } else {
        with_overlap(ordered_overlaps(overlaps.drop_last()), overlaps.last())
    }
}

/// All overlaps of one claim with the others.
pub open spec fn overlaps_of(
    observed: Seq<ObservationView>,
    rules: Seq<(Seq<char>, Seq<char>)>,
    subject: int,
) -> Seq<OverlapView> {
    ordered_overlaps(overlaps_among(observed, rules, subject, observed.len()))
}

/// The claims with the conflicts that their changes lead to; nothing else of them changes.
pub open spec fn analyzed(
    observed: Seq<ObservationView>,
    rules: Seq<(Seq<char>, Seq<char>)>,
) -> Seq<ObservationView> {
    Seq::new(
        observed.len(),
        |i: int|
            ObservationView {
                overlaps: overlaps_of(observed, rules, i),
                scope_warnings: scope_findings(observed[i].claim, observed[i].diff),
                ..observed[i]
            },
    )
}

/// The first pattern that an analysis looks at and that is no glob: of the rules, and then of the
/// scopes of the claims.
pub open spec fn first_scope_fault(observed: Seq<ObservationView>) -> Option<(Seq<char>, Seq<char>)>
    decreases observed.len(),
{
    if observed.len() == 0 {
        None
    } else {
        match first_scope_fault(observed.drop_last()) {
            Some(fault) => Some(fault),
            None => scope_fault(observed.last().claim, observed.last().diff),
        }
    }
}

pub open spec fn analysis_fault(
    observed: Seq<ObservationView>,
    rules: Seq<(Seq<char>, Seq<char>)>,
) -> Option<(Seq<char>, Seq<char>)> {
    match first_fault(globs_of(rules)) {
        Some(fault) => Some(fault),
        None => first_scope_fault(observed),
    }
}

fn severity(relationship: OverlapRelationship, risk: bool) -> (severity: OverlapSeverity)
    ensures
        severity == severity_of(relationship, risk),
{
    match relationship {
        OverlapRelationship::Sibling | OverlapRelationship::Unrelated => if risk {
            OverlapSeverity::Blocking
        } else {
            OverlapSeverity::Warning
        },
        _ => if risk {
            OverlapSeverity::Warning
        } else {
            OverlapSeverity::Info
        },
    }
}

pub fn make_finding(
    other: &Claim,
    relationship: OverlapRelationship,
    labels: Vec<String>,
    confidence: OverlapConfidence,
    path: &str,
) -> (finding: DiffOverlap)
    ensures
        finding@ == labelled_finding(
            other@,
            relationship,
            views(labels@),
            confidence,
            path@,
        ),
{
    let severity = severity(relationship, labels.len() > 0);
    let shared_paths: Vec<String> = vec![path.to_owned()];
    assert(views(shared_paths@) =~= seq![path@]);
    DiffOverlap {
        with_issue: other.issue,
        with_claim_id: other.claim_id,
        relationship,
        shared_paths,
        confidence,
        severity,
        labels,
    }
}

pub fn validate_risk_globs(risk_paths: &Vec<(String, String)>) -> (result: Result<(), ConflictError>)
    ensures
        glob_verdict(result, first_fault(globs_of(pairs(risk_paths@)))),
{
    let ghost all = globs_of(pairs(risk_paths@));
    let mut i: usize = 0;
    assert(all.take(0) =~= Seq::empty());
    while i < risk_paths.len()
        invariant
            i <= risk_paths.len(),
            all == globs_of(pairs(risk_paths@)),
            first_fault(all.take(i as int)) is None,
        decreases risk_paths.len() - i,
    {
        assert(all.take(i + 1).drop_last() =~= all.take(i as int));
        assert(all.take(i + 1).last() == risk_paths@[i as int].0@);
        match validate_glob_pattern(risk_paths[i].0.as_str()) {
            Ok(()) => {},
            Err(error) => {
                proof {
                    fault_stays_first(all, i + 1);
                }
                return Err(error);
            },
        }
        i = i + 1;
    }
    assert(all.take(i as int) =~= all);
    Ok(())
}

fn risk_labels(risk_paths: &Vec<(String, String)>, path: &str) -> (labels: Vec<String>)
    requires
        first_fault(globs_of(pairs(risk_paths@))) is None,
    ensures
        views(labels@) == labels_of(pairs(risk_paths@), path@),
{
    let ghost rules = pairs(risk_paths@);
    proof {
        no_fault(globs_of(rules));
    }
    let mut labels: Vec<String> = Vec::new();
    let mut i: usize = 0;
    assert(views(labels@) =~= Seq::empty());
    assert(rules.take(0) =~= Seq::empty());
    while i < risk_paths.len()
        invariant
            i <= risk_paths.len(),
            rules == pairs(risk_paths@),
            forall|j: int|
                0 <= j < rules.len() ==> pattern_fault(#[trigger] globs_of(rules)[j]) is None,
            views(labels@) == labels_of(rules.take(i as int), path@),
        decreases risk_paths.len() - i,
    {
        assert(rules.take(i + 1).drop_last() =~= rules.take(i as int));
        assert(rules.take(i + 1).last() == (risk_paths@[i as int].0@, risk_paths@[i as int].1@));
        assert(pattern_fault(globs_of(rules)[i as int]) is None);
        let plain = rooted_pattern(risk_paths[i].0.as_str());
        if glob_is_match(plain.as_str(), path) {
            insert_text(&mut labels, risk_paths[i].1.clone());
        }
        i = i + 1;
    }
    assert(rules.take(i as int) =~= rules);
    labels
}

fn are_texts_before(a: &Vec<String>, b: &Vec<String>) -> (less: bool)
    ensures
        less == texts_before(views(a@), views(b@)),
{
    let ghost x = views(a@);
    let ghost y = views(b@);
    let mut i: usize = 0;
    assert(x.skip(0) =~= x && y.skip(0) =~= y);
    while i < a.len() && i < b.len() && same(a[i].as_str(), b[i].as_str())
        invariant
            i <= a.len(),
            i <= b.len(),
            x == views(a@),
            y == views(b@),
            texts_before(x, y) == texts_before(x.skip(i as int), y.skip(i as int)),
        decreases a.len() - i,
    {
        assert(x.skip(i as int)[0] == a@[i as int]@ && y.skip(i as int)[0] == b@[i as int]@);
        assert(x.skip(i as int).drop_first() =~= x.skip(i + 1));
        assert(y.skip(i as int).drop_first() =~= y.skip(i + 1));
        i = i + 1;
    }
    if i == b.len() {
        false
    } else if i == a.len() {
        true
    } else {
        assert(x.skip(i as int)[0] == a@[i as int]@ && y.skip(i as int)[0] == b@[i as int]@);
        is_before(a[i].as_str(), b[i].as_str())
    }
}

fn rank_of_confidence(confidence: OverlapConfidence) -> (rank: u8)
    ensures
        rank == confidence_rank(confidence),
{
    match confidence {
        OverlapConfidence::Full => 0,
        OverlapConfidence::Untracked => 1,
    }
}

fn rank_of_severity(severity: OverlapSeverity) -> (rank: u8)
    ensures
        rank == severity_rank(severity),
{
    match severity {
        OverlapSeverity::Info => 0,
        OverlapSeverity::Warning => 1,
        OverlapSeverity::Blocking => 2,
    }
}

fn is_same_group(a: &DiffOverlap, b: &DiffOverlap) -> (result: bool)
    ensures
        result == same_group(a@, b@),
{
    a.confidence == b.confidence && a.severity == b.severity && same_texts(&a.labels, &b.labels)
}

fn is_group_before(a: &DiffOverlap, b: &DiffOverlap) -> (result: bool)
    ensures
        result == group_before(a@, b@),
{
    if a.confidence != b.confidence {
        rank_of_confidence(a.confidence) < rank_of_confidence(b.confidence)
    } else if a.severity != b.severity {
        rank_of_severity(a.severity) < rank_of_severity(b.severity)
    } else {
        are_texts_before(&a.labels, &b.labels)
    }
}

fn is_overlap_before(a: &DiffOverlap, b: &DiffOverlap) -> (result: bool)
    ensures
        result == overlap_before(a@, b@),
{
    if a.with_issue != b.with_issue {
        a.with_issue < b.with_issue
    } else if a.with_claim_id != b.with_claim_id {
        a.with_claim_id < b.with_claim_id
    } else if a.confidence != b.confidence {
        rank_of_confidence(a.confidence) < rank_of_confidence(b.confidence)
    } else if a.severity != b.severity {
        rank_of_severity(a.severity) < rank_of_severity(b.severity)
    } else if !same_texts(&a.labels, &b.labels) {
        are_texts_before(&a.labels, &b.labels)
    } else {
        are_texts_before(&a.shared_paths, &b.shared_paths)
    }
}

/// Puts a finding of one path into its group.
fn add_finding(groups: &mut Vec<DiffOverlap>, finding: DiffOverlap, path: String)
    requires
        finding@.shared_paths == seq![path@],
    ensures
        views(final(groups)@) == with_finding(views(old(groups)@), finding@),
{
    let ghost all = views(groups@);
    let ghost wanted = finding@;
    let mut at: usize = groups.len();
    assert(all.take(at as int) =~= all);
    assert(all.skip(at as int) =~= Seq::empty());
    assert(with_finding(all.take(at as int), wanted) + all.skip(at as int) =~= with_finding(
        all,
        wanted,
    ));
    while at > 0 && !is_same_group(&groups[at - 1], &finding) && !is_group_before(
        &groups[at - 1],
        &finding,
    )
        invariant
            at <= groups.len(),
            views(groups@) == all,
            finding@ == wanted,
            with_finding(all.take(at as int), wanted) + all.skip(at as int) == with_finding(
                all,
                wanted,
            ),
        decreases at,
    {
        let ghost front = all.take(at as int);
        assert(front.drop_last() =~= all.take(at - 1));
        assert(front.last() == groups@[at - 1]@);
        assert(with_finding(all.take(at - 1), wanted).push(all[at - 1]) + all.skip(at as int)
            =~= with_finding(all.take(at - 1), wanted) + all.skip(at - 1));
        at = at - 1;
    }
    let ghost front = all.take(at as int);
    if at > 0 {
        assert(front.last() == groups@[at - 1]@);
    }
    if at > 0 && is_same_group(&groups[at - 1], &finding) {
        let old_group = groups.remove(at - 1);
        let mut paths = old_group.shared_paths;
        let ghost paths_before = views(paths@);
        paths.push(path);
        assert(views(paths@) =~= paths_before + wanted.shared_paths);
        let group = DiffOverlap {
            with_issue: old_group.with_issue,
            with_claim_id: old_group.with_claim_id,
            relationship: old_group.relationship,
            shared_paths: paths,
            confidence: old_group.confidence,
            severity: old_group.severity,
            labels: old_group.labels,
        };
        let ghost merged = OverlapView {
            shared_paths: front.last().shared_paths + wanted.shared_paths,
            ..front.last()
        };
        assert(group@ == merged);
        groups.insert(at - 1, group);
        assert(views(groups@) =~= front.drop_last().push(merged) + all.skip(at as int));
    } else {
        groups.insert(at, finding);
        assert(with_finding(front, wanted) =~= front.push(wanted));
        assert(views(groups@) =~= front.push(wanted) + all.skip(at as int));
    }
}

/// Puts an overlap at its place.
fn add_overlap(overlaps: &mut Vec<DiffOverlap>, overlap: DiffOverlap)
    ensures
        views(final(overlaps)@) == with_overlap(views(old(overlaps)@), overlap@),
{
    let ghost all = views(overlaps@);
    let ghost wanted = overlap@;
    let mut at: usize = overlaps.len();
    assert(all.take(at as int) =~= all);
    assert(all.skip(at as int) =~= Seq::empty());
    assert(with_overlap(all.take(at as int), wanted) + all.skip(at as int) =~= with_overlap(
        all,
        wanted,
    ));
    while at > 0 && is_overlap_before(&overlap, &overlaps[at - 1])
        invariant
            at <= overlaps.len(),
            views(overlaps@) == all,
            overlap@ == wanted,
            with_overlap(all.take(at as int), wanted) + all.skip(at as int) == with_overlap(
                all,
                wanted,
            ),
        decreases at,
    {
        let ghost front = all.take(at as int);
        assert(front.drop_last() =~= all.take(at - 1));
        assert(front.last() == overlaps@[at - 1]@);
        assert(with_overlap(all.take(at - 1), wanted).push(all[at - 1]) + all.skip(at as int)
            =~= with_overlap(all.take(at - 1), wanted) + all.skip(at - 1));
        at = at - 1;
    }
    let ghost front = all.take(at as int);
    if at > 0 {
        assert(front.last() == overlaps@[at - 1]@);
    }
    overlaps.insert(at, overlap);
    assert(with_overlap(front, wanted) =~= front.push(wanted));
    assert(views(overlaps@) =~= front.push(wanted) + all.skip(at as int));
}

fn pair_overlaps(
    subject: &DiffSummary,
    other: &ClaimObservation,
    other_diff: &DiffSummary,
    relationship: OverlapRelationship,
    risk_paths: &Vec<(String, String)>,
) -> (groups: Vec<DiffOverlap>)
    requires
        first_fault(globs_of(pairs(risk_paths@))) is None,
        other@.diff == Some(other_diff@),
    ensures
        views(groups@) == overlaps_at(
            subject@,
            other@,
            relationship,
            pairs(risk_paths@),
            touched_paths(subject@),
        ),
{
    let paths = joined_paths(&subject.changed_paths, &subject.untracked_paths);
    let ghost all = views(paths@);
    let ghost rules = pairs(risk_paths@);
    let mut groups: Vec<DiffOverlap> = Vec::new();
    let mut i: usize = 0;
    assert(views(groups@) =~= Seq::empty());
    assert(all.take(0) =~= Seq::empty());
    while i < paths.len()
        invariant
            i <= paths.len(),
            all == views(paths@),
            rules == pairs(risk_paths@),
            first_fault(globs_of(rules)) is None,
            other@.diff == Some(other_diff@),
            views(groups@) == overlaps_at(
                subject@,
                other@,
                relationship,
                rules,
                all.take(i as int),
            ),
        decreases paths.len() - i,
    {
        let path = paths[i].as_str();
        assert(all.take(i + 1).drop_last() =~= all.take(i as int));
        assert(all.take(i + 1).last() == path@);
        let other_tracks = contains_text(&other_diff.changed_paths, path);
        let confidence = if contains_text(&subject.changed_paths, path) && other_tracks {
            Some(OverlapConfidence::Full)
        } else if other_tracks || contains_text(&other_diff.untracked_paths, path) {
            Some(OverlapConfidence::Untracked)
        } else {
            None
        };
        if let Some(confidence) = confidence {
            let labels = risk_labels(risk_paths, path);
            let finding = make_finding(&other.claim, relationship, labels, confidence, path);
            assert(finding@ == finding_at(other@.claim, relationship, rules, confidence, path@));
            add_finding(&mut groups, finding, paths[i].clone());
        }
        i = i + 1;
    }
    assert(all.take(i as int) =~= all);
    groups
}

fn claim_overlaps(
    claims: &Vec<ClaimObservation>,
    risk_paths: &Vec<(String, String)>,
    subject: usize,
) -> (overlaps: Vec<DiffOverlap>)
    requires
        subject < claims.len(),
        first_fault(globs_of(pairs(risk_paths@))) is None,
    ensures
        views(overlaps@) == overlaps_of(views(claims@), pairs(risk_paths@), subject as int),
{
    let ghost observed = views(claims@);
    let ghost rules = pairs(risk_paths@);
    let mut overlaps: Vec<DiffOverlap> = Vec::new();
    let mut other: usize = 0;
    assert(views(overlaps@) =~= ordered_overlaps(Seq::empty()));
    while other < claims.len()
        invariant
            other <= claims.len(),
            subject < claims.len(),
            observed == views(claims@),
            rules == pairs(risk_paths@),
            first_fault(globs_of(rules)) is None,
            views(overlaps@) == ordered_overlaps(
                overlaps_among(observed, rules, subject as int, other as nat),
            ),
        decreases claims.len() - other,
    {
        let ghost done = overlaps_among(observed, rules, subject as int, other as nat);
        let ghost found = overlaps_with(observed, rules, subject as int, other as int);
        let mut groups: Vec<DiffOverlap> = Vec::new();
        assert(views(groups@) =~= Seq::empty());
        if subject != other {
            if let Some(subject_diff) = &claims[subject].diff {
                if let Some(other_diff) = &claims[other].diff {
                    let relationship = relationship(
                        claims,
                        &claims[subject].claim,
                        &claims[other].claim,
                    );
                    groups = pair_overlaps(
                        subject_diff,
                        &claims[other],
                        other_diff,
                        relationship,
                        risk_paths,
                    );
                }
            }
        }
        assert(views(groups@) == found);
        let mut k: usize = 0;
        assert(found.take(0) =~= Seq::empty());
        assert(done + found.take(0) =~= done);
        while k < groups.len()
            invariant
                k <= groups.len(),
                views(groups@) == found,
                views(overlaps@) == ordered_overlaps(done + found.take(k as int)),
            decreases groups.len() - k,
        {
            assert((done + found.take(k + 1)).drop_last() =~= done + found.take(k as int));
            assert((done + found.take(k + 1)).last() == groups@[k as int]@);
            add_overlap(&mut overlaps, groups[k].clone());
            k = k + 1;
        }
        assert(found.take(k as int) =~= found);
        other = other + 1;
    }
    overlaps
}

/// Finds the conflicts that the changes of claims lead to, by the globs that stand for risks. A
/// pattern that is no glob is reported, and then the claims stay as they are.
pub fn analyze_claims(
    claims: &mut Vec<ClaimObservation>,
    risk_paths: &Vec<(String, String)>,
) -> (result: Result<(), ConflictError>)
    ensures
        glob_verdict(result, analysis_fault(views(old(claims)@), pairs(risk_paths@))),
        views(final(claims)@) == (if result is Ok {
            analyzed(views(old(claims)@), pairs(risk_paths@))
        } else {
            views(old(claims)@)
        }),
{
    let ghost observed = views(claims@);
    let ghost rules = pairs(risk_paths@);
    match validate_risk_globs(risk_paths) {
        Ok(()) => {},
        Err(error) => return Err(error),
    }
    let mut overlaps: Vec<Vec<DiffOverlap>> = Vec::new();
    let mut warnings: Vec<Vec<ScopeWarning>> = Vec::new();
    let mut i: usize = 0;
    assert(observed.take(0) =~= Seq::empty());
    while i < claims.len()
        invariant
            i <= claims.len(),
            views(claims@) == observed,
            rules == pairs(risk_paths@),
            first_fault(globs_of(rules)) is None,
            first_scope_fault(observed.take(i as int)) is None,
            overlaps.len() == i,
            warnings.len() == i,
            forall|j: int|
                0 <= j < i ==> views((#[trigger] overlaps@[j])@) == overlaps_of(observed, rules, j),
            forall|j: int|
                0 <= j < i ==> views((#[trigger] warnings@[j])@) == scope_findings(
                    observed[j].claim,
                    observed[j].diff,
                ),
        decreases claims.len() - i,
    {
        assert(observed.take(i + 1).drop_last() =~= observed.take(i as int));
        assert(observed.take(i + 1).last() == claims@[i as int]@);
        match scope_warnings(&claims[i].claim, &claims[i].diff) {
            Ok(found) => warnings.push(found),
            Err(error) => {
                proof {
                    scope_fault_stays_first(observed, i + 1);
                }
                return Err(error);
            },
        }
        overlaps.push(claim_overlaps(claims, risk_paths, i));
        i = i + 1;
    }
    assert(observed.take(i as int) =~= observed);
    i = claims.len();
    while i > 0
        invariant
            i <= claims.len() == observed.len(),
            overlaps.len() == i,
            warnings.len() == i,
            forall|j: int|
                0 <= j < i ==> views((#[trigger] overlaps@[j])@) == overlaps_of(observed, rules, j),
            forall|j: int|
                0 <= j < i ==> views((#[trigger] warnings@[j])@) == scope_findings(
                    observed[j].claim,
                    observed[j].diff,
                ),
            forall|j: int| 0 <= j < i ==> (#[trigger] claims@[j])@ == observed[j],
            forall|j: int|
                i <= j < claims.len() ==> (#[trigger] claims@[j])@ == analyzed(observed, rules)[j],
        decreases i,
    {
        i = i - 1;
        let found = overlaps.pop().unwrap();
        let outside = warnings.pop().unwrap();
        assert(claims@[i as int]@ == observed[i as int]);
        let before_claim = claims.remove(i);
        let after = ClaimObservation {
            claim: before_claim.claim,
            diff: before_claim.diff,
            overlaps: found,
            scope_warnings: outside,
        };
        assert(after@ == analyzed(observed, rules)[i as int]);
        claims.insert(i, after);
    }
    assert(views(claims@) =~= analyzed(observed, rules));
    Ok(())
}

proof fn scope_fault_stays_first(observed: Seq<ObservationView>, end: int)
    requires
        0 <= end <= observed.len(),
        first_scope_fault(observed.take(end)) is Some,
    ensures
        first_scope_fault(observed) == first_scope_fault(observed.take(end)),
    decreases observed.len() - end,
{
    if end < observed.len() {
        assert(observed.take(end + 1).drop_last() =~= observed.take(end));
        scope_fault_stays_first(observed, end + 1);
    } else {
        assert(observed.take(end) =~= observed);
    }
}

// ---------------------------------------------------------------------------------------------
// What overlaps tell
// ---------------------------------------------------------------------------------------------
/// Whether an overlap holds the one path of a finding, and is otherwise the same.
pub open spec fn holds(overlap: OverlapView, finding: OverlapView) -> bool {
    (OverlapView { shared_paths: finding.shared_paths, ..overlap }) == finding
        && overlap.shared_paths.contains(finding.shared_paths[0])
}

/// Whether one of the overlaps holds a finding.
pub open spec fn told(overlaps: Seq<OverlapView>, finding: OverlapView) -> bool {
    exists|k: int| 0 <= k < overlaps.len() && holds(#[trigger] overlaps[k], finding)
}

/// Whether a claim touches a path, tracked or not.
pub open spec fn touches(diff: DiffView, path: Seq<char>) -> bool {
    diff.changed_paths.contains(path) || diff.untracked_paths.contains(path)
}

/// What a path gives rise to that two different claims touch.
pub open spec fn finding_between(
    observed: Seq<ObservationView>,
    rules: Seq<(Seq<char>, Seq<char>)>,
    subject: int,
    other: int,
    path: Seq<char>,
) -> Option<OverlapView> {
    if subject == other || observed[subject].diff is None || observed[other].diff is None
        || !touches(observed[subject].diff->0, path) || !touches(observed[other].diff->0, path) {
        None
    } else {
        Some(
            finding_at(
                observed[other].claim,
                relation(claims_of(observed), observed[subject].claim, observed[other].claim),
                rules,
                if observed[subject].diff->0.changed_paths.contains(path)
                    && observed[other].diff->0.changed_paths.contains(path) {
                    OverlapConfidence::Full
                } else {
                    OverlapConfidence::Untracked
                },
                path,
            ),
        )
    }
}

/// Whether all of the overlaps are with one claim, in one relationship.
spec fn all_with(
    overlaps: Seq<OverlapView>,
    other: ClaimView,
    relationship: OverlapRelationship,
) -> bool {
    forall|k: int|
        0 <= k < overlaps.len() ==> (#[trigger] overlaps[k]).with_issue == other.issue
            && overlaps[k].with_claim_id == other.claim_id && overlaps[k].relationship
            == relationship
}

proof fn told_by_parts(a: Seq<OverlapView>, b: Seq<OverlapView>, finding: OverlapView)
    ensures
        told(a + b, finding) == (told(a, finding) || told(b, finding)),
{
    let both = a + b;
    if told(a, finding) {
        let k = choose|k: int| 0 <= k < a.len() && holds(#[trigger] a[k], finding);
        assert(both[k] == a[k]);
    }
    if told(b, finding) {
        let k = choose|k: int| 0 <= k < b.len() && holds(#[trigger] b[k], finding);
        assert(both[a.len() + k] == b[k]);
    }
    if told(both, finding) {
        let k = choose|k: int| 0 <= k < both.len() && holds(#[trigger] both[k], finding);
        if k < a.len() {
            assert(a[k] == both[k]);
        } else {
            assert(b[k - a.len()] == both[k]);
        }
    }
}

proof fn told_by_last(overlaps: Seq<OverlapView>, last: OverlapView, finding: OverlapView)
    ensures
        told(overlaps.push(last), finding) == (told(overlaps, finding) || holds(last, finding)),
{
    told_by_parts(overlaps, seq![last], finding);
    assert(overlaps.push(last) =~= overlaps + seq![last]);
    if holds(last, finding) {
        assert(seq![last][0] == last);
    }
    assert(told(seq![last], finding) == holds(last, finding));
}

proof fn findings_are_added(
    groups: Seq<OverlapView>,
    added: OverlapView,
    other: ClaimView,
    relationship: OverlapRelationship,
    finding: OverlapView,
)
    requires
        all_with(groups, other, relationship),
        all_with(seq![added], other, relationship),
        finding.shared_paths.len() == 1,
    ensures
        all_with(with_finding(groups, added), other, relationship),
        told(with_finding(groups, added), finding) == (told(groups, finding) || holds(
            added,
            finding,
        )),
    decreases groups.len(),
{
    assert(seq![added][0] == added);
    if groups.len() == 0 {
        told_by_last(groups, added, finding);
        assert(groups.push(added) =~= seq![added]);
    } else {
        let front = groups.drop_last();
        let last = groups.last();
        assert(groups =~= front.push(last));
        told_by_last(front, last, finding);
        if same_group(last, added) {
            let grown = OverlapView {
                shared_paths: last.shared_paths + added.shared_paths,
                ..last
            };
            told_by_last(front, grown, finding);
            assert(last.with_issue == other.issue);
            let path = finding.shared_paths[0];
            assert((last.shared_paths + added.shared_paths).contains(path) == (
            last.shared_paths.contains(path) || added.shared_paths.contains(path))) by {
                if last.shared_paths.contains(path) {
                    let k = last.shared_paths.index_of(path);
                    assert(grown.shared_paths[k] == path);
                }
                if added.shared_paths.contains(path) {
                    let k = added.shared_paths.index_of(path);
                    assert(grown.shared_paths[last.shared_paths.len() + k] == path);
                }
            }
            assert(holds(grown, finding) == (holds(last, finding) || holds(added, finding)));
        } else if group_before(last, added) {
            told_by_last(groups, added, finding);
        } else {
            findings_are_added(front, added, other, relationship, finding);
            told_by_last(with_finding(front, added), last, finding);
        }
    }
}

proof fn overlaps_at_paths(
    subject: DiffView,
    other: ObservationView,
    relationship: OverlapRelationship,
    rules: Seq<(Seq<char>, Seq<char>)>,
    paths: Seq<Seq<char>>,
    finding: OverlapView,
)
    requires
        finding.shared_paths.len() == 1,
    ensures
        all_with(
            overlaps_at(subject, other, relationship, rules, paths),
            other.claim,
            relationship,
        ),
        told(overlaps_at(subject, other, relationship, rules, paths), finding) == {
            let path = finding.shared_paths[0];
            paths.contains(path) && (shared_as(subject, other.diff->0, path) matches Some(
                confidence,
            ) && finding == finding_at(other.claim, relationship, rules, confidence, path))
        },
    decreases paths.len(),
{
    let path = finding.shared_paths[0];
    if paths.len() > 0 {
        let front = paths.drop_last();
        let last = paths.last();
        overlaps_at_paths(subject, other, relationship, rules, front, finding);
        assert(paths.contains(path) == (front.contains(path) || path == last)) by {
            if front.contains(path) {
                let k = front.index_of(path);
                assert(paths[k] == path);
            }
            if paths.contains(path) && path != last {
                let k = paths.index_of(path);
                assert(front[k] == path);
            }
            assert(paths[paths.len() - 1] == last);
        }
        if let Some(confidence) = shared_as(subject, other.diff->0, last) {
            let added = finding_at(other.claim, relationship, rules, confidence, last);
            findings_are_added(
                overlaps_at(subject, other, relationship, rules, front),
                added,
                other.claim,
                relationship,
                finding,
            );
            assert(added.shared_paths[0] == last);
            assert(holds(added, finding) == (added == finding)) by {
                if holds(added, finding) {
                    assert(finding.shared_paths =~= seq![last]);
                }
            }
            if added == finding {
                assert(path == last);
            }
        }
    }
}

proof fn overlaps_with_one(
    observed: Seq<ObservationView>,
    rules: Seq<(Seq<char>, Seq<char>)>,
    subject: int,
    other: int,
    finding: OverlapView,
)
    requires
        finding.shared_paths.len() == 1,
    ensures
        told(overlaps_with(observed, rules, subject, other), finding) == (finding_between(
            observed,
            rules,
            subject,
            other,
            finding.shared_paths[0],
        ) == Some(finding)),
{
    let path = finding.shared_paths[0];
    if !(subject == other || observed[subject].diff is None || observed[other].diff is None) {
        let mine = observed[subject].diff->0;
        overlaps_at_paths(
            mine,
            observed[other],
            relation(claims_of(observed), observed[subject].claim, observed[other].claim),
            rules,
            touched_paths(mine),
            finding,
        );
        let all = mine.changed_paths + mine.untracked_paths;
        ascending_texts_are_sorted(all);
        assert(all.contains(path) == touches(mine, path)) by {
            if mine.changed_paths.contains(path) {
                assert(all[mine.changed_paths.index_of(path)] == path);
            }
            if mine.untracked_paths.contains(path) {
                assert(all[mine.changed_paths.len() + mine.untracked_paths.index_of(path)] == path);
            }
        }
    }
}

proof fn overlaps_among_some(
    observed: Seq<ObservationView>,
    rules: Seq<(Seq<char>, Seq<char>)>,
    subject: int,
    others: nat,
    finding: OverlapView,
)
    requires
        finding.shared_paths.len() == 1,
    ensures
        told(overlaps_among(observed, rules, subject, others), finding) == exists|other: int|
            0 <= other < others && #[trigger] finding_between(
                observed,
                rules,
                subject,
                other,
                finding.shared_paths[0],
            ) == Some(finding),
    decreases others,
{
    if others > 0 {
        let fewer = (others - 1) as nat;
        overlaps_among_some(observed, rules, subject, fewer, finding);
        overlaps_with_one(observed, rules, subject, others - 1, finding);
        told_by_parts(
            overlaps_among(observed, rules, subject, fewer),
            overlaps_with(observed, rules, subject, others - 1),
            finding,
        );
    }
}

proof fn order_keeps_one(overlaps: Seq<OverlapView>, overlap: OverlapView, finding: OverlapView)
    ensures
        told(with_overlap(overlaps, overlap), finding) == (told(overlaps, finding) || holds(
            overlap,
            finding,
        )),
    decreases overlaps.len(),
{
    if overlaps.len() > 0 && overlap_before(overlap, overlaps.last()) {
        let front = overlaps.drop_last();
        order_keeps_one(front, overlap, finding);
        told_by_last(with_overlap(front, overlap), overlaps.last(), finding);
        told_by_last(front, overlaps.last(), finding);
        assert(overlaps =~= front.push(overlaps.last()));
    } else {
        told_by_last(overlaps, overlap, finding);
    }
}

proof fn order_keeps_overlaps(overlaps: Seq<OverlapView>, finding: OverlapView)
    ensures
        told(ordered_overlaps(overlaps), finding) == told(overlaps, finding),
    decreases overlaps.len(),
{
    if overlaps.len() > 0 {
        let front = overlaps.drop_last();
        order_keeps_overlaps(front, finding);
        order_keeps_one(ordered_overlaps(front), overlaps.last(), finding);
        told_by_last(front, overlaps.last(), finding);
        assert(overlaps =~= front.push(overlaps.last()));
    }
}

/// The overlaps of a claim tell of every path that another claim touches too, and of no other
/// path: with that claim, how sure it is, how much it matters, and which risks it touches.
pub proof fn overlaps_tell_what_is_shared(
    observed: Seq<ObservationView>,
    rules: Seq<(Seq<char>, Seq<char>)>,
    subject: int,
    finding: OverlapView,
)
    requires
        0 <= subject < observed.len(),
        finding.shared_paths.len() == 1,
    ensures
        told(analyzed(observed, rules)[subject].overlaps, finding) == exists|other: int|
            0 <= other < observed.len() && #[trigger] finding_between(
                observed,
                rules,
                subject,
                other,
                finding.shared_paths[0],
            ) == Some(finding),
{
    overlaps_among_some(observed, rules, subject, observed.len(), finding);
    order_keeps_overlaps(overlaps_among(observed, rules, subject, observed.len()), finding);
}

/// Overlaps are mutual: where a claim is told of a path that it shares with another, the other is
/// told of the path too, with the same confidence, severity and labels.
pub proof fn overlaps_are_mutual(
    observed: Seq<ObservationView>,
    rules: Seq<(Seq<char>, Seq<char>)>,
    subject: int,
    other: int,
    path: Seq<char>,
)
    requires
        0 <= subject < observed.len(),
        0 <= other < observed.len(),
        finding_between(observed, rules, subject, other, path) is Some,
    ensures
        ({
            let here = finding_between(observed, rules, subject, other, path)->0;
            let there = finding_between(observed, rules, other, subject, path)->0;
            &&& told(analyzed(observed, rules)[subject].overlaps, here)
            &&& told(analyzed(observed, rules)[other].overlaps, there)
            &&& here.with_claim_id == observed[other].claim.claim_id
            &&& there.with_claim_id == observed[subject].claim.claim_id
            &&& same_group(here, there)
        }),
{
    let here = finding_between(observed, rules, subject, other, path)->0;
    let there = finding_between(observed, rules, other, subject, path)->0;
    assert(here.shared_paths[0] == path && there.shared_paths[0] == path);
    overlaps_tell_what_is_shared(observed, rules, subject, here);
    overlaps_tell_what_is_shared(observed, rules, other, there);
}

} // verus!
