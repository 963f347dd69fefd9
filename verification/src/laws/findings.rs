//! How the checks of a report tell what was observed of a claim.
use vstd::prelude::*;

use crate::conflict::{OverlapView, ScopeWarningView};
use crate::diagnosis::{
    coordination, first_problem, local_checks, overlap_advice, overlap_recommendation,
    owners_check, owners_of, ownership_check, scope_checks,
};
use crate::doctor::{gate_rollup, CheckGate, CheckView};
use crate::id::{id_text, Id};
use crate::json::JsonView;
use crate::laws::gates::{gates_tell_the_worst_of_their_checks, holds_up};
use crate::model::ClaimView;
use crate::observation::{LocalProblemCode, ObservationView, ProblemView};
use crate::path::{place_of, same_path};
use crate::text::decimal;

verus! {

/// Whether the evidence of a check has, under a name, an object with such a member.
pub open spec fn has_evidence(
    check: CheckView,
    name: Seq<char>,
    member: Seq<char>,
    value: JsonView,
) -> bool {
    check.evidence matches Some(JsonView::Object(members)) && exists|k: int|
        0 <= k < members.len() && (#[trigger] members[k]).0 == name && (members[k].1 matches
            JsonView::Object(inner) && inner.contains((member, value)))
}

/// Whether a check tells of an overlap: as a check for merging that passes where the overlap is for
/// information, warns where it is a warning and fails where it blocks.
pub open spec fn tells_overlap(check: CheckView, claim: ClaimView, overlap: OverlapView) -> bool {
    &&& check.id == "merge.overlap"@
    &&& check.gate is Merge
    &&& check.status is Pass <==> overlap.severity is Info
    &&& check.status is Warn <==> overlap.severity is Warning
    &&& check.status is Fail <==> overlap.severity is Blocking
    &&& has_evidence(
        check,
        "overlap"@,
        "with_claim_id"@,
        JsonView::Text(id_text(overlap.with_claim_id)),
    )
    &&& has_evidence(check, "overlap"@, "with_issue"@, JsonView::Unsigned(overlap.with_issue))
    &&& check.evidence->0->Object_0.contains(("issue"@, JsonView::Unsigned(claim.issue)))
    &&& check.evidence->0->Object_0.contains(
        ("claim_id"@, JsonView::Text(id_text(claim.claim_id))),
    )
}

/// Whether a check tells of a path outside of the scope of its claim, as a warning for merging.
pub open spec fn tells_scope(check: CheckView, warning: ScopeWarningView) -> bool {
    &&& check.id == "merge.scope"@
    &&& check.gate is Merge
    &&& check.status is Warn
    &&& check.message == warning.path + " "@ + (if warning.reason is OutsideAllowedScope {
        "is outside allowed scope"@
    } else {
        "is inside disallowed scope"@
    })
    &&& has_evidence(check, "warning"@, "path"@, JsonView::Text(warning.path))
}

/// Whether one of the checks tells of an overlap.
pub open spec fn overlap_is_told(
    checks: Seq<CheckView>,
    claim: ClaimView,
    overlap: OverlapView,
) -> bool {
    exists|c: int| 0 <= c < checks.len() && tells_overlap(#[trigger] checks[c], claim, overlap)
}

/// Whether one of the checks tells of a path outside of the scope.
pub open spec fn scope_is_told(checks: Seq<CheckView>, warning: ScopeWarningView) -> bool {
    exists|c: int| 0 <= c < checks.len() && tells_scope(#[trigger] checks[c], warning)
}

proof fn merge_checks_differ()
    ensures
        "merge.overlap"@ != "merge.scope"@,
        "merge.overlap"@ != "merge.consolidation_diff"@,
        "merge.scope"@ != "merge.consolidation_diff"@,
{
    reveal_strlit("merge.overlap");
    reveal_strlit("merge.scope");
    reveal_strlit("merge.consolidation_diff");
    assert("merge.overlap"@.len() != "merge.scope"@.len());
    assert("merge.overlap"@.len() != "merge.consolidation_diff"@.len());
    assert("merge.scope"@.len() != "merge.consolidation_diff"@.len());
}

proof fn overlaps_one_by_one(claim: ClaimView, overlaps: Seq<OverlapView>)
    ensures
        overlap_advice(claim, overlaps).checks.len() == overlaps.len(),
        forall|i: int|
            0 <= i < overlaps.len() ==> tells_overlap(
                #[trigger] overlap_advice(claim, overlaps).checks[i],
                claim,
                overlaps[i],
            ),
    decreases overlaps.len(),
{
    if overlaps.len() > 0 {
        let front = overlap_advice(claim, overlaps.drop_last()).checks;
        overlaps_one_by_one(claim, overlaps.drop_last());
        let checks = overlap_advice(claim, overlaps).checks;
        let last = overlaps.last();
        assert(checks == front.push(checks.last()));
        let made = checks.last();
        let members = made.evidence->0->Object_0;
        assert(members[0] == ("claim_id"@, JsonView::Text(id_text(claim.claim_id))));
        assert(members[1] == ("issue"@, JsonView::Unsigned(claim.issue)));
        assert(members[2].0 == "overlap"@);
        let inner = members[2].1->Object_0;
        assert(inner[5] == ("with_claim_id"@, JsonView::Text(id_text(last.with_claim_id))));
        assert(inner[6] == ("with_issue"@, JsonView::Unsigned(last.with_issue)));
        assert(tells_overlap(made, claim, last));
        assert forall|i: int| 0 <= i < overlaps.len() implies tells_overlap(
            #[trigger] checks[i],
            claim,
            overlaps[i],
        ) by {
            if i < overlaps.len() - 1 {
                assert(checks[i] == front[i]);
            }
        }
    }
}

proof fn scope_one_by_one(claim: ClaimView, warnings: Seq<ScopeWarningView>)
    ensures
        scope_checks(claim, warnings).len() == warnings.len(),
        forall|i: int|
            0 <= i < warnings.len() ==> tells_scope(
                #[trigger] scope_checks(claim, warnings)[i],
                warnings[i],
            ),
{
    assert forall|i: int| 0 <= i < warnings.len() implies tells_scope(
        #[trigger] scope_checks(claim, warnings)[i],
        warnings[i],
    ) by {
        let made = scope_checks(claim, warnings)[i];
        let members = made.evidence->0->Object_0;
        assert(members[2].0 == "warning"@);
        let inner = members[2].1->Object_0;
        assert(inner[0] == ("path"@, JsonView::Text(warnings[i].path)));
    }
}

/// Every overlap and every warning on scope that was observed of a claim has a check, and there is
/// no check of either kind without one. All of them are for merging, and one on an overlap that
/// blocks holds up that gate.
pub proof fn observations_become_checks(observed: ObservationView)
    ensures
        ({
            let checks = coordination(observed).checks;
            &&& forall|o: int|
                0 <= o < observed.overlaps.len() ==> overlap_is_told(
                    checks,
                    observed.claim,
                    #[trigger] observed.overlaps[o],
                )
            &&& forall|c: int|
                0 <= c < checks.len() && (#[trigger] checks[c]).id == "merge.overlap"@ ==> exists|
                    o: int,
                |
                    0 <= o < observed.overlaps.len() && tells_overlap(
                        checks[c],
                        observed.claim,
                        #[trigger] observed.overlaps[o],
                    )
            &&& forall|w: int|
                0 <= w < observed.scope_warnings.len() ==> scope_is_told(
                    checks,
                    #[trigger] observed.scope_warnings[w],
                )
            &&& forall|c: int|
                0 <= c < checks.len() && (#[trigger] checks[c]).id == "merge.scope"@ ==> exists|
                    w: int,
                |
                    0 <= w < observed.scope_warnings.len() && tells_scope(
                        checks[c],
                        #[trigger] observed.scope_warnings[w],
                    )
            &&& forall|c: int|
                0 <= c < checks.len() && (#[trigger] checks[c]).id == "merge.consolidation_diff"@
                    ==> checks[c].status is Pass && observed.claim.wait_for.len() > 0
            &&& observed.claim.wait_for.len() > 0 ==> exists|c: int|
                0 <= c < checks.len() && (#[trigger] checks[c]).id == "merge.consolidation_diff"@
            &&& forall|c: int| 0 <= c < checks.len() ==> (#[trigger] checks[c]).gate is Merge
            &&& (exists|o: int|
                0 <= o < observed.overlaps.len() && (#[trigger] observed.overlaps[o]).severity
                    is Blocking) <==> holds_up(gate_rollup(checks, CheckGate::Merge))
        }),
{
    merge_checks_differ();
    let checks = coordination(observed).checks;
    let overlaps = overlap_advice(observed.claim, observed.overlaps).checks;
    let scopes = scope_checks(observed.claim, observed.scope_warnings);
    overlaps_one_by_one(observed.claim, observed.overlaps);
    scope_one_by_one(observed.claim, observed.scope_warnings);
    gates_tell_the_worst_of_their_checks(checks, CheckGate::Merge);
    assert forall|o: int| 0 <= o < observed.overlaps.len() implies overlap_is_told(
        checks,
        observed.claim,
        #[trigger] observed.overlaps[o],
    ) by {
        assert(checks[o] == overlaps[o]);
    }
    assert forall|w: int| 0 <= w < observed.scope_warnings.len() implies scope_is_told(
        checks,
        #[trigger] observed.scope_warnings[w],
    ) by {
        assert(checks[overlaps.len() + w] == scopes[w]);
    }
    assert forall|c: int| 0 <= c < checks.len() implies (#[trigger] checks[c]).gate is Merge && {
        ||| c < overlaps.len() && tells_overlap(checks[c], observed.claim, observed.overlaps[c])
        ||| overlaps.len() <= c < overlaps.len() + scopes.len() && tells_scope(
            checks[c],
            observed.scope_warnings[c - overlaps.len()],
        )
        ||| checks[c].id == "merge.consolidation_diff"@ && checks[c].status is Pass
            && observed.claim.wait_for.len() > 0
    } by {
        if c < overlaps.len() {
            assert(checks[c] == overlaps[c]);
        } else if c < overlaps.len() + scopes.len() {
            assert(checks[c] == scopes[c - overlaps.len()]);
        }
    }
    if observed.claim.wait_for.len() > 0 {
        assert(checks[checks.len() - 1].id == "merge.consolidation_diff"@);
    }
    if exists|o: int|
        0 <= o < observed.overlaps.len() && (#[trigger] observed.overlaps[o]).severity is Blocking {
        let o = choose|o: int|
            0 <= o < observed.overlaps.len() && (#[trigger] observed.overlaps[o]).severity
                is Blocking;
        assert(checks[o] == overlaps[o]);
        assert(checks[o].status is Fail);
    }
    assert forall|c: int| 0 <= c < checks.len() implies (#[trigger] checks[c]).status !is Error
        && checks[c].status !is Skip by {}
    if holds_up(gate_rollup(checks, CheckGate::Merge)) {
        let c = choose|c: int|
            0 <= c < checks.len() && (#[trigger] checks[c]).status is Fail;
        assert(tells_overlap(checks[c], observed.claim, observed.overlaps[c]));
    }
}

/// Overlaps that are more than for information are to be resolved, and no others.
pub proof fn grave_overlaps_are_to_be_resolved(observed: ObservationView)
    ensures
        forall|text: Seq<char>|
            #![trigger coordination(observed).recommendations.contains(text)]
            coordination(observed).recommendations.contains(text) <==> exists|o: int|
                0 <= o < observed.overlaps.len() && (#[trigger] observed.overlaps[o]).severity
                    !is Info && text == "Resolve overlap between issue #"@ + decimal(
                    observed.claim.issue as nat,
                ) + " and issue #"@ + decimal(observed.overlaps[o].with_issue as nat)
                    + " before merge"@,
{
    advised_one_by_one(observed.claim, observed.overlaps);
}

proof fn advised_one_by_one(claim: ClaimView, overlaps: Seq<OverlapView>)
    ensures
        forall|text: Seq<char>|
            #![trigger overlap_advice(claim, overlaps).recommendations.contains(text)]
            overlap_advice(claim, overlaps).recommendations.contains(text) <==> exists|o: int|
                0 <= o < overlaps.len() && (#[trigger] overlaps[o]).severity !is Info && text
                    == overlap_recommendation(claim, overlaps[o]),
    decreases overlaps.len(),
{
    if overlaps.len() > 0 {
        let front = overlaps.drop_last();
        let early = overlap_advice(claim, front).recommendations;
        let all = overlap_advice(claim, overlaps).recommendations;
        let last = overlaps.last();
        assert(overlaps[overlaps.len() - 1] == last);
        advised_one_by_one(claim, front);
        assert forall|text: Seq<char>|
            #![trigger all.contains(text)]
            all.contains(text) <==> exists|o: int|
                0 <= o < overlaps.len() && (#[trigger] overlaps[o]).severity !is Info && text
                    == overlap_recommendation(claim, overlaps[o]) by {
            if early.contains(text) {
                let k = early.index_of(text);
                assert(all[k] == text);
                let o = choose|o: int|
                    0 <= o < front.len() && (#[trigger] front[o]).severity !is Info && text
                        == overlap_recommendation(claim, front[o]);
                assert(overlaps[o] == front[o]);
            }
            if all.contains(text) && !early.contains(text) {
                let k = all.index_of(text);
                if k < early.len() {
                    assert(early[k] == text);
                }
            }
            if exists|o: int|
                0 <= o < overlaps.len() && (#[trigger] overlaps[o]).severity !is Info && text
                    == overlap_recommendation(claim, overlaps[o]) {
                let o = choose|o: int|
                    0 <= o < overlaps.len() && (#[trigger] overlaps[o]).severity !is Info && text
                        == overlap_recommendation(claim, overlaps[o]);
                if o < front.len() {
                    assert(front[o] == overlaps[o]);
                    assert(early.contains(text));
                } else {
                    assert(all[all.len() - 1] == text);
                }
            }
        }
    }
}

/// Whether a problem of that kind was met with a claim.
pub open spec fn has_problem(
    problems: Seq<ProblemView>,
    claim_id: Id,
    code: LocalProblemCode,
) -> bool {
    exists|i: int|
        0 <= i < problems.len() && (#[trigger] problems[i]).claim_id == Some(claim_id)
            && problems[i].code == code
}

proof fn first_problem_is_one(
    problems: Seq<ProblemView>,
    claim_id: Id,
    codes: Seq<LocalProblemCode>,
)
    ensures
        first_problem(problems, claim_id, codes) is Some <==> exists|i: int|
            0 <= i < problems.len() && (#[trigger] problems[i]).claim_id == Some(claim_id)
                && codes.contains(problems[i].code),
    decreases problems.len(),
{
    if problems.len() > 0 {
        let rest = problems.drop_first();
        first_problem_is_one(rest, claim_id, codes);
        if exists|i: int|
            0 <= i < rest.len() && (#[trigger] rest[i]).claim_id == Some(claim_id)
                && codes.contains(rest[i].code) {
            let i = choose|i: int|
                0 <= i < rest.len() && (#[trigger] rest[i]).claim_id == Some(claim_id)
                    && codes.contains(rest[i].code);
            assert(problems[i + 1] == rest[i]);
        }
        if exists|i: int|
            0 <= i < problems.len() && (#[trigger] problems[i]).claim_id == Some(claim_id)
                && codes.contains(problems[i].code) {
            let i = choose|i: int|
                0 <= i < problems.len() && (#[trigger] problems[i]).claim_id == Some(claim_id)
                    && codes.contains(problems[i].code);
            if i > 0 {
                assert(rest[i - 1] == problems[i]);
            }
        }
    }
}

proof fn own_checks_differ()
    ensures
        "integrity.worktree"@ != "integrity.branch"@,
        "integrity.worktree"@ != "integrity.base"@,
        "integrity.worktree"@ != "integrity.diff"@,
        "integrity.worktree"@ != "integrity.claim_schema"@,
        "integrity.branch"@ != "integrity.base"@,
        "integrity.branch"@ != "integrity.diff"@,
        "integrity.branch"@ != "integrity.claim_schema"@,
        "integrity.base"@ != "integrity.diff"@,
        "integrity.base"@ != "integrity.claim_schema"@,
        "integrity.diff"@ != "integrity.claim_schema"@,
{
    reveal_strlit("integrity.worktree");
    reveal_strlit("integrity.branch");
    reveal_strlit("integrity.base");
    reveal_strlit("integrity.diff");
    reveal_strlit("integrity.claim_schema");
    assert("integrity.base"@[10] == 'b');
    assert("integrity.diff"@[10] == 'd');
    assert("integrity.worktree"@.len() == 18);
    assert("integrity.branch"@.len() == 16);
    assert("integrity.base"@.len() == 14);
    assert("integrity.diff"@.len() == 14);
    assert("integrity.claim_schema"@.len() == 22);
}

/// The checks of a claim on itself: that on the worktree fails exactly where the worktree is
/// missing or another, that on the branch exactly where the branch is missing, and that on the base
/// exactly where the base is missing; each passes otherwise, and is required. The check on the diff
/// passes where there is one, and is skipped otherwise. All are on integrity.
pub proof fn problems_become_checks(observed: ObservationView, problems: Seq<ProblemView>, c: int)
    requires
        0 <= c < local_checks(observed, problems).len(),
    ensures
        ({
            let check = local_checks(observed, problems)[c];
            let id = observed.claim.claim_id;
            let worktree = has_problem(problems, id, LocalProblemCode::MissingWorktree)
                || has_problem(problems, id, LocalProblemCode::WorktreeMismatch);
            let branch = has_problem(problems, id, LocalProblemCode::MissingBranch);
            let base = has_problem(problems, id, LocalProblemCode::MissingBase);
            &&& check.gate is Integrity
            &&& check.id == "integrity.worktree"@ ==> check.required && if worktree {
                check.status is Fail
            } else {
                check.status is Pass
            }
            &&& check.id == "integrity.branch"@ ==> check.required && if branch {
                check.status is Fail
            } else {
                check.status is Pass
            }
            &&& check.id == "integrity.base"@ ==> check.required && if base {
                check.status is Fail
            } else {
                check.status is Pass
            }
            &&& check.id == "integrity.diff"@ ==> !check.required && if observed.diff is Some {
                check.status is Pass
            } else {
                check.status is Skip
            }
        }),
        exists|k: int|
            0 <= k < local_checks(observed, problems).len() && (#[trigger] local_checks(
                observed,
                problems,
            )[k]).id == "integrity.worktree"@,
        exists|k: int|
            0 <= k < local_checks(observed, problems).len() && (#[trigger] local_checks(
                observed,
                problems,
            )[k]).id == "integrity.branch"@,
        exists|k: int|
            0 <= k < local_checks(observed, problems).len() && (#[trigger] local_checks(
                observed,
                problems,
            )[k]).id == "integrity.base"@,
        exists|k: int|
            0 <= k < local_checks(observed, problems).len() && (#[trigger] local_checks(
                observed,
                problems,
            )[k]).id == "integrity.diff"@,
{
    own_checks_differ();
    let checks = local_checks(observed, problems);
    assert(checks[1].id == "integrity.worktree"@);
    assert(checks[2].id == "integrity.branch"@);
    assert(checks[3].id == "integrity.base"@);
    assert(checks[4].id == "integrity.diff"@);
    let id = observed.claim.claim_id;
    let worktree = seq![LocalProblemCode::MissingWorktree, LocalProblemCode::WorktreeMismatch];
    let branch = seq![LocalProblemCode::MissingBranch];
    let base = seq![LocalProblemCode::MissingBase];
    assert(worktree[0] is MissingWorktree && worktree[1] is WorktreeMismatch);
    assert(branch[0] is MissingBranch);
    assert(base[0] is MissingBase);
    first_problem_is_one(problems, id, worktree);
    first_problem_is_one(problems, id, branch);
    first_problem_is_one(problems, id, base);
}

/// Whether an observed claim has its worktree at a place.
pub open spec fn is_at(
    observed: ObservationView,
    places: Seq<(Seq<char>, Seq<char>)>,
    place: Seq<char>,
) -> bool {
    same_path(place_of(places, observed.claim.worktree), place)
}

proof fn owners_are_at_the_place(
    claims: Seq<ObservationView>,
    places: Seq<(Seq<char>, Seq<char>)>,
    place: Seq<char>,
)
    ensures
        owners_of(claims, places, place).len() > 0 <==> exists|i: int|
            0 <= i < claims.len() && is_at(#[trigger] claims[i], places, place),
        owners_of(claims, places, place).len() > 1 <==> exists|i: int, j: int|
            0 <= i < j < claims.len() && is_at(#[trigger] claims[i], places, place) && is_at(
                #[trigger] claims[j],
                places,
                place,
            ),
    decreases claims.len(),
{
    if claims.len() > 0 {
        let front = claims.drop_last();
        owners_are_at_the_place(front, places, place);
        let last = claims.len() - 1;
        assert(claims[last] == claims.last());
        if exists|i: int| 0 <= i < front.len() && is_at(#[trigger] front[i], places, place) {
            let i = choose|i: int| 0 <= i < front.len() && is_at(#[trigger] front[i], places, place);
            assert(is_at(claims[i], places, place));
        }
        if exists|i: int, j: int|
            0 <= i < j < front.len() && is_at(#[trigger] front[i], places, place) && is_at(
                #[trigger] front[j],
                places,
                place,
            ) {
            let (i, j) = choose|i: int, j: int|
                0 <= i < j < front.len() && is_at(#[trigger] front[i], places, place) && is_at(
                    #[trigger] front[j],
                    places,
                    place,
                );
            assert(is_at(claims[i], places, place) && is_at(claims[j], places, place));
        }
        if exists|i: int| 0 <= i < claims.len() && is_at(#[trigger] claims[i], places, place) {
            let i = choose|i: int|
                0 <= i < claims.len() && is_at(#[trigger] claims[i], places, place);
            if i < last {
                assert(is_at(front[i], places, place));
            }
        }
        if exists|i: int, j: int|
            0 <= i < j < claims.len() && is_at(#[trigger] claims[i], places, place) && is_at(
                #[trigger] claims[j],
                places,
                place,
            ) {
            let (i, j) = choose|i: int, j: int|
                0 <= i < j < claims.len() && is_at(#[trigger] claims[i], places, place) && is_at(
                    #[trigger] claims[j],
                    places,
                    place,
                );
            assert(is_at(front[i], places, place));
            if j < last {
                assert(is_at(front[j], places, place));
            }
        }
    }
}

/// The check on the ownership of the worktree of a claim fails exactly where two of the claims that
/// were looked at have their worktree at its place; otherwise it passes. It is on integrity, and
/// required.
pub proof fn worktrees_have_one_owner(
    claim: ClaimView,
    claims: Seq<ObservationView>,
    places: Seq<(Seq<char>, Seq<char>)>,
)
    ensures
        ({
            let place = place_of(places, claim.worktree);
            let shared = exists|i: int, j: int|
                0 <= i < j < claims.len() && is_at(#[trigger] claims[i], places, place) && is_at(
                    #[trigger] claims[j],
                    places,
                    place,
                );
            let check = ownership_check(claim, claims, places);
            let other = owners_check(claim, claims, places);
            &&& check.id == "integrity.ownership"@ && check.gate is Integrity && check.required
            &&& other.id == check.id && other.gate == check.gate && other.required
            &&& check.status is Fail <==> shared
            &&& check.status is Pass <==> !shared
            &&& other.status == check.status
        }),
{
    owners_are_at_the_place(claims, places, place_of(places, claim.worktree));
}

} // verus!
