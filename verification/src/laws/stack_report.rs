//! What the report on a stack tells of its nodes.
use vstd::prelude::*;

use crate::command::CommandRunner;
use crate::conflict::{analyzed, OverlapView};
use crate::diagnosis::{basic_checks, coordination, github_checked, Advice};
use crate::doctor::{report, with_node_reports, CheckView, NodeReportView, ReportView};
use crate::examination::{
    active_observed, active_overlaps, among_active, graph_checked, inactive_claims,
    last_node_reported, node_advice, node_made, node_said, nodes_reported, observed_as, records_of,
    stack_claims, stack_reported, stack_seen, subject_of,
};
use crate::id::{Id, IssueNumber};
use crate::laws::drift::{stack_told, stacks_are_told};
use crate::laws::findings::{
    observations_become_checks, overlap_is_told, scope_is_told, tells_overlap, tells_scope,
};
use crate::laws::gates::{
    holds_up, node_reports_tell_what_their_checks_come_to, nodes_count_in_reports, reported_so,
};
use crate::model::{ClaimView, ReleaseView};
use crate::observation::{
    all_observed, placed_claims, with_findings, Findings, LocalObservation, LocalView,
    ObservationView, Surroundings,
};
use crate::stack::{has_id, release_of, stack_of, NodeView, ResolutionView};
use crate::store::{active, active_means_unreleased, Ledger};
use crate::text::{pairs, views};
use crate::time::Timestamp;

verus! {

/// Whether a generation is recorded and has not been released.
pub open spec fn is_active(claims: Seq<ClaimView>, releases: Seq<ReleaseView>, id: Id) -> bool {
    exists|a: int|
        0 <= a < claims.len() && (#[trigger] claims[a]).claim_id == id && forall|r: int|
            0 <= r < releases.len() ==> !((#[trigger] releases[r]).issue == claims[a].issue
                && releases[r].claim_id == id)
}

/// Active generations are those that are recorded and not released.
pub proof fn active_claims_are_unreleased(
    claims: Seq<ClaimView>,
    releases: Seq<ReleaseView>,
    id: Id,
)
    ensures
        is_active(claims, releases, id) <==> exists|a: int|
            0 <= a < active(claims, releases).len() && (#[trigger] active(
                claims,
                releases,
            )[a]).claim_id == id,
{
    let left = active(claims, releases);
    if is_active(claims, releases, id) {
        let a = choose|a: int|
            0 <= a < claims.len() && (#[trigger] claims[a]).claim_id == id && forall|r: int|
                0 <= r < releases.len() ==> !((#[trigger] releases[r]).issue == claims[a].issue
                    && releases[r].claim_id == id);
        active_means_unreleased(claims, releases, claims[a]);
        assert(claims.contains(claims[a]));
        assert(left[left.index_of(claims[a])].claim_id == id);
    }
    if exists|a: int| 0 <= a < left.len() && (#[trigger] left[a]).claim_id == id {
        let a = choose|a: int| 0 <= a < left.len() && (#[trigger] left[a]).claim_id == id;
        active_means_unreleased(claims, releases, left[a]);
        assert(left.contains(left[a]));
        let k = claims.index_of(left[a]);
        assert(claims[k].claim_id == id);
    }
}

proof fn kept_overlaps(overlaps: Seq<OverlapView>, active: Seq<ClaimView>, overlap: OverlapView)
    ensures
        active_overlaps(overlaps, active).contains(overlap) <==> overlaps.contains(overlap)
            && exists|a: int|
            0 <= a < active.len() && (#[trigger] active[a]).claim_id == overlap.with_claim_id,
    decreases overlaps.len(),
{
    if overlaps.len() > 0 {
        let front = overlaps.drop_last();
        let early = active_overlaps(front, active);
        let all = active_overlaps(overlaps, active);
        kept_overlaps(front, active, overlap);
        assert(overlaps[overlaps.len() - 1] == overlaps.last());
        if early.contains(overlap) {
            assert(all[early.index_of(overlap)] == overlap);
            assert(overlaps[front.index_of(overlap)] == overlap);
        }
        if all.contains(overlap) {
            let k = all.index_of(overlap);
            if k < early.len() {
                assert(early[k] == overlap);
            }
        }
        if overlaps.contains(overlap) {
            let k = overlaps.index_of(overlap);
            if k < front.len() {
                assert(front[k] == overlap);
            } else if exists|a: int|
                0 <= a < active.len() && (#[trigger] active[a]).claim_id == overlap.with_claim_id {
                assert(all[all.len() - 1] == overlap);
            }
        }
    }
}

/// Of what was observed of a claim, the overlaps with active claims are kept, and no others. All
/// else stays as it was.
pub proof fn overlaps_with_active_claims_are_kept(
    observed: ObservationView,
    active: Seq<ClaimView>,
    overlap: OverlapView,
)
    ensures
        among_active(observed, active).overlaps.contains(overlap) <==> observed.overlaps.contains(
            overlap,
        ) && exists|a: int|
            0 <= a < active.len() && (#[trigger] active[a]).claim_id == overlap.with_claim_id,
        among_active(observed, active).claim == observed.claim,
        among_active(observed, active).diff == observed.diff,
        among_active(observed, active).scope_warnings == observed.scope_warnings,
{
    kept_overlaps(observed.overlaps, active, overlap);
}

/// Whether the report on an active node tells what was observed of it: every overlap with an active
/// claim, no other overlap, and every warning on its scope.
pub open spec fn tells_observation(
    claims: Seq<ClaimView>,
    releases: Seq<ReleaseView>,
    observed: ObservationView,
    checks: Seq<CheckView>,
) -> bool {
    &&& forall|o: int|
        0 <= o < observed.overlaps.len() && is_active(
            claims,
            releases,
            (#[trigger] observed.overlaps[o]).with_claim_id,
        ) ==> overlap_is_told(checks, observed.claim, observed.overlaps[o])
    &&& forall|c: int|
        0 <= c < checks.len() && (#[trigger] checks[c]).gate is Merge && checks[c].id
            == "merge.overlap"@ ==> exists|o: int|
            0 <= o < observed.overlaps.len() && is_active(
                claims,
                releases,
                (#[trigger] observed.overlaps[o]).with_claim_id,
            ) && tells_overlap(checks[c], observed.claim, observed.overlaps[o])
    &&& forall|w: int|
        0 <= w < observed.scope_warnings.len() ==> scope_is_told(
            checks,
            #[trigger] observed.scope_warnings[w],
        )
}

/// Whether an observed overlap of a claim with an active claim blocks.
pub open spec fn is_blocked_by_active(
    claims: Seq<ClaimView>,
    releases: Seq<ReleaseView>,
    observed: ObservationView,
) -> bool {
    exists|o: int|
        0 <= o < observed.overlaps.len() && (#[trigger] observed.overlaps[o]).severity is Blocking
            && is_active(claims, releases, observed.overlaps[o].with_claim_id)
}

/// Whether a generation has been released.
pub open spec fn is_released_generation(releases: Seq<ReleaseView>, claim: ClaimView) -> bool {
    exists|r: int|
        0 <= r < releases.len() && (#[trigger] releases[r]).issue == claim.issue
            && releases[r].claim_id == claim.claim_id
}

/// Whether the report on a node is the one that is owed. Where the node is active, it tells what
/// was observed of its claim and what GitHub said of it, and a blocking overlap with an active
/// claim holds up merging; where it was released, publishing is held up.
pub open spec fn node_told<R: CommandRunner>(
    runner: &R,
    surroundings: Surroundings,
    claims: Seq<ClaimView>,
    releases: Seq<ReleaseView>,
    seen: Seq<ObservationView>,
    node: NodeView,
    told: NodeReportView,
) -> bool {
    &&& told.claim_id == node.claim.claim_id && told.issue == node.claim.issue
    &&& reported_so(told.checks, told.gates, told.status)
    &&& is_active(claims, releases, node.claim.claim_id) ==> exists|s: int|
        0 <= s < seen.len() && (#[trigger] seen[s]).claim.claim_id == node.claim.claim_id
            && tells_observation(claims, releases, seen[s], told.checks) && (is_blocked_by_active(
            claims,
            releases,
            seen[s],
        ) ==> holds_up(told.gates.merge))
    &&& is_active(claims, releases, node.claim.claim_id) && surroundings.repository.on_github()
        ==> exists|more: Advice| #[trigger]
        github_checked(
            runner,
            surroundings.repository.main_worktree@,
            surroundings.repository.repository@,
            node.claim,
            more,
        ) && forall|c: int|
            0 <= c < more.checks.len() ==> told.checks.contains(#[trigger] more.checks[c])
    &&& is_released_generation(releases, node.claim) ==> holds_up(told.gates.publish)
}

proof fn releases_are_found(releases: Seq<ReleaseView>, claim: ClaimView)
    ensures
        release_of(releases, claim.issue, claim.claim_id) is Some <==> is_released_generation(
            releases,
            claim,
        ),
    decreases releases.len(),
{
    if releases.len() > 0 {
        let rest = releases.drop_first();
        releases_are_found(rest, claim);
        if is_released_generation(rest, claim) {
            let r = choose|r: int|
                0 <= r < rest.len() && (#[trigger] rest[r]).issue == claim.issue
                    && rest[r].claim_id == claim.claim_id;
            assert(releases[r + 1] == rest[r]);
        }
        if is_released_generation(releases, claim) {
            let r = choose|r: int|
                0 <= r < releases.len() && (#[trigger] releases[r]).issue == claim.issue
                    && releases[r].claim_id == claim.claim_id;
            if r > 0 {
                assert(rest[r - 1] == releases[r]);
            }
        }
    }
}

proof fn first_observed(seen: Seq<ObservationView>, id: Id)
    ensures
        match observed_as(seen, id) {
            Some(observed) => exists|s: int|
                0 <= s < seen.len() && #[trigger] seen[s] == observed && observed.claim.claim_id
                    == id,
            None => forall|s: int|
                0 <= s < seen.len() ==> (#[trigger] seen[s]).claim.claim_id != id,
        },
    decreases seen.len(),
{
    if seen.len() > 0 {
        let rest = seen.drop_first();
        first_observed(rest, id);
        if seen[0].claim.claim_id != id {
            match observed_as(rest, id) {
                Some(observed) => {
                    let s = choose|s: int|
                        0 <= s < rest.len() && #[trigger] rest[s] == observed
                            && observed.claim.claim_id == id;
                    assert(seen[s + 1] == rest[s]);
                },
                None => {
                    assert forall|s: int| 0 <= s < seen.len() implies (
                    #[trigger] seen[s]).claim.claim_id != id by {
                        if s > 0 {
                            assert(rest[s - 1] == seen[s]);
                        }
                    }
                },
            }
        }
    }
}

spec fn with_coordination(
    own: Seq<CheckView>,
    kept: ObservationView,
    later: Seq<CheckView>,
) -> Seq<CheckView> {
    own + coordination(kept).checks + later
}

proof fn observed_overlap_is_told(
    claims: Seq<ClaimView>,
    releases: Seq<ReleaseView>,
    observed: ObservationView,
    own: Seq<CheckView>,
    later: Seq<CheckView>,
    o: int,
)
    requires
        0 <= o < observed.overlaps.len(),
        is_active(claims, releases, observed.overlaps[o].with_claim_id),
    ensures
        overlap_is_told(
            with_coordination(own, among_active(observed, active(claims, releases)), later),
            observed.claim,
            observed.overlaps[o],
        ),
{
    let left = active(claims, releases);
    let kept = among_active(observed, left);
    let coordinated = coordination(kept).checks;
    let checks = with_coordination(own, kept, later);
    let overlap = observed.overlaps[o];
    active_claims_are_unreleased(claims, releases, overlap.with_claim_id);
    kept_overlaps(observed.overlaps, left, overlap);
    assert(kept.overlaps.contains(overlap));
    let k = kept.overlaps.index_of(overlap);
    observations_become_checks(kept);
    assert(overlap_is_told(coordinated, kept.claim, kept.overlaps[k]));
    let c = choose|c: int|
        0 <= c < coordinated.len() && tells_overlap(
            #[trigger] coordinated[c],
            kept.claim,
            kept.overlaps[k],
        );
    assert(checks[own.len() + c] == coordinated[c]);
}

proof fn told_overlap_is_one(
    claims: Seq<ClaimView>,
    releases: Seq<ReleaseView>,
    observed: ObservationView,
    own: Seq<CheckView>,
    later: Seq<CheckView>,
    c: int,
) -> (o: int)
    requires
        forall|c: int| 0 <= c < own.len() ==> (#[trigger] own[c]).gate !is Merge,
        forall|c: int| 0 <= c < later.len() ==> (#[trigger] later[c]).gate !is Merge,
        ({
            let checks = with_coordination(
                own,
                among_active(observed, active(claims, releases)),
                later,
            );
            0 <= c < checks.len() && checks[c].gate is Merge && checks[c].id == "merge.overlap"@
        }),
    ensures
        ({
            let checks = with_coordination(
                own,
                among_active(observed, active(claims, releases)),
                later,
            );
            0 <= o < observed.overlaps.len() && is_active(
                claims,
                releases,
                observed.overlaps[o].with_claim_id,
            ) && tells_overlap(checks[c], observed.claim, observed.overlaps[o])
        }),
{
    let left = active(claims, releases);
    let kept = among_active(observed, left);
    let coordinated = coordination(kept).checks;
    let checks = with_coordination(own, kept, later);
    if c < own.len() {
        assert(checks[c] == own[c]);
    } else if c >= own.len() + coordinated.len() {
        assert(checks[c] == later[c - own.len() - coordinated.len()]);
    }
    let k = c - own.len();
    assert(checks[c] == coordinated[k]);
    observations_become_checks(kept);
    let o = choose|o: int|
        0 <= o < kept.overlaps.len() && tells_overlap(
            coordinated[k],
            kept.claim,
            #[trigger] kept.overlaps[o],
        );
    let overlap = kept.overlaps[o];
    assert(kept.overlaps.contains(overlap));
    kept_overlaps(observed.overlaps, left, overlap);
    active_claims_are_unreleased(claims, releases, overlap.with_claim_id);
    observed.overlaps.index_of(overlap)
}

proof fn observed_scope_is_told(
    kept: ObservationView,
    own: Seq<CheckView>,
    later: Seq<CheckView>,
    w: int,
)
    requires
        0 <= w < kept.scope_warnings.len(),
    ensures
        scope_is_told(with_coordination(own, kept, later), kept.scope_warnings[w]),
{
    let coordinated = coordination(kept).checks;
    let checks = with_coordination(own, kept, later);
    observations_become_checks(kept);
    assert(scope_is_told(coordinated, kept.scope_warnings[w]));
    let c = choose|c: int|
        0 <= c < coordinated.len() && tells_scope(
            #[trigger] coordinated[c],
            kept.scope_warnings[w],
        );
    assert(checks[own.len() + c] == coordinated[c]);
}

proof fn checks_tell_observation(
    claims: Seq<ClaimView>,
    releases: Seq<ReleaseView>,
    observed: ObservationView,
    own: Seq<CheckView>,
    later: Seq<CheckView>,
    checks: Seq<CheckView>,
)
    requires
        forall|c: int| 0 <= c < own.len() ==> (#[trigger] own[c]).gate !is Merge,
        forall|c: int| 0 <= c < later.len() ==> (#[trigger] later[c]).gate !is Merge,
        checks == with_coordination(own, among_active(observed, active(claims, releases)), later),
    ensures
        tells_observation(claims, releases, observed, checks),
        is_blocked_by_active(claims, releases, observed) ==> exists|c: int|
            0 <= c < checks.len() && (#[trigger] checks[c]).status is Fail && checks[c].gate
                is Merge,
{
    let kept = among_active(observed, active(claims, releases));
    assert forall|o: int|
        #![trigger observed.overlaps[o]]
        0 <= o < observed.overlaps.len() && is_active(
            claims,
            releases,
            observed.overlaps[o].with_claim_id,
        ) implies overlap_is_told(checks, observed.claim, observed.overlaps[o]) by {
        observed_overlap_is_told(claims, releases, observed, own, later, o);
    }
    assert forall|c: int|
        #![trigger checks[c]]
        0 <= c < checks.len() && checks[c].gate is Merge && checks[c].id
            == "merge.overlap"@ implies exists|o: int|
        0 <= o < observed.overlaps.len() && is_active(
            claims,
            releases,
            (#[trigger] observed.overlaps[o]).with_claim_id,
        ) && tells_overlap(checks[c], observed.claim, observed.overlaps[o]) by {
        let o = told_overlap_is_one(claims, releases, observed, own, later, c);
        assert(tells_overlap(checks[c], observed.claim, observed.overlaps[o]));
    }
    assert forall|w: int| 0 <= w < observed.scope_warnings.len() implies scope_is_told(
        checks,
        #[trigger] observed.scope_warnings[w],
    ) by {
        observed_scope_is_told(kept, own, later, w);
    }
    if is_blocked_by_active(claims, releases, observed) {
        let o = choose|o: int|
            0 <= o < observed.overlaps.len() && (#[trigger] observed.overlaps[o]).severity
                is Blocking && is_active(claims, releases, observed.overlaps[o].with_claim_id);
        assert(overlap_is_told(checks, observed.claim, observed.overlaps[o]));
        let c = choose|c: int|
            0 <= c < checks.len() && tells_overlap(
                #[trigger] checks[c],
                observed.claim,
                observed.overlaps[o],
            );
        assert(checks[c].status is Fail && checks[c].gate is Merge);
    }
}

proof fn node_is_told<R: CommandRunner>(
    runner: &R,
    surroundings: Surroundings,
    claims: Seq<ClaimView>,
    releases: Seq<ReleaseView>,
    sight: LocalView,
    node: NodeView,
    observed: ObservationView,
    said: Advice,
)
    requires
        node.active == has_id(active(claims, releases), node.claim.claim_id),
        node.release == release_of(releases, node.claim.issue, node.claim.claim_id),
        observed_as(sight.claims, node.claim.claim_id) == Some(observed),
        node_said(
            runner,
            surroundings,
            node,
            node_advice(
                node,
                observed,
                sight,
                active(claims, releases),
                pairs(surroundings.places@),
            ),
            said,
        ),
    ensures
        node_told(
            runner,
            surroundings,
            claims,
            releases,
            sight.claims,
            node,
            node_made(node, said),
        ),
{
    let left = active(claims, releases);
    let told = node_made(node, said);
    let places = pairs(surroundings.places@);
    let local = node_advice(node, observed, sight, left, places);
    let id = node.claim.claim_id;
    first_observed(sight.claims, id);
    active_claims_are_unreleased(claims, releases, id);
    releases_are_found(releases, node.claim);
    node_reports_tell_what_their_checks_come_to(
        node.claim.issue,
        id,
        told.checks,
        told.recommendations,
    );
    if is_released_generation(releases, node.claim) {
        let last = told.checks.len() - 1;
        assert(told.checks[last].status is Fail && told.checks[last].gate is Publish);
    }
    if is_active(claims, releases, id) {
        assert(node.active);
        let own = basic_checks(
            observed,
            sight.problems,
            Some(active_observed(sight.claims, left)),
            places,
        );
        let coordinated = coordination(among_active(observed, left)).checks;
        let later = told.checks.skip(local.checks.len() as int);
        assert(local.checks == own + coordinated);
        assert(told.checks =~= own + coordinated + later) by {
            assert(said.checks.take(local.checks.len() as int) =~= local.checks);
            assert(told.checks.take(local.checks.len() as int) =~= local.checks);
        }
        assert forall|c: int| 0 <= c < later.len() implies (#[trigger] later[c]).gate !is Merge by {
            later_checks_are_on_publishing(
                runner,
                surroundings,
                node,
                local,
                said,
                local.checks.len() + c,
            );
        }
        checks_tell_observation(claims, releases, observed, own, later, told.checks);
        if surroundings.repository.on_github() {
            let more = choose|more: Advice| #[trigger]
                github_checked(
                    runner,
                    surroundings.repository.main_worktree@,
                    surroundings.repository.repository@,
                    node.claim,
                    more,
                ) && said == local.and(more);
            assert forall|c: int| 0 <= c < more.checks.len() implies told.checks.contains(
                #[trigger] more.checks[c],
            ) by {
                assert(said.checks[local.checks.len() + c] == more.checks[c]);
                assert(told.checks[local.checks.len() + c] == more.checks[c]);
            }
        }
    }
}

proof fn later_checks_are_on_publishing<R: CommandRunner>(
    runner: &R,
    surroundings: Surroundings,
    node: NodeView,
    local: Advice,
    said: Advice,
    c: int,
)
    requires
        node_said(runner, surroundings, node, local, said),
        local.checks.len() <= c < node_made(node, said).checks.len(),
    ensures
        node_made(node, said).checks[c].gate is Publish,
{
    if c < said.checks.len() {
        let more = choose|more: Advice| #[trigger]
            github_checked(
                runner,
                surroundings.repository.main_worktree@,
                surroundings.repository.repository@,
                node.claim,
                more,
            ) && said == local.and(more);
        let k = c - local.checks.len();
        assert(said.checks[c] == more.checks[k]);
        assert(more.checks.len() == 2);
        assert(more.checks[0].gate is Publish && more.checks[1].gate is Publish);
    }
}

spec fn nodes_fit(
    claims: Seq<ClaimView>,
    releases: Seq<ReleaseView>,
    seen: Seq<ObservationView>,
    nodes: Seq<NodeView>,
) -> bool {
    forall|n: int|
        0 <= n < nodes.len() ==> (#[trigger] nodes[n]).active == has_id(
            active(claims, releases),
            nodes[n].claim.claim_id,
        ) && nodes[n].release == release_of(
            releases,
            nodes[n].claim.issue,
            nodes[n].claim.claim_id,
        ) && observed_as(seen, nodes[n].claim.claim_id) is Some
}

proof fn nodes_are_told<R: CommandRunner>(
    runner: &R,
    surroundings: Surroundings,
    claims: Seq<ClaimView>,
    releases: Seq<ReleaseView>,
    sight: LocalView,
    nodes: Seq<NodeView>,
    count: nat,
    reports: Seq<NodeReportView>,
)
    requires
        count <= nodes.len(),
        nodes_fit(claims, releases, sight.claims, nodes),
        nodes_reported(
            runner,
            surroundings,
            sight,
            active(claims, releases),
            nodes,
            count,
            reports,
        ),
    ensures
        reports.len() == count,
        forall|n: int|
            0 <= n < count ==> node_told(
                runner,
                surroundings,
                claims,
                releases,
                sight.claims,
                nodes[n],
                #[trigger] reports[n],
            ),
    decreases count,
{
    if count > 0 {
        let left = active(claims, releases);
        let before = choose|before: Seq<NodeReportView>|
            nodes_reported(
                runner,
                surroundings,
                sight,
                left,
                nodes,
                (count - 1) as nat,
                before,
            ) && #[trigger] last_node_reported(
                runner,
                surroundings,
                sight,
                left,
                nodes,
                count,
                before,
                reports,
            );
        nodes_are_told(
            runner,
            surroundings,
            claims,
            releases,
            sight,
            nodes,
            (count - 1) as nat,
            before,
        );
        let node = nodes[count - 1];
        let observed = observed_as(sight.claims, node.claim.claim_id)->0;
        let local = node_advice(node, observed, sight, left, pairs(surroundings.places@));
        let said = choose|said: Advice| #[trigger]
            node_said(runner, surroundings, node, local, said) && reports == before.push(
                node_made(node, said),
            );
        node_is_told(runner, surroundings, claims, releases, sight, node, observed, said);
        assert forall|n: int| 0 <= n < count implies node_told(
            runner,
            surroundings,
            claims,
            releases,
            sight.claims,
            nodes[n],
            #[trigger] reports[n],
        ) by {
            if n < count - 1 {
                assert(reports[n] == before[n]);
            }
        }
    }
}

proof fn inactive_nodes_are_added(nodes: Seq<NodeView>, active: Seq<ClaimView>, n: int)
    requires
        0 <= n < nodes.len(),
    ensures
        has_id(active, nodes[n].claim.claim_id) || has_id(
            inactive_claims(nodes, active),
            nodes[n].claim.claim_id,
        ),
    decreases nodes.len(),
{
    let id = nodes[n].claim.claim_id;
    let front = inactive_claims(nodes.drop_last(), active);
    let all = inactive_claims(nodes, active);
    if n < nodes.len() - 1 {
        inactive_nodes_are_added(nodes.drop_last(), active, n);
        assert(nodes.drop_last()[n] == nodes[n]);
        if has_id(front, id) {
            let k = choose|k: int| 0 <= k < front.len() && (#[trigger] front[k]).claim_id == id;
            assert(all[k] == front[k]);
        }
    } else if !has_id(active, id) {
        assert(all[all.len() - 1].claim_id == id);
    }
}

/// What is looked at for a stack is looked at as it is: the active claims and the claims of the
/// nodes, each with its findings.
proof fn nodes_are_seen<R: CommandRunner>(
    runner: &R,
    surroundings: Surroundings,
    ledger: Ledger,
    resolution: ResolutionView,
    sight: LocalObservation,
    n: int,
)
    requires
        stack_seen(runner, surroundings, ledger, resolution, Ok(sight)),
        0 <= n < resolution.nodes.len(),
    ensures
        observed_as(sight@.claims, resolution.nodes[n].claim.claim_id) is Some,
{
    let left = records_of(ledger).active;
    let all = stack_claims(resolution.nodes, left);
    let id = resolution.nodes[n].claim.claim_id;
    let more = inactive_claims(resolution.nodes, left);
    inactive_nodes_are_added(resolution.nodes, left, n);
    assert(has_id(all, id)) by {
        if has_id(left, id) {
            let k = choose|k: int| 0 <= k < left.len() && (#[trigger] left[k]).claim_id == id;
            assert(all[k] == left[k]);
        } else {
            let k = choose|k: int| 0 <= k < more.len() && (#[trigger] more[k]).claim_id == id;
            assert(all[left.len() + k] == more[k]);
        }
    }
    let k = choose|k: int| 0 <= k < all.len() && (#[trigger] all[k]).claim_id == id;
    let placed = placed_claims(all, pairs(surroundings.places@));
    let findings = choose|findings: Seq<Findings>| #[trigger]
        all_observed(
            runner,
            surroundings.repository.main_worktree@,
            placed,
            views(surroundings.worktrees@),
            findings,
        ) && findings.len() >= placed.len() && views(sight.claims@) == analyzed(
            with_findings(placed, findings),
            pairs(surroundings.risk_paths@),
        );
    assert(sight@.claims[k].claim == all[k]);
    first_observed(sight@.claims, id);
}

/// The report on a stack has a report on each of its nodes, in their order, which tells what is
/// owed of it. So every overlap that was observed between an active node and an active claim is
/// told, with the status that its severity calls for, and none with a claim that is not active. An
/// overlap that blocks holds up the merging of the whole stack, and a generation that was released
/// its publishing.
pub proof fn stack_reports_tell_of_their_nodes<R: CommandRunner>(
    runner: &R,
    surroundings: Surroundings,
    ledger: Ledger,
    target_issue: IssueNumber,
    generated_at: Timestamp,
    made: ReportView,
)
    requires
        stack_reported(runner, surroundings, ledger, target_issue, generated_at, made),
    ensures
        exists|resolution: ResolutionView, sight: LocalObservation|
            #![trigger stack_seen(runner, surroundings, ledger, resolution, Ok(sight))]
            {
                let claims = views(ledger.claims@);
                let releases = views(ledger.releases@);
                &&& stack_of(records_of(ledger), target_issue, resolution)
                &&& stack_seen(runner, surroundings, ledger, resolution, Ok(sight))
                &&& made.nodes.len() == resolution.nodes.len()
                &&& forall|n: int|
                    0 <= n < made.nodes.len() ==> node_told(
                        runner,
                        surroundings,
                        claims,
                        releases,
                        sight@.claims,
                        resolution.nodes[n],
                        #[trigger] made.nodes[n],
                    )
            },
        forall|n: int|
            0 <= n < made.nodes.len() ==> {
                &&& holds_up((#[trigger] made.nodes[n]).gates.merge) ==> holds_up(made.gates.merge)
                &&& holds_up(made.nodes[n].gates.publish) ==> holds_up(made.gates.publish)
                &&& holds_up(made.nodes[n].gates.integrity) ==> holds_up(made.gates.integrity)
                &&& holds_up(made.nodes[n].status) ==> holds_up(made.status)
            },
        stack_told(
            runner,
            surroundings.repository.main_worktree@,
            records_of(ledger),
            target_issue,
            made.checks,
        ),
        made.subject.issue == Some(target_issue) && made.subject.stack && made.subject.repo
            == surroundings.repository.repository@ && made.generated_at == generated_at,
{
    let records = records_of(ledger);
    let claims = views(ledger.claims@);
    let releases = views(ledger.releases@);
    let (resolution, graph, sight, reports) = choose|
        resolution: ResolutionView,
        graph: Advice,
        sight: LocalObservation,
        reports: Seq<NodeReportView>,
    |
        #![trigger stack_of(records, target_issue, resolution), graph_checked(
            runner, surroundings, records, target_issue, graph), stack_seen(
            runner, surroundings, ledger, resolution, Ok(sight)), nodes_reported(
            runner, surroundings, sight@, records.active, resolution.nodes,
            resolution.nodes.len(), reports)]
        stack_of(records, target_issue, resolution) && graph_checked(
            runner,
            surroundings,
            records,
            target_issue,
            graph,
        ) && stack_seen(runner, surroundings, ledger, resolution, Ok(sight)) && nodes_reported(
            runner,
            surroundings,
            sight@,
            records.active,
            resolution.nodes,
            resolution.nodes.len(),
            reports,
        ) && made == with_node_reports(
            report(
                subject_of(surroundings, Some(target_issue), true),
                graph.checks,
                graph.recommendations,
                generated_at,
            ),
            reports,
        );
    assert(nodes_fit(claims, releases, sight@.claims, resolution.nodes)) by {
        assert forall|n: int| 0 <= n < resolution.nodes.len() implies observed_as(
            sight@.claims,
            (#[trigger] resolution.nodes[n]).claim.claim_id,
        ) is Some by {
            nodes_are_seen(runner, surroundings, ledger, resolution, sight, n);
        }
    }
    nodes_are_told(
        runner,
        surroundings,
        claims,
        releases,
        sight@,
        resolution.nodes,
        resolution.nodes.len(),
        reports,
    );
    let own = report(
        subject_of(surroundings, Some(target_issue), true),
        graph.checks,
        graph.recommendations,
        generated_at,
    );
    assert(made.nodes == reports);
    let roots = seq![target_issue];
    stacks_are_told(runner, surroundings.repository.main_worktree@, records, roots, graph);
    assert(roots[0] == target_issue);
    assert forall|n: int| 0 <= n < made.nodes.len() implies {
        &&& holds_up((#[trigger] made.nodes[n]).gates.merge) ==> holds_up(made.gates.merge)
        &&& holds_up(made.nodes[n].gates.publish) ==> holds_up(made.gates.publish)
        &&& holds_up(made.nodes[n].gates.integrity) ==> holds_up(made.gates.integrity)
        &&& holds_up(made.nodes[n].status) ==> holds_up(made.status)
    } by {
        assert(node_told(
            runner,
            surroundings,
            claims,
            releases,
            sight@.claims,
            resolution.nodes[n],
            reports[n],
        ));
        nodes_count_in_reports(own, reports, n);
    }
}

} // verus!
