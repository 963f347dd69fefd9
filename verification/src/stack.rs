//! Stacks: how a claim builds on the exact generations that it was based on, and which issues wait
//! for each other.
use vstd::prelude::*;

use crate::id::{Id, IssueNumber};
use crate::model::{Claim, ClaimView, ReleaseMarker, ReleaseView};
use crate::text::{optional, views};

verus! {

/// One generation of a stack.
#[derive(Debug)]
pub struct StackNode {
    pub claim: Claim,
    pub active: bool,
    pub release: Option<ReleaseMarker>,
}

pub struct NodeView {
    pub claim: ClaimView,
    pub active: bool,
    pub release: Option<ReleaseView>,
}

impl View for StackNode {
    type V = NodeView;

    open spec fn view(&self) -> NodeView {
        NodeView { claim: self.claim@, active: self.active, release: optional(self.release) }
    }
}

/// Why a stack cannot be resolved.
#[derive(Debug)]
pub enum StackProblem {
    MissingTarget { issue: IssueNumber },
    DuplicateTarget { issue: IssueNumber },
    MissingParent {
        child_claim_id: Id,
        parent_issue: IssueNumber,
        parent_claim_id: Id,
        replacement_claim_id: Option<Id>,
    },
    BaseCycle { cycle: Vec<Id> },
}

pub enum StackProblemView {
    MissingTarget { issue: IssueNumber },
    DuplicateTarget { issue: IssueNumber },
    MissingParent {
        child_claim_id: Id,
        parent_issue: IssueNumber,
        parent_claim_id: Id,
        replacement_claim_id: Option<Id>,
    },
    BaseCycle { cycle: Seq<Id> },
}

impl View for StackProblem {
    type V = StackProblemView;

    open spec fn view(&self) -> StackProblemView {
        match self {
            StackProblem::MissingTarget { issue } => StackProblemView::MissingTarget { issue: *issue },
            StackProblem::DuplicateTarget { issue } => StackProblemView::DuplicateTarget {
                issue: *issue,
            },
            StackProblem::MissingParent {
                child_claim_id,
                parent_issue,
                parent_claim_id,
                replacement_claim_id,
            } => StackProblemView::MissingParent {
                child_claim_id: *child_claim_id,
                parent_issue: *parent_issue,
                parent_claim_id: *parent_claim_id,
                replacement_claim_id: *replacement_claim_id,
            },
            StackProblem::BaseCycle { cycle } => StackProblemView::BaseCycle { cycle: cycle@ },
        }
    }
}

/// The generations of a stack, from its root to its target, and what is wrong with it.
#[derive(Debug)]
pub struct StackResolution {
    pub nodes: Vec<StackNode>,
    pub problem: Option<StackProblem>,
}

pub struct ResolutionView {
    pub nodes: Seq<NodeView>,
    pub problem: Option<StackProblemView>,
}

impl View for StackResolution {
    type V = ResolutionView;

    open spec fn view(&self) -> ResolutionView {
        ResolutionView { nodes: views(self.nodes@), problem: optional(self.problem) }
    }
}

// ---------------------------------------------------------------------------------------------
// What a stack is
// ---------------------------------------------------------------------------------------------
/// The exact generation that a claim builds on, if it builds on one.
pub open spec fn parent_link(claim: ClaimView) -> Option<(IssueNumber, Id)> {
    if claim.base_issue is Some && claim.base_claim_id is Some {
        Some((claim.base_issue->0, claim.base_claim_id->0))
    } else {
        None
    }
}

/// The first recorded generation of an issue that has that identifier.
pub open spec fn generation(claims: Seq<ClaimView>, issue: IssueNumber, id: Id) -> Option<ClaimView>
    decreases claims.len(),
{
    if claims.len() == 0 {
        None
    } else if claims[0].issue == issue && claims[0].claim_id == id {
        Some(claims[0])
    } else {
        generation(claims.drop_first(), issue, id)
    }
}

/// The recorded generation that a claim builds on.
pub open spec fn recorded_parent(records: Records, claim: ClaimView) -> Option<ClaimView> {
    match parent_link(claim) {
        Some((issue, id)) => generation(records.claims, issue, id),
        None => None,
    }
}

/// The first recorded release of that generation.
pub open spec fn release_of(
    releases: Seq<ReleaseView>,
    issue: IssueNumber,
    id: Id,
) -> Option<ReleaseView>
    decreases releases.len(),
{
    if releases.len() == 0 {
        None
    } else if releases[0].issue == issue && releases[0].claim_id == id {
        Some(releases[0])
    } else {
        release_of(releases.drop_first(), issue, id)
    }
}

/// Whether one of the claims is that generation.
pub open spec fn has_id(claims: Seq<ClaimView>, id: Id) -> bool {
    exists|i: int| 0 <= i < claims.len() && (#[trigger] claims[i]).claim_id == id
}

/// The generation of the last of the claims on that issue.
pub open spec fn latest_on(claims: Seq<ClaimView>, issue: IssueNumber) -> Option<Id>
    decreases claims.len(),
{
    if claims.len() == 0 {
        None
    } else if claims.last().issue == issue {
        Some(claims.last().claim_id)
    } else {
        latest_on(claims.drop_last(), issue)
    }
}

/// Among what claims, releases and active claims a stack is looked up.
pub struct Records {
    pub claims: Seq<ClaimView>,
    pub releases: Seq<ReleaseView>,
    pub active: Seq<ClaimView>,
}

pub open spec fn node_of(records: Records, claim: ClaimView) -> NodeView {
    NodeView {
        claim,
        active: has_id(records.active, claim.claim_id),
        release: release_of(records.releases, claim.issue, claim.claim_id),
    }
}

/// The nodes of a chain that goes from the target up to the root, from the root down.
pub open spec fn nodes_of(records: Records, chain: Seq<ClaimView>) -> Seq<NodeView> {
    Seq::new(chain.len(), |i: int| node_of(records, chain[chain.len() - 1 - i]))
}

pub open spec fn ids_of(chain: Seq<ClaimView>) -> Seq<Id> {
    Seq::new(chain.len(), |i: int| chain[i].claim_id)
}

/// A chain of generations, each of which builds on the next, and none of which occurs twice.
pub open spec fn is_chain(records: Records, target: ClaimView, chain: Seq<ClaimView>) -> bool {
    &&& chain.len() > 0
    &&& chain[0] == target
    &&& ids_of(chain).no_duplicates()
    &&& forall|i: int|
        0 <= i < chain.len() - 1 ==> recorded_parent(records, #[trigger] chain[i]) == Some(
            chain[i + 1],
        )
}

/// Where the first of the smallest of the keys stands.
pub open spec fn least_position(keys: Seq<int>) -> int
    decreases keys.len(),
{
    if keys.len() <= 1 {
        0
    } else {
        let at = least_position(keys.drop_last());
        if keys.last() < keys[at] {
            keys.len() - 1
        } else {
            at
        }
    }
}

/// The items from the one with the smallest key round to it again.
pub open spec fn turned<T>(items: Seq<T>, keys: Seq<int>) -> Seq<T> {
    let at = least_position(keys);
    (items.skip(at) + items.take(at)).push(items[at])
}

pub open spec fn id_keys(ids: Seq<Id>) -> Seq<int> {
    Seq::new(ids.len(), |i: int| ids[i] as int)
}

pub open spec fn issue_keys(issues: Seq<IssueNumber>) -> Seq<int> {
    Seq::new(issues.len(), |i: int| issues[i] as int)
}

/// A cycle of generations, from the smallest identifier round to it again.
pub open spec fn id_cycle(ids: Seq<Id>) -> Seq<Id> {
    turned(ids, id_keys(ids))
}

/// What the stack above a claim is: its whole chain where it ends in a claim that builds on none;
/// the chain up to a claim whose exact parent is not recorded; or a cycle.
pub open spec fn resolved(
    records: Records,
    target: ClaimView,
    chain: Seq<ClaimView>,
    resolution: ResolutionView,
) -> bool {
    &&& is_chain(records, target, chain)
    &&& match parent_link(chain.last()) {
        None => resolution == (ResolutionView { nodes: nodes_of(records, chain), problem: None }),
        Some((issue, id)) => if ids_of(chain).contains(id) {
            &&& resolution.nodes.len() == 0
            &&& resolution.problem matches Some(StackProblemView::BaseCycle { cycle })
                && cycle == id_cycle(ids_of(chain).skip(ids_of(chain).index_of(id)))
        } else {
            &&& generation(records.claims, issue, id) is None
            &&& resolution == (ResolutionView {
                nodes: nodes_of(records, chain),
                problem: Some(
                    StackProblemView::MissingParent {
                        child_claim_id: chain.last().claim_id,
                        parent_issue: issue,
                        parent_claim_id: id,
                        replacement_claim_id: latest_on(records.active, issue),
                    },
                ),
            })
        },
    }
}

/// The active claims on an issue.
pub open spec fn claims_on(claims: Seq<ClaimView>, issue: IssueNumber) -> Seq<ClaimView> {
    claims.filter(|claim: ClaimView| claim.issue == issue)
}

/// What resolving the stack of an issue gives.
pub open spec fn stack_of(
    records: Records,
    target_issue: IssueNumber,
    resolution: ResolutionView,
) -> bool {
    let targets = claims_on(records.active, target_issue);
    if targets.len() == 0 {
        resolution == (ResolutionView {
            nodes: Seq::empty(),
            problem: Some(StackProblemView::MissingTarget { issue: target_issue }),
        })
    } else if targets.len() == 1 {
        exists|chain: Seq<ClaimView>| #[trigger] resolved(records, targets[0], chain, resolution)
    } else {
        resolution == (ResolutionView {
            nodes: Seq::empty(),
            problem: Some(StackProblemView::DuplicateTarget { issue: target_issue }),
        })
    }
}

// ---------------------------------------------------------------------------------------------
// Resolving a stack
// ---------------------------------------------------------------------------------------------
fn find_generation<'a>(claims: &'a Vec<Claim>, issue: IssueNumber, id: Id) -> (found: Option<
    &'a Claim,
>)
    ensures
        match found {
            Some(claim) => generation(views(claims@), issue, id) == Some(claim@),
            None => generation(views(claims@), issue, id) is None,
        },
{
    let ghost all = views(claims@);
    let mut i: usize = 0;
    assert(all.skip(0) =~= all);
    while i < claims.len()
        invariant
            i <= claims.len(),
            all == views(claims@),
            generation(all, issue, id) == generation(all.skip(i as int), issue, id),
        decreases claims.len() - i,
    {
        assert(all.skip(i as int)[0] == claims@[i as int]@);
        assert(all.skip(i as int).drop_first() =~= all.skip(i + 1));
        if claims[i].issue == issue && claims[i].claim_id == id {
            return Some(&claims[i]);
        }
        i = i + 1;
    }
    None
}

fn find_release(releases: &Vec<ReleaseMarker>, issue: IssueNumber, id: Id) -> (found: Option<
    ReleaseMarker,
>)
    ensures
        optional(found) == release_of(views(releases@), issue, id),
{
    let ghost all = views(releases@);
    let mut i: usize = 0;
    assert(all.skip(0) =~= all);
    while i < releases.len()
        invariant
            i <= releases.len(),
            all == views(releases@),
            release_of(all, issue, id) == release_of(all.skip(i as int), issue, id),
        decreases releases.len() - i,
    {
        assert(all.skip(i as int)[0] == releases@[i as int]@);
        assert(all.skip(i as int).drop_first() =~= all.skip(i + 1));
        if releases[i].issue == issue && releases[i].claim_id == id {
            return Some(releases[i].clone());
        }
        i = i + 1;
    }
    None
}

pub fn contains_id(claims: &Vec<Claim>, id: Id) -> (found: bool)
    ensures
        found == has_id(views(claims@), id),
{
    let mut i: usize = 0;
    while i < claims.len()
        invariant
            i <= claims.len(),
            forall|j: int| 0 <= j < i ==> (#[trigger] views(claims@)[j]).claim_id != id,
        decreases claims.len() - i,
    {
        if claims[i].claim_id == id {
            assert(views(claims@)[i as int].claim_id == id);
            return true;
        }
        i = i + 1;
    }
    false
}

fn find_latest(claims: &Vec<Claim>, issue: IssueNumber) -> (found: Option<Id>)
    ensures
        found == latest_on(views(claims@), issue),
{
    let ghost all = views(claims@);
    let mut end: usize = claims.len();
    assert(all.take(end as int) =~= all);
    while end > 0
        invariant
            end <= claims.len(),
            all == views(claims@),
            latest_on(all, issue) == latest_on(all.take(end as int), issue),
        decreases end,
    {
        assert(all.take(end as int).last() == claims@[end - 1]@);
        assert(all.take(end as int).drop_last() =~= all.take(end - 1));
        if claims[end - 1].issue == issue {
            return Some(claims[end - 1].claim_id);
        }
        end = end - 1;
    }
    None
}

fn normalize_id_cycle(items: Vec<Id>) -> (cycle: Vec<Id>)
    requires
        items.len() > 0,
    ensures
        cycle@ == id_cycle(items@),
{
    let ghost keys = id_keys(items@);
    let mut at: usize = 0;
    let mut i: usize = 1;
    while i < items.len()
        invariant
            at < i <= items.len(),
            keys == id_keys(items@),
            at == least_position(keys.take(i as int)),
        decreases items.len() - i,
    {
        assert(keys.take(i + 1).drop_last() =~= keys.take(i as int));
        if items[i] < items[at] {
            at = i;
        }
        i = i + 1;
    }
    assert(keys.take(i as int) =~= keys);
    turn(items, at)
}

fn turn<T: Copy>(items: Vec<T>, at: usize) -> (cycle: Vec<T>)
    requires
        at < items.len(),
    ensures
        cycle@ == (items@.skip(at as int) + items@.take(at as int)).push(items@[at as int]),
{
    let mut cycle: Vec<T> = Vec::new();
    let mut k: usize = at;
    while k < items.len()
        invariant
            at <= k <= items.len(),
            cycle@ == items@.subrange(at as int, k as int),
        decreases items.len() - k,
    {
        cycle.push(items[k]);
        k = k + 1;
        assert(items@.subrange(at as int, k as int) =~= items@.subrange(at as int, k - 1).push(
            items@[k - 1],
        ));
    }
    let ghost front = items@.skip(at as int);
    assert(cycle@ =~= front);
    k = 0;
    while k < at
        invariant
            k <= at < items.len(),
            cycle@ == front + items@.take(k as int),
        decreases at - k,
    {
        cycle.push(items[k]);
        k = k + 1;
        assert(front + items@.take(k as int) =~= (front + items@.take(k - 1)).push(items@[k - 1]));
    }
    cycle.push(items[at]);
    cycle
}

/// Distinct generations that are all recorded are no more than there are records.
proof fn chain_is_bounded(records: Records, target: ClaimView, chain: Seq<ClaimView>)
    requires
        is_chain(records, target, chain),
    ensures
        chain.len() <= records.claims.len() + 1,
{
    let ids = ids_of(chain).skip(1);
    let known = ids_of(records.claims);
    assert(ids.no_duplicates()) by {
        assert forall|i: int, j: int| 0 <= i < ids.len() && 0 <= j < ids.len() && i != j implies ids[i]
            != ids[j] by {
            assert(ids[i] == ids_of(chain)[i + 1] && ids[j] == ids_of(chain)[j + 1]);
        }
    }
    ids.unique_seq_to_set();
    assert forall|id: Id| ids.to_set().contains(id) implies known.to_set().contains(id) by {
        let i = choose|i: int| 0 <= i < ids.len() && ids[i] == id;
        let child = chain[i];
        assert(recorded_parent(records, chain[i]) == Some(chain[i + 1]));
        generation_is_recorded(
            records.claims,
            child.base_issue->0,
            child.base_claim_id->0,
        );
        let k = choose|k: int| 0 <= k < records.claims.len() && records.claims[k] == chain[i + 1];
        assert(known[k] == id);
    }
    assert(ids.to_set().subset_of(known.to_set()));
    known.lemma_cardinality_of_set();
    vstd::set_lib::lemma_len_subset(ids.to_set(), known.to_set());
}

proof fn generation_is_recorded(claims: Seq<ClaimView>, issue: IssueNumber, id: Id)
    ensures
        generation(claims, issue, id) matches Some(claim) ==> claim.issue == issue && claim.claim_id
            == id && exists|k: int| 0 <= k < claims.len() && #[trigger] claims[k] == claim,
    decreases claims.len(),
{
    if claims.len() > 0 {
        if claims[0].issue == issue && claims[0].claim_id == id {
            assert(claims[0] == generation(claims, issue, id)->0);
        } else {
            generation_is_recorded(claims.drop_first(), issue, id);
            if generation(claims, issue, id) is Some {
                let claim = generation(claims, issue, id)->0;
                let k = choose|k: int|
                    0 <= k < claims.drop_first().len() && claims.drop_first()[k] == claim;
                assert(claims[k + 1] == claim);
            }
        }
    }
}

fn position_of(ids: &Vec<Id>, id: Id) -> (position: Option<usize>)
    ensures
        match position {
            Some(position) => position < ids.len() && ids@[position as int] == id
                && forall|i: int| 0 <= i < position ==> #[trigger] ids@[i] != id,
            None => !ids@.contains(id),
        },
{
    let mut i: usize = 0;
    while i < ids.len()
        invariant
            i <= ids.len(),
            forall|j: int| 0 <= j < i ==> #[trigger] ids@[j] != id,
        decreases ids.len() - i,
    {
        if ids[i] == id {
            return Some(i);
        }
        i = i + 1;
    }
    None
}

/// The nodes of a chain, from the root down.
fn make_nodes(
    claims: &Vec<Claim>,
    releases: &Vec<ReleaseMarker>,
    active: &Vec<Claim>,
    chain: &Vec<Claim>,
) -> (nodes: Vec<StackNode>)
    ensures
        views(nodes@) == nodes_of(
            Records {
                claims: views(claims@),
                releases: views(releases@),
                active: views(active@),
            },
            views(chain@),
        ),
{
    let ghost records = Records {
        claims: views(claims@),
        releases: views(releases@),
        active: views(active@),
    };
    let ghost up = views(chain@);
    let mut nodes: Vec<StackNode> = Vec::new();
    let mut left: usize = chain.len();
    while left > 0
        invariant
            left <= chain.len(),
            up == views(chain@),
            records.releases == views(releases@),
            records.active == views(active@),
            nodes.len() == chain.len() - left,
            forall|i: int|
                0 <= i < nodes.len() ==> (#[trigger] nodes@[i])@ == node_of(
                    records,
                    up[up.len() - 1 - i],
                ),
        decreases left,
    {
        left = left - 1;
        let claim = &chain[left];
        let is_active = contains_id(active, claim.claim_id);
        let release = find_release(releases, claim.issue, claim.claim_id);
        nodes.push(StackNode { claim: claim.clone(), active: is_active, release });
    }
    assert(views(nodes@) =~= nodes_of(records, up));
    nodes
}

/// The claims on an issue.
pub fn claims_with_issue<'a>(claims: &'a Vec<Claim>, issue: IssueNumber) -> (found: Vec<&'a Claim>)
    ensures
        found.len() == claims_on(views(claims@), issue).len(),
        forall|i: int|
            0 <= i < found.len() ==> (#[trigger] found@[i])@ == claims_on(views(claims@), issue)[i],
{
    let ghost all = views(claims@);
    let ghost test = |claim: ClaimView| claim.issue == issue;
    let mut found: Vec<&'a Claim> = Vec::new();
    let mut i: usize = 0;
    assert(all.take(0) =~= Seq::empty());
    assert(claims_on(all.take(0), issue).len() == 0) by {
        reveal(Seq::filter);
    }
    while i < claims.len()
        invariant
            i <= claims.len(),
            all == views(claims@),
            test == (|claim: ClaimView| claim.issue == issue),
            found.len() == all.take(i as int).filter(test).len(),
            forall|j: int|
                0 <= j < found.len() ==> (#[trigger] found@[j])@ == all.take(i as int).filter(
                    test,
                )[j],
        decreases claims.len() - i,
    {
        proof {
            reveal(Seq::filter);
            assert(all.take(i + 1).drop_last() =~= all.take(i as int));
            assert(all.take(i + 1).last() == claims@[i as int]@);
        }
        if claims[i].issue == issue {
            found.push(&claims[i]);
        }
        i = i + 1;
    }
    assert(all.take(i as int) =~= all);
    found
}

/// Resolves the stack of the one active claim on an issue, among all recorded claims and
/// releases. A parent is the exact generation that was recorded when its child was claimed; a
/// later claim on the same issue never takes its place.
pub fn resolve_stack(
    claims: &Vec<Claim>,
    releases: &Vec<ReleaseMarker>,
    active: &Vec<Claim>,
    target_issue: IssueNumber,
) -> (resolution: StackResolution)
    ensures
        stack_of(
            Records {
                claims: views(claims@),
                releases: views(releases@),
                active: views(active@),
            },
            target_issue,
            resolution@,
        ),
{
    let ghost records = Records {
        claims: views(claims@),
        releases: views(releases@),
        active: views(active@),
    };
    let targets = claims_with_issue(active, target_issue);
    if targets.len() == 0 {
        let resolution = StackResolution {
            nodes: Vec::new(),
            problem: Some(StackProblem::MissingTarget { issue: target_issue }),
        };
        assert(resolution@.nodes =~= Seq::empty());
        return resolution;
    }
    if targets.len() > 1 {
        let resolution = StackResolution {
            nodes: Vec::new(),
            problem: Some(StackProblem::DuplicateTarget { issue: target_issue }),
        };
        assert(resolution@.nodes =~= Seq::empty());
        return resolution;
    }
    let ghost target = targets@[0]@;
    let mut chain: Vec<Claim> = Vec::new();
    let mut ids: Vec<Id> = Vec::new();
    let mut current: Claim = targets[0].clone();
    ids.push(current.claim_id);
    assert(views(chain@).push(current@) =~= seq![target]);
    assert(ids@ =~= ids_of(seq![target]));
    assert(is_chain(records, target, seq![target]));
    loop
        invariant
            records == (Records {
                claims: views(claims@),
                releases: views(releases@),
                active: views(active@),
            }),
            is_chain(records, target, views(chain@).push(current@)),
            ids@ == ids_of(views(chain@).push(current@)),
            claims_on(records.active, target_issue).len() == 1,
            target == claims_on(records.active, target_issue)[0],
        decreases claims.len() + 1 - chain.len(),
    {
        let ghost path = views(chain@).push(current@);
        proof {
            chain_is_bounded(records, target, path);
        }
        let child_id: Id = current.claim_id;
        let base_issue: Option<IssueNumber> = current.base_issue;
        let base_claim_id: Option<Id> = current.base_claim_id;
        chain.push(current);
        assert(views(chain@) =~= path);
        if base_issue.is_none() || base_claim_id.is_none() {
            let nodes = make_nodes(claims, releases, active, &chain);
            assert(views(nodes@) == nodes_of(records, path));
            let resolution = StackResolution { nodes, problem: None };
            assert(resolved(records, target, path, resolution@));
            return resolution;
        }
        let parent_issue: IssueNumber = base_issue.unwrap();
        let parent_claim_id: Id = base_claim_id.unwrap();
        if let Some(position) = position_of(&ids, parent_claim_id) {
            assert(ids@.contains(parent_claim_id));
            let ghost at = ids@.index_of(parent_claim_id);
            assert(at == position) by {
                assert(ids@[at] == parent_claim_id);
                assert(at < ids@.len());
            }
            let mut items: Vec<Id> = Vec::new();
            let mut k: usize = position;
            while k < ids.len()
                invariant
                    position <= k <= ids.len(),
                    items@ == ids@.subrange(position as int, k as int),
                decreases ids.len() - k,
            {
                items.push(ids[k]);
                k = k + 1;
                assert(ids@.subrange(position as int, k as int) =~= ids@.subrange(
                    position as int,
                    k - 1,
                ).push(ids@[k - 1]));
            }
            assert(items@ =~= ids@.skip(position as int));
            let cycle = normalize_id_cycle(items);
            let resolution = StackResolution {
                nodes: Vec::new(),
                problem: Some(StackProblem::BaseCycle { cycle }),
            };
            assert(resolved(records, target, path, resolution@));
            return resolution;
        }
        match find_generation(claims, parent_issue, parent_claim_id) {
            None => {
                let nodes = make_nodes(claims, releases, active, &chain);
                assert(views(nodes@) == nodes_of(records, path));
                let resolution = StackResolution {
                    nodes,
                    problem: Some(
                        StackProblem::MissingParent {
                            child_claim_id: child_id,
                            parent_issue,
                            parent_claim_id,
                            replacement_claim_id: find_latest(active, parent_issue),
                        },
                    ),
                };
                assert(resolved(records, target, path, resolution@));
                return resolution;
            },
            Some(parent) => {
                current = parent.clone();
                ids.push(current.claim_id);
                proof {
                    let longer = path.push(current@);
                    generation_is_recorded(records.claims, parent_issue, parent_claim_id);
                    assert(ids@ =~= ids_of(longer));
                    assert(ids@.no_duplicates());
                    assert(recorded_parent(records, path.last()) == Some(current@));
                    assert forall|i: int| 0 <= i < longer.len() - 1 implies recorded_parent(
                        records,
                        #[trigger] longer[i],
                    ) == Some(longer[i + 1]) by {
                        if i < path.len() - 1 {
                            assert(recorded_parent(records, path[i]) == Some(path[i + 1]));
                        }
                    }
                    chain_is_bounded(records, target, longer);
                }
            },
        }
    }
}

/// Every generation of a resolved stack is the exact one that the next one was based on, and the
/// last one is the target.
pub proof fn stacks_link_exact_generations(
    records: Records,
    target: ClaimView,
    chain: Seq<ClaimView>,
    resolution: ResolutionView,
)
    requires
        resolved(records, target, chain, resolution),
        resolution.nodes.len() > 0,
    ensures
        resolution.nodes.last().claim == target,
        forall|i: int|
            0 <= i < resolution.nodes.len() - 1 ==> {
                let child = resolution.nodes[i + 1].claim;
                let parent = (#[trigger] resolution.nodes[i]).claim;
                &&& child.base_claim_id == Some(parent.claim_id)
                &&& child.base_issue == Some(parent.issue)
            },
{
    let nodes = resolution.nodes;
    assert forall|i: int| 0 <= i < nodes.len() - 1 implies {
        let child = nodes[i + 1].claim;
        let parent = (#[trigger] nodes[i]).claim;
        &&& child.base_claim_id == Some(parent.claim_id)
        &&& child.base_issue == Some(parent.issue)
    } by {
        let k = chain.len() - 2 - i;
        let child = chain[k];
        assert(nodes[i + 1].claim == child);
        assert(nodes[i].claim == chain[k + 1]);
        assert(recorded_parent(records, child) == Some(chain[k + 1]));
        generation_is_recorded(records.claims, child.base_issue->0, child.base_claim_id->0);
    }
}

// ---------------------------------------------------------------------------------------------
// Waiting
// ---------------------------------------------------------------------------------------------
/// The issues in ascending order, with `issue` among them.
pub open spec fn insert_issue(issues: Seq<IssueNumber>, issue: IssueNumber) -> Seq<IssueNumber>
    decreases issues.len(),
{
    if issues.len() == 0 {
        seq![issue]
    } else if issues.last() < issue {
        issues.push(issue)
    } else if issues.last() == issue {
        issues
    } else {
        insert_issue(issues.drop_last(), issue).push(issues.last())
    }
}

/// The issues in ascending order, each once.
pub open spec fn ascending_issues(issues: Seq<IssueNumber>) -> Seq<IssueNumber>
    decreases issues.len(),
{
    if issues.len() == 0 {
        Seq::empty()
    } else {
        insert_issue(ascending_issues(issues.drop_last()), issues.last())
    }
}

/// In ascending order stand the same issues.
pub proof fn ascending_issues_same(issues: Seq<IssueNumber>)
    ensures
        forall|issue: IssueNumber|
            #![trigger ascending_issues(issues).contains(issue)]
            ascending_issues(issues).contains(issue) <==> issues.contains(issue),
        forall|i: int, j: int|
            0 <= i < j < ascending_issues(issues).len() ==> ascending_issues(issues)[i]
                < ascending_issues(issues)[j],
    decreases issues.len(),
{
    if issues.len() > 0 {
        ascending_issues_same(issues.drop_last());
        insert_issue_same(ascending_issues(issues.drop_last()), issues.last());
        assert(issues =~= issues.drop_last().push(issues.last()));
        assert forall|issue: IssueNumber| issues.contains(issue) <==> (issues.drop_last().contains(
            issue,
        ) || issue == issues.last()) by {
            if issues.drop_last().contains(issue) {
                let k = choose|k: int|
                    0 <= k < issues.drop_last().len() && issues.drop_last()[k] == issue;
                assert(issues[k] == issue);
            }
            if issues.contains(issue) {
                let k = choose|k: int| 0 <= k < issues.len() && issues[k] == issue;
                if k < issues.len() - 1 {
                    assert(issues.drop_last()[k] == issue);
                }
            }
        }
    }
}

proof fn insert_issue_same(issues: Seq<IssueNumber>, issue: IssueNumber)
    requires
        forall|i: int, j: int| 0 <= i < j < issues.len() ==> issues[i] < issues[j],
    ensures
        forall|other: IssueNumber|
            #![trigger insert_issue(issues, issue).contains(other)]
            insert_issue(issues, issue).contains(other) <==> (issues.contains(other) || other
                == issue),
        forall|i: int, j: int|
            0 <= i < j < insert_issue(issues, issue).len() ==> insert_issue(issues, issue)[i]
                < insert_issue(issues, issue)[j],
        issues.len() > 0 ==> insert_issue(issues, issue).last() >= issues.last(),
        insert_issue(issues, issue).len() > 0,
        insert_issue(issues, issue).last() == issue || (issues.len() > 0 && insert_issue(
            issues,
            issue,
        ).last() == issues.last()),
    decreases issues.len(),
{
    let result = insert_issue(issues, issue);
    if issues.len() == 0 {
        assert(result[0] == issue);
    } else if issues.last() < issue {
        assert forall|other: IssueNumber|
            #![trigger result.contains(other)]
            result.contains(other) <==> (issues.contains(other) || other == issue) by {
            if issues.contains(other) {
                let k = choose|k: int| 0 <= k < issues.len() && issues[k] == other;
                assert(result[k] == other);
            }
            assert(result[result.len() - 1] == issue);
        }
    } else if issues.last() == issue {
        assert(issues[issues.len() - 1] == issue);
    } else {
        let front = issues.drop_last();
        insert_issue_same(front, issue);
        let inner = insert_issue(front, issue);
        assert(result == inner.push(issues.last()));
        assert forall|other: IssueNumber|
            #![trigger result.contains(other)]
            result.contains(other) <==> (issues.contains(other) || other == issue) by {
            if issues.contains(other) {
                let k = choose|k: int| 0 <= k < issues.len() && issues[k] == other;
                if k < issues.len() - 1 {
                    assert(front[k] == other);
                    assert(inner.contains(other));
                    let m = choose|m: int| 0 <= m < inner.len() && inner[m] == other;
                    assert(result[m] == other);
                } else {
                    assert(result[result.len() - 1] == other);
                }
            }
            if other == issue {
                assert(inner.contains(other));
                let m = choose|m: int| 0 <= m < inner.len() && inner[m] == other;
                assert(result[m] == other);
            }
            if result.contains(other) {
                let m = choose|m: int| 0 <= m < result.len() && result[m] == other;
                if m < inner.len() {
                    assert(inner[m] == other);
                    assert(inner.contains(other));
                    if front.contains(other) {
                        let k = choose|k: int| 0 <= k < front.len() && front[k] == other;
                        assert(issues[k] == other);
                    }
                } else {
                    assert(issues[issues.len() - 1] == other);
                }
            }
        }
        assert(inner.last() < issues.last()) by {
            if front.len() > 0 {
                assert(front.last() == issues[issues.len() - 2]);
            }
        }
    }
}

/// The last active claim on an issue.
pub open spec fn claim_on(active: Seq<ClaimView>, issue: IssueNumber) -> Option<ClaimView>
    decreases active.len(),
{
    if active.len() == 0 {
        None
    } else if active.last().issue == issue {
        Some(active.last())
    } else {
        claim_on(active.drop_last(), issue)
    }
}

/// The issues that a claim waits for, in ascending order.
pub open spec fn dependencies(claim: ClaimView) -> Seq<IssueNumber> {
    ascending_issues(Seq::new(claim.wait_for.len(), |i: int| claim.wait_for[i].issue))
}

/// Lists of issues are ordered by their first difference; a proper prefix comes first.
pub open spec fn list_before(a: Seq<IssueNumber>, b: Seq<IssueNumber>) -> bool
    decreases a.len(),
{
    if b.len() == 0 {
        false
    } else if a.len() == 0 {
        true
    } else if a[0] == b[0] {
        list_before(a.drop_first(), b.drop_first())
    } else {
        a[0] < b[0]
    }
}

/// The lists in ascending order, with `list` among them.
pub open spec fn insert_list(
    lists: Seq<Seq<IssueNumber>>,
    list: Seq<IssueNumber>,
) -> Seq<Seq<IssueNumber>>
    decreases lists.len(),
{
    if lists.len() == 0 {
        seq![list]
    } else if lists.last() == list {
        lists
    } else if list_before(lists.last(), list) {
        lists.push(list)
    } else {
        insert_list(lists.drop_last(), list).push(lists.last())
    }
}

/// What a walk through the issues that wait for each other has seen: the issues that it is done
/// with, in the order in which it was done with them, and the cycles.
pub struct Seen {
    pub done: Seq<IssueNumber>,
    pub cycles: Seq<Seq<IssueNumber>>,
}

/// A cycle of issues, from the smallest number round to it again.
pub open spec fn issue_cycle(issues: Seq<IssueNumber>) -> Seq<IssueNumber> {
    turned(issues, issue_keys(issues))
}

/// A walk, in depth, from an issue: an issue on the path closes a cycle; one that is done, or that
/// nobody has claimed, is left alone; any other is walked through and then done.
pub open spec fn walk(
    active: Seq<ClaimView>,
    issue: IssueNumber,
    path: Seq<IssueNumber>,
    seen: Seen,
) -> Seen
    decreases active.len() - path.len(), 0int,
{
    if path.contains(issue) {
        Seen {
            cycles: insert_list(seen.cycles, issue_cycle(path.skip(path.index_of(issue)))),
            ..seen
        }
    } else if seen.done.contains(issue) {
        seen
    } else {
        match claim_on(active, issue) {
            Some(claim) if path.len() < active.len() => {
                let below = walk_all(active, dependencies(claim), path.push(issue), seen);
                Seen { done: below.done.push(issue), ..below }
            },
            _ => seen,
        }
    }
}

/// The walks from several issues, one after the other.
pub open spec fn walk_all(
    active: Seq<ClaimView>,
    issues: Seq<IssueNumber>,
    path: Seq<IssueNumber>,
    seen: Seen,
) -> Seen
    decreases active.len() - path.len(), issues.len(),
{
    if issues.len() == 0 {
        seen
    } else {
        walk(active, issues.last(), path, walk_all(active, issues.drop_last(), path, seen))
    }
}

/// The issues that a search for cycles starts from: all that are claimed, unless some are named.
pub open spec fn start_issues(active: Seq<ClaimView>, roots: Seq<IssueNumber>) -> Seq<IssueNumber> {
    if roots.len() == 0 {
        ascending_issues(Seq::new(active.len(), |i: int| active[i].issue))
    } else {
        ascending_issues(roots)
    }
}

/// The cycles that a search finds.
pub open spec fn cycles_found(active: Seq<ClaimView>, roots: Seq<IssueNumber>) -> Seq<
    Seq<IssueNumber>,
> {
    walk_all(
        active,
        start_issues(active, roots),
        Seq::empty(),
        Seen { done: Seq::empty(), cycles: Seq::empty() },
    ).cycles
}

/// What a list of lists of issues stands for.
pub open spec fn lists(lists: Seq<Vec<IssueNumber>>) -> Seq<Seq<IssueNumber>> {
    Seq::new(lists.len(), |i: int| lists[i]@)
}

fn same_list(a: &Vec<IssueNumber>, b: &Vec<IssueNumber>) -> (equal: bool)
    ensures
        equal == (a@ == b@),
{
    if a.len() != b.len() {
        return false;
    }
    let mut i: usize = 0;
    while i < a.len()
        invariant
            i <= a.len(),
            a.len() == b.len(),
            forall|j: int| 0 <= j < i ==> a@[j] == b@[j],
        decreases a.len() - i,
    {
        if a[i] != b[i] {
            return false;
        }
        i = i + 1;
    }
    assert(a@ =~= b@);
    true
}

fn is_list_before(a: &Vec<IssueNumber>, b: &Vec<IssueNumber>) -> (less: bool)
    ensures
        less == list_before(a@, b@),
{
    let mut i: usize = 0;
    assert(a@.skip(0) =~= a@ && b@.skip(0) =~= b@);
    while i < a.len() && i < b.len() && a[i] == b[i]
        invariant
            i <= a.len(),
            i <= b.len(),
            list_before(a@, b@) == list_before(a@.skip(i as int), b@.skip(i as int)),
        decreases a.len() - i,
    {
        assert(a@.skip(i as int).drop_first() =~= a@.skip(i + 1));
        assert(b@.skip(i as int).drop_first() =~= b@.skip(i + 1));
        i = i + 1;
    }
    if i == b.len() {
        false
    } else if i == a.len() {
        true
    } else {
        a[i] < b[i]
    }
}

/// Puts an issue among issues in ascending order.
fn put_issue(issues: &mut Vec<IssueNumber>, issue: IssueNumber)
    ensures
        final(issues)@ == insert_issue(old(issues)@, issue),
{
    let ghost all = issues@;
    let mut at: usize = issues.len();
    assert(all.take(at as int) =~= all);
    assert(all.skip(at as int) =~= Seq::empty());
    assert(insert_issue(all.take(at as int), issue) + all.skip(at as int) =~= insert_issue(
        all,
        issue,
    ));
    while at > 0 && issues[at - 1] > issue
        invariant
            at <= issues.len(),
            issues@ == all,
            insert_issue(all.take(at as int), issue) + all.skip(at as int) == insert_issue(
                all,
                issue,
            ),
        decreases at,
    {
        let ghost front = all.take(at as int);
        assert(front.drop_last() =~= all.take(at - 1));
        assert(front.last() == all[at - 1]);
        assert(insert_issue(all.take(at - 1), issue).push(all[at - 1]) + all.skip(at as int)
            =~= insert_issue(all.take(at - 1), issue) + all.skip(at - 1));
        at = at - 1;
    }
    let ghost front = all.take(at as int);
    if at > 0 && issues[at - 1] == issue {
        assert(front.last() == issue);
        assert(front + all.skip(at as int) =~= all);
        return ;
    }
    issues.insert(at, issue);
    assert(insert_issue(front, issue) =~= front.push(issue));
    assert(issues@ =~= front.push(issue) + all.skip(at as int));
}

/// Puts a list among lists in ascending order.
fn put_list(all: &mut Vec<Vec<IssueNumber>>, list: Vec<IssueNumber>)
    ensures
        lists(final(all)@) == insert_list(lists(old(all)@), list@),
{
    let ghost before = lists(all@);
    let mut at: usize = all.len();
    assert(before.take(at as int) =~= before);
    assert(before.skip(at as int) =~= Seq::empty());
    assert(insert_list(before.take(at as int), list@) + before.skip(at as int) =~= insert_list(
        before,
        list@,
    ));
    while at > 0 && !same_list(&all[at - 1], &list) && !is_list_before(&all[at - 1], &list)
        invariant
            at <= all.len(),
            lists(all@) == before,
            insert_list(before.take(at as int), list@) + before.skip(at as int) == insert_list(
                before,
                list@,
            ),
        decreases at,
    {
        let ghost front = before.take(at as int);
        assert(front.drop_last() =~= before.take(at - 1));
        assert(front.last() == before[at - 1]);
        assert(before[at - 1] == all@[at - 1]@);
        assert(insert_list(before.take(at - 1), list@).push(before[at - 1]) + before.skip(at as int)
            =~= insert_list(before.take(at - 1), list@) + before.skip(at - 1));
        at = at - 1;
    }
    let ghost front = before.take(at as int);
    if at > 0 && same_list(&all[at - 1], &list) {
        assert(front.last() == list@);
        assert(front + before.skip(at as int) =~= before);
        return ;
    }
    let ghost wanted = list@;
    if at > 0 {
        assert(front.last() == all@[at - 1]@);
    }
    all.insert(at, list);
    assert(insert_list(front, wanted) =~= front.push(wanted));
    assert(lists(all@) =~= front.push(wanted) + before.skip(at as int));
}

fn normalize_issue_cycle(items: Vec<IssueNumber>) -> (cycle: Vec<IssueNumber>)
    requires
        items.len() > 0,
    ensures
        cycle@ == issue_cycle(items@),
{
    let ghost keys = issue_keys(items@);
    let mut at: usize = 0;
    let mut i: usize = 1;
    while i < items.len()
        invariant
            at < i <= items.len(),
            keys == issue_keys(items@),
            at == least_position(keys.take(i as int)),
        decreases items.len() - i,
    {
        assert(keys.take(i + 1).drop_last() =~= keys.take(i as int));
        if items[i] < items[at] {
            at = i;
        }
        i = i + 1;
    }
    assert(keys.take(i as int) =~= keys);
    turn(items, at)
}

fn find_claim_on<'a>(active: &'a Vec<Claim>, issue: IssueNumber) -> (found: Option<&'a Claim>)
    ensures
        match found {
            Some(claim) => claim_on(views(active@), issue) == Some(claim@),
            None => claim_on(views(active@), issue) is None,
        },
{
    let ghost all = views(active@);
    let mut end: usize = active.len();
    assert(all.take(end as int) =~= all);
    while end > 0
        invariant
            end <= active.len(),
            all == views(active@),
            claim_on(all, issue) == claim_on(all.take(end as int), issue),
        decreases end,
    {
        assert(all.take(end as int).last() == active@[end - 1]@);
        assert(all.take(end as int).drop_last() =~= all.take(end - 1));
        if active[end - 1].issue == issue {
            return Some(&active[end - 1]);
        }
        end = end - 1;
    }
    None
}

fn dependency_issues(claim: &Claim) -> (issues: Vec<IssueNumber>)
    ensures
        issues@ == dependencies(claim@),
{
    let ghost waiting = Seq::new(claim@.wait_for.len(), |i: int| claim@.wait_for[i].issue);
    let mut issues: Vec<IssueNumber> = Vec::new();
    let mut i: usize = 0;
    while i < claim.wait_for.len()
        invariant
            i <= claim.wait_for.len(),
            waiting == Seq::new(claim@.wait_for.len(), |i: int| claim@.wait_for[i].issue),
            issues@ == ascending_issues(waiting.take(i as int)),
        decreases claim.wait_for.len() - i,
    {
        assert(waiting.take(i + 1).drop_last() =~= waiting.take(i as int));
        put_issue(&mut issues, claim.wait_for[i].issue);
        i = i + 1;
    }
    assert(waiting.take(i as int) =~= waiting);
    issues
}

fn position_of_issue(issues: &Vec<IssueNumber>, issue: IssueNumber) -> (position: Option<usize>)
    requires
        issues@.no_duplicates(),
    ensures
        match position {
            Some(position) => position < issues.len() && issues@[position as int] == issue
                && issues@.contains(issue) && issues@.index_of(issue) == position,
            None => !issues@.contains(issue),
        },
{
    let mut i: usize = 0;
    while i < issues.len()
        invariant
            i <= issues.len(),
            issues@.no_duplicates(),
            forall|j: int| 0 <= j < i ==> #[trigger] issues@[j] != issue,
        decreases issues.len() - i,
    {
        if issues[i] == issue {
            assert(issues@.contains(issue));
            return Some(i);
        }
        i = i + 1;
    }
    None
}

/// Whether a path goes through claimed issues, each once.
pub open spec fn is_path(active: Seq<ClaimView>, path: Seq<IssueNumber>) -> bool {
    &&& path.no_duplicates()
    &&& forall|i: int| 0 <= i < path.len() ==> claim_on(active, #[trigger] path[i]) is Some
}

proof fn claim_on_is_active(active: Seq<ClaimView>, issue: IssueNumber)
    ensures
        claim_on(active, issue) matches Some(claim) ==> claim.issue == issue && exists|k: int|
            0 <= k < active.len() && #[trigger] active[k] == claim,
    decreases active.len(),
{
    if active.len() > 0 {
        if active.last().issue == issue {
            assert(active[active.len() - 1] == active.last());
        } else {
            claim_on_is_active(active.drop_last(), issue);
            if claim_on(active, issue) is Some {
                let claim = claim_on(active, issue)->0;
                let k = choose|k: int|
                    0 <= k < active.drop_last().len() && active.drop_last()[k] == claim;
                assert(active[k] == claim);
            }
        }
    }
}

proof fn path_is_bounded(active: Seq<ClaimView>, path: Seq<IssueNumber>)
    requires
        is_path(active, path),
    ensures
        path.len() <= active.len(),
{
    let claimed = Seq::new(active.len(), |i: int| active[i].issue);
    path.unique_seq_to_set();
    assert forall|issue: IssueNumber| path.to_set().contains(issue) implies claimed.to_set().contains(
        issue,
    ) by {
        let i = choose|i: int| 0 <= i < path.len() && path[i] == issue;
        assert(claim_on(active, path[i]) is Some);
        claim_on_is_active(active, issue);
        let k = choose|k: int| 0 <= k < active.len() && active[k] == claim_on(active, issue)->0;
        assert(claimed[k] == issue);
    }
    assert(path.to_set().subset_of(claimed.to_set()));
    claimed.lemma_cardinality_of_set();
    vstd::set_lib::lemma_len_subset(path.to_set(), claimed.to_set());
}

/// What a walk has seen so far.
pub open spec fn seen_in(done: Vec<IssueNumber>, cycles: Vec<Vec<IssueNumber>>) -> Seen {
    Seen { done: done@, cycles: lists(cycles@) }
}

fn contains_issue(issues: &Vec<IssueNumber>, issue: IssueNumber) -> (found: bool)
    ensures
        found == issues@.contains(issue),
{
    let mut i: usize = 0;
    while i < issues.len()
        invariant
            i <= issues.len(),
            forall|j: int| 0 <= j < i ==> #[trigger] issues@[j] != issue,
        decreases issues.len() - i,
    {
        if issues[i] == issue {
            return true;
        }
        i = i + 1;
    }
    false
}

fn walk_wait_graph(
    active: &Vec<Claim>,
    issue: IssueNumber,
    path: &mut Vec<IssueNumber>,
    done: &mut Vec<IssueNumber>,
    cycles: &mut Vec<Vec<IssueNumber>>,
)
    requires
        is_path(views(active@), old(path)@),
    ensures
        final(path)@ == old(path)@,
        seen_in(*final(done), *final(cycles)) == walk(
            views(active@),
            issue,
            old(path)@,
            seen_in(*old(done), *old(cycles)),
        ),
    decreases active.len() - old(path).len(),
{
    let ghost claims = views(active@);
    let ghost trail = path@;
    let ghost start = seen_in(*done, *cycles);
    if let Some(position) = position_of_issue(path, issue) {
        let mut items: Vec<IssueNumber> = Vec::new();
        let mut k: usize = position;
        while k < path.len()
            invariant
                position <= k <= path.len(),
                items@ == path@.subrange(position as int, k as int),
            decreases path.len() - k,
        {
            items.push(path[k]);
            k = k + 1;
            assert(path@.subrange(position as int, k as int) =~= path@.subrange(
                position as int,
                k - 1,
            ).push(path@[k - 1]));
        }
        assert(items@ =~= path@.skip(position as int));
        put_list(cycles, normalize_issue_cycle(items));
        return ;
    }
    if contains_issue(done, issue) {
        return ;
    }
    let claim = match find_claim_on(active, issue) {
        Some(claim) => claim,
        None => {
            return ;
        },
    };
    let issues = dependency_issues(claim);
    path.push(issue);
    proof {
        let longer = trail.push(issue);
        assert forall|i: int| 0 <= i < longer.len() implies claim_on(claims, #[trigger] longer[i]) is Some by {
            if i < trail.len() {
                assert(claim_on(claims, trail[i]) is Some);
            }
        }
        path_is_bounded(claims, longer);
    }
    let mut k: usize = 0;
    while k < issues.len()
        invariant
            k <= issues.len(),
            claims == views(active@),
            is_path(claims, trail.push(issue)),
            trail == old(path)@,
            trail.len() < active.len(),
            path@ == trail.push(issue),
            seen_in(*done, *cycles) == walk_all(
                claims,
                issues@.take(k as int),
                trail.push(issue),
                start,
            ),
        decreases issues.len() - k,
    {
        assert(issues@.take(k + 1).drop_last() =~= issues@.take(k as int));
        walk_wait_graph(active, issues[k], path, done, cycles);
        k = k + 1;
    }
    assert(issues@.take(k as int) =~= issues@);
    path.pop();
    assert(path@ =~= trail);
    done.push(issue);
}

/// The cycles among issues that wait for each other: all of them that a search in depth, from the
/// given issues or else from every claimed issue, comes back to its own path by. Each goes from
/// its smallest issue round to it again; they stand in ascending order.
pub fn wait_for_cycles(active: &Vec<Claim>, roots: &Vec<IssueNumber>) -> (cycles: Vec<
    Vec<IssueNumber>,
>)
    ensures
        lists(cycles@) == cycles_found(views(active@), roots@),
        lists_ascend(lists(cycles@)),
{
    let ghost claims = views(active@);
    let mut starts: Vec<IssueNumber> = Vec::new();
    if roots.len() == 0 {
        let ghost claimed = Seq::new(claims.len(), |i: int| claims[i].issue);
        let mut i: usize = 0;
        while i < active.len()
            invariant
                i <= active.len(),
                claims == views(active@),
                claimed == Seq::new(claims.len(), |i: int| claims[i].issue),
                starts@ == ascending_issues(claimed.take(i as int)),
            decreases active.len() - i,
        {
            assert(claimed.take(i + 1).drop_last() =~= claimed.take(i as int));
            put_issue(&mut starts, active[i].issue);
            i = i + 1;
        }
        assert(claimed.take(i as int) =~= claimed);
    } else {
        let mut i: usize = 0;
        while i < roots.len()
            invariant
                i <= roots.len(),
                starts@ == ascending_issues(roots@.take(i as int)),
            decreases roots.len() - i,
        {
            assert(roots@.take(i + 1).drop_last() =~= roots@.take(i as int));
            put_issue(&mut starts, roots[i]);
            i = i + 1;
        }
        assert(roots@.take(i as int) =~= roots@);
    }
    assert(starts@ == start_issues(claims, roots@));
    let mut path: Vec<IssueNumber> = Vec::new();
    let mut done: Vec<IssueNumber> = Vec::new();
    let mut cycles: Vec<Vec<IssueNumber>> = Vec::new();
    let ghost nothing = Seen { done: Seq::empty(), cycles: Seq::empty() };
    assert(lists(cycles@) =~= Seq::empty());
    assert(path@ =~= Seq::empty());
    let mut i: usize = 0;
    while i < starts.len()
        invariant
            i <= starts.len(),
            claims == views(active@),
            path@ == Seq::<IssueNumber>::empty(),
            seen_in(done, cycles) == walk_all(
                claims,
                starts@.take(i as int),
                Seq::empty(),
                nothing,
            ),
        decreases starts.len() - i,
    {
        assert(starts@.take(i + 1).drop_last() =~= starts@.take(i as int));
        walk_wait_graph(active, starts[i], &mut path, &mut done, &mut cycles);
        i = i + 1;
    }
    assert(starts@.take(i as int) =~= starts@);
    proof {
        found_cycles_ascend(claims, roots@);
    }
    cycles
}

// ---------------------------------------------------------------------------------------------
// What the search for cycles finds
// ---------------------------------------------------------------------------------------------
/// Whether a claimed issue waits for another.
pub open spec fn waits(active: Seq<ClaimView>, issue: IssueNumber, other: IssueNumber) -> bool {
    claim_on(active, issue) matches Some(claim) && dependencies(claim).contains(other)
}

/// Whether an issue of a trail waits for the next.
pub open spec fn waits_next(active: Seq<ClaimView>, trail: Seq<IssueNumber>, at: int) -> bool {
    waits(active, trail[at], trail[at + 1])
}

/// Each issue of a trail waits for the next.
pub open spec fn linked(active: Seq<ClaimView>, trail: Seq<IssueNumber>) -> bool {
    forall|i: int| 0 <= i < trail.len() - 1 ==> #[trigger] waits_next(active, trail, i)
}

/// A cycle: from its smallest issue, along issues that each wait for the next and of which none
/// occurs twice, back to where it started.
pub open spec fn is_wait_cycle(active: Seq<ClaimView>, cycle: Seq<IssueNumber>) -> bool {
    &&& cycle.len() >= 2
    &&& cycle.last() == cycle[0]
    &&& cycle.drop_last().no_duplicates()
    &&& linked(active, cycle)
    &&& forall|i: int| 0 <= i < cycle.len() ==> cycle[0] <= #[trigger] cycle[i]
}

proof fn least_position_is_least(keys: Seq<int>)
    requires
        keys.len() > 0,
    ensures
        0 <= least_position(keys) < keys.len(),
        forall|i: int| 0 <= i < keys.len() ==> keys[least_position(keys)] <= #[trigger] keys[i],
    decreases keys.len(),
{
    if keys.len() > 1 {
        let front = keys.drop_last();
        least_position_is_least(front);
        assert forall|i: int| 0 <= i < keys.len() implies keys[least_position(keys)]
            <= #[trigger] keys[i] by {
            if i < front.len() {
                assert(front[least_position(front)] <= front[i]);
            }
        }
    }
}

/// A closed trail without repetition, turned to its smallest issue, is a cycle.
proof fn turned_trail_is_cycle(active: Seq<ClaimView>, trail: Seq<IssueNumber>)
    requires
        trail.len() > 0,
        trail.no_duplicates(),
        linked(active, trail),
        waits(active, trail.last(), trail[0]),
    ensures
        is_wait_cycle(active, issue_cycle(trail)),
{
    let keys = issue_keys(trail);
    least_position_is_least(keys);
    let at = least_position(keys);
    let n = trail.len();
    let cycle = issue_cycle(trail);
    turned_places(trail, at);
    assert forall|i: int| 0 <= i < cycle.len() implies cycle[0] <= #[trigger] cycle[i] by {
        assert(cycle[0] == trail[turned_place(at, n as int, 0)]);
        assert(cycle[i] == trail[turned_place(at, n as int, i)]);
        assert(keys[at] <= keys[turned_place(at, n as int, i)]);
    }
    assert forall|i: int, j: int|
        0 <= i < cycle.drop_last().len() && 0 <= j < cycle.drop_last().len() && i
            != j implies cycle.drop_last()[i] != cycle.drop_last()[j] by {
        assert(cycle[i] == trail[turned_place(at, n as int, i)]);
        assert(cycle[j] == trail[turned_place(at, n as int, j)]);
    }
    assert forall|i: int| 0 <= i < cycle.len() - 1 implies #[trigger] waits_next(
        active,
        cycle,
        i,
    ) by {
        let here = turned_place(at, n as int, i);
        assert(cycle[i] == trail[here]);
        assert(cycle[i + 1] == trail[turned_place(at, n as int, i + 1)]);
        if here < n - 1 {
            assert(waits_next(active, trail, here));
        }
    }
}

/// Where the items stood that a list of them is turned to.
spec fn turned_place(at: int, length: int, i: int) -> int {
    if i < length - at {
        at + i
    } else {
        i - (length - at)
    }
}

proof fn turned_places(trail: Seq<IssueNumber>, at: int)
    requires
        0 <= at < trail.len(),
        at == least_position(issue_keys(trail)),
    ensures
        issue_cycle(trail).len() == trail.len() + 1,
        forall|i: int|
            0 <= i <= trail.len() ==> #[trigger] issue_cycle(trail)[i] == trail[turned_place(
                at,
                trail.len() as int,
                i,
            )],
        forall|i: int|
            0 <= i <= trail.len() ==> 0 <= #[trigger] turned_place(at, trail.len() as int, i)
                < trail.len(),
{
}

/// Whether every list is a cycle.
pub open spec fn all_cycles(active: Seq<ClaimView>, lists: Seq<Seq<IssueNumber>>) -> bool {
    forall|i: int| 0 <= i < lists.len() ==> is_wait_cycle(active, #[trigger] lists[i])
}

proof fn insert_list_keeps_cycles(
    active: Seq<ClaimView>,
    all: Seq<Seq<IssueNumber>>,
    list: Seq<IssueNumber>,
)
    requires
        all_cycles(active, all),
        is_wait_cycle(active, list),
    ensures
        all_cycles(active, insert_list(all, list)),
        insert_list(all, list).len() >= 1,
        insert_list(all, list).len() >= all.len(),
    decreases all.len(),
{
    if all.len() > 0 && all.last() != list && !list_before(all.last(), list) {
        let front = all.drop_last();
        assert(all_cycles(active, front)) by {
            assert forall|i: int| 0 <= i < front.len() implies is_wait_cycle(
                active,
                #[trigger] front[i],
            ) by {
                assert(front[i] == all[i]);
            }
        }
        insert_list_keeps_cycles(active, front, list);
        let inner = insert_list(front, list);
        assert forall|i: int| 0 <= i < inner.len() + 1 implies is_wait_cycle(
            active,
            #[trigger] insert_list(all, list)[i],
        ) by {
            if i < inner.len() {
                assert(is_wait_cycle(active, inner[i]));
            } else {
                assert(is_wait_cycle(active, all[all.len() - 1]));
            }
        }
    }
}

proof fn walk_finds_cycles(
    active: Seq<ClaimView>,
    issue: IssueNumber,
    path: Seq<IssueNumber>,
    seen: Seen,
)
    requires
        is_path(active, path),
        linked(active, path),
        path.len() > 0 ==> waits(active, path.last(), issue),
        all_cycles(active, seen.cycles),
    ensures
        all_cycles(active, walk(active, issue, path, seen).cycles),
        walk(active, issue, path, seen).cycles.len() >= seen.cycles.len(),
    decreases active.len() - path.len(), 0int,
{
    if path.contains(issue) {
        let at = path.index_of(issue);
        let trail = path.skip(at);
        assert(path[at] == issue);
        assert forall|i: int, j: int| 0 <= i < trail.len() && 0 <= j < trail.len() && i
            != j implies trail[i] != trail[j] by {
            assert(trail[i] == path[at + i] && trail[j] == path[at + j]);
        }
        assert forall|i: int| 0 <= i < trail.len() - 1 implies #[trigger] waits_next(
            active,
            trail,
            i,
        ) by {
            assert(waits_next(active, path, at + i));
        }
        turned_trail_is_cycle(active, trail);
        insert_list_keeps_cycles(active, seen.cycles, issue_cycle(trail));
    } else if !seen.done.contains(issue) {
        if claim_on(active, issue) is Some && path.len() < active.len() {
            let claim = claim_on(active, issue)->0;
            let longer = path.push(issue);
            longer_path(active, path, issue);
            walks_find_cycles(active, dependencies(claim), longer, seen);
        }
    }
}

proof fn longer_path(active: Seq<ClaimView>, path: Seq<IssueNumber>, issue: IssueNumber)
    requires
        is_path(active, path),
        !path.contains(issue),
        claim_on(active, issue) is Some,
    ensures
        is_path(active, path.push(issue)),
        linked(active, path) && (path.len() > 0 ==> waits(active, path.last(), issue)) ==> linked(
            active,
            path.push(issue),
        ),
{
    let longer = path.push(issue);
    assert forall|i: int| 0 <= i < longer.len() implies claim_on(active, #[trigger] longer[i]) is Some by {
        if i < path.len() {
            assert(claim_on(active, path[i]) is Some);
        }
    }
    assert(longer.no_duplicates()) by {
        assert forall|i: int, j: int|
            0 <= i < longer.len() && 0 <= j < longer.len() && i != j implies longer[i]
            != longer[j] by {
            if i == path.len() {
                assert(path[j] != issue);
            } else if j == path.len() {
                assert(path[i] != issue);
            }
        }
    }
    if linked(active, path) && (path.len() > 0 ==> waits(active, path.last(), issue)) {
        assert forall|i: int| 0 <= i < longer.len() - 1 implies #[trigger] waits_next(
            active,
            longer,
            i,
        ) by {
            if i < path.len() - 1 {
                assert(waits_next(active, path, i));
            }
        }
    }
}

proof fn walks_find_cycles(
    active: Seq<ClaimView>,
    issues: Seq<IssueNumber>,
    path: Seq<IssueNumber>,
    seen: Seen,
)
    requires
        is_path(active, path),
        linked(active, path),
        path.len() > 0 ==> forall|i: int|
            0 <= i < issues.len() ==> waits(active, path.last(), #[trigger] issues[i]),
        all_cycles(active, seen.cycles),
    ensures
        all_cycles(active, walk_all(active, issues, path, seen).cycles),
        walk_all(active, issues, path, seen).cycles.len() >= seen.cycles.len(),
    decreases active.len() - path.len(), issues.len(),
{
    if issues.len() > 0 {
        let front = issues.drop_last();
        if path.len() > 0 {
            assert forall|i: int| 0 <= i < front.len() implies waits(
                active,
                path.last(),
                #[trigger] front[i],
            ) by {
                assert(front[i] == issues[i]);
            }
            assert(waits(active, path.last(), issues[issues.len() - 1]));
        }
        walks_find_cycles(active, front, path, seen);
        walk_finds_cycles(active, issues.last(), path, walk_all(active, front, path, seen));
    }
}

/// What the search reports is a cycle: it goes from its smallest issue, along issues that each
/// wait for the next and of which none occurs twice, back to where it started.
pub proof fn found_cycles_are_cycles(active: Seq<ClaimView>, roots: Seq<IssueNumber>)
    ensures
        all_cycles(active, cycles_found(active, roots)),
{
    let nothing = Seen { done: Seq::<IssueNumber>::empty(), cycles: Seq::empty() };
    walks_find_cycles(active, start_issues(active, roots), Seq::empty(), nothing);
}

/// Whether each of the lists stands before all that follow it.
pub open spec fn lists_ascend(lists: Seq<Seq<IssueNumber>>) -> bool {
    forall|i: int, j: int|
        0 <= i < j < lists.len() ==> list_before(#[trigger] lists[i], #[trigger] lists[j])
}

proof fn list_before_is_strict(list: Seq<IssueNumber>)
    ensures
        !list_before(list, list),
    decreases list.len(),
{
    if list.len() > 0 {
        list_before_is_strict(list.drop_first());
    }
}

proof fn list_before_is_total(a: Seq<IssueNumber>, b: Seq<IssueNumber>)
    requires
        a != b,
    ensures
        list_before(a, b) || list_before(b, a),
    decreases a.len(),
{
    if a.len() == 0 && b.len() == 0 {
        assert(a =~= b);
    } else if a.len() > 0 && b.len() > 0 && a[0] == b[0] {
        if a.drop_first() == b.drop_first() {
            assert(a =~= seq![a[0]] + a.drop_first());
            assert(b =~= seq![b[0]] + b.drop_first());
        }
        list_before_is_total(a.drop_first(), b.drop_first());
    }
}

proof fn list_before_is_transitive(a: Seq<IssueNumber>, b: Seq<IssueNumber>, c: Seq<IssueNumber>)
    requires
        list_before(a, b),
        list_before(b, c),
    ensures
        list_before(a, c),
    decreases a.len(),
{
    if a.len() > 0 && a[0] == b[0] && b[0] == c[0] {
        list_before_is_transitive(a.drop_first(), b.drop_first(), c.drop_first());
    }
}

proof fn insert_list_ascends(all: Seq<Seq<IssueNumber>>, list: Seq<IssueNumber>)
    requires
        lists_ascend(all),
    ensures
        lists_ascend(insert_list(all, list)),
        forall|i: int|
            0 <= i < insert_list(all, list).len() ==> {
                ||| #[trigger] insert_list(all, list)[i] == list
                ||| all.contains(insert_list(all, list)[i])
            },
    decreases all.len(),
{
    let result = insert_list(all, list);
    if all.len() > 0 {
        let last = all.last();
        let front = all.drop_last();
        if last == list {
            assert forall|i: int| 0 <= i < result.len() implies all.contains(#[trigger] result[i]) by {
                assert(all[i] == result[i]);
            }
        } else if list_before(last, list) {
            assert forall|i: int, j: int| 0 <= i < j < result.len() implies list_before(
                #[trigger] result[i],
                #[trigger] result[j],
            ) by {
                if j < all.len() {
                    assert(list_before(all[i], all[j]));
                } else if i < all.len() - 1 {
                    assert(list_before(all[i], all[all.len() - 1]));
                    list_before_is_transitive(all[i], last, list);
                }
            }
            assert forall|i: int| 0 <= i < result.len() implies #[trigger] result[i] == list
                || all.contains(result[i]) by {
                if i < all.len() {
                    assert(all[i] == result[i]);
                }
            }
        } else {
            list_before_is_total(last, list);
            assert(lists_ascend(front)) by {
                assert forall|i: int, j: int| 0 <= i < j < front.len() implies list_before(
                    #[trigger] front[i],
                    #[trigger] front[j],
                ) by {
                    assert(list_before(all[i], all[j]));
                }
            }
            insert_list_ascends(front, list);
            let inner = insert_list(front, list);
            assert forall|i: int| 0 <= i < inner.len() implies list_before(
                #[trigger] inner[i],
                last,
            ) && (inner[i] == list || all.contains(inner[i])) by {
                if inner[i] != list {
                    let k = choose|k: int| 0 <= k < front.len() && front[k] == inner[i];
                    assert(all[k] == inner[i]);
                    assert(list_before(all[k], all[all.len() - 1]));
                }
            }
            assert forall|i: int, j: int| 0 <= i < j < result.len() implies list_before(
                #[trigger] result[i],
                #[trigger] result[j],
            ) by {
                assert(result[i] == inner[i]);
                if j < inner.len() {
                    assert(list_before(inner[i], inner[j]));
                }
            }
            assert forall|i: int| 0 <= i < result.len() implies #[trigger] result[i] == list
                || all.contains(result[i]) by {
                if i < inner.len() {
                    assert(result[i] == inner[i]);
                } else {
                    assert(all[all.len() - 1] == result[i]);
                }
            }
        }
    }
}

proof fn walk_ascends(
    active: Seq<ClaimView>,
    issue: IssueNumber,
    path: Seq<IssueNumber>,
    seen: Seen,
)
    requires
        lists_ascend(seen.cycles),
    ensures
        lists_ascend(walk(active, issue, path, seen).cycles),
    decreases active.len() - path.len(), 0int,
{
    if path.contains(issue) {
        insert_list_ascends(seen.cycles, issue_cycle(path.skip(path.index_of(issue))));
    } else if !seen.done.contains(issue) {
        if claim_on(active, issue) is Some && path.len() < active.len() {
            let claim = claim_on(active, issue)->0;
            walks_ascend(active, dependencies(claim), path.push(issue), seen);
        }
    }
}

proof fn walks_ascend(
    active: Seq<ClaimView>,
    issues: Seq<IssueNumber>,
    path: Seq<IssueNumber>,
    seen: Seen,
)
    requires
        lists_ascend(seen.cycles),
    ensures
        lists_ascend(walk_all(active, issues, path, seen).cycles),
    decreases active.len() - path.len(), issues.len(),
{
    if issues.len() > 0 {
        let front = issues.drop_last();
        walks_ascend(active, front, path, seen);
        walk_ascends(active, issues.last(), path, walk_all(active, front, path, seen));
    }
}

/// The cycles that the search reports stand in ascending order, and none is reported twice.
pub proof fn found_cycles_ascend(active: Seq<ClaimView>, roots: Seq<IssueNumber>)
    ensures
        lists_ascend(cycles_found(active, roots)),
        cycles_found(active, roots).no_duplicates(),
{
    let nothing = Seen { done: Seq::<IssueNumber>::empty(), cycles: Seq::empty() };
    walks_ascend(active, start_issues(active, roots), Seq::empty(), nothing);
    let found = cycles_found(active, roots);
    assert forall|i: int, j: int| 0 <= i < found.len() && 0 <= j < found.len() && i
        != j implies found[i] != found[j] by {
        list_before_is_strict(found[i]);
        if i < j {
            assert(list_before(found[i], found[j]));
        } else {
            assert(list_before(found[j], found[i]));
        }
    }
}

/// Every claimed issue that an issue waits for was done with before it.
pub open spec fn settled(active: Seq<ClaimView>, done: Seq<IssueNumber>) -> bool {
    forall|k: int, issue: IssueNumber|
        0 <= k < done.len() && waits(active, #[trigger] done[k], issue) && #[trigger] claim_on(
            active,
            issue,
        ) is Some ==> done.take(k).contains(issue)
}

proof fn walk_settles(
    active: Seq<ClaimView>,
    issue: IssueNumber,
    path: Seq<IssueNumber>,
    seen: Seen,
)
    requires
        is_path(active, path),
        linked(active, path),
        path.len() > 0 ==> waits(active, path.last(), issue),
        all_cycles(active, seen.cycles),
        settled(active, seen.done),
        walk(active, issue, path, seen).cycles.len() == 0,
    ensures
        ({
            let done = walk(active, issue, path, seen).done;
            &&& settled(active, done)
            &&& forall|other: IssueNumber| seen.done.contains(other) ==> done.contains(other)
            &&& claim_on(active, issue) is Some ==> done.contains(issue)
        }),
    decreases active.len() - path.len(), 0int,
{
    if path.contains(issue) {
        let at = path.index_of(issue);
        let trail = path.skip(at);
        insert_list_nonempty(seen.cycles, issue_cycle(trail));
    } else if !seen.done.contains(issue) {
        if claim_on(active, issue) is Some {
            longer_path(active, path, issue);
            path_is_bounded(active, path.push(issue));
            let claim = claim_on(active, issue)->0;
            let issues = dependencies(claim);
            assert forall|i: int| 0 <= i < issues.len() implies waits(
                active,
                issue,
                #[trigger] issues[i],
            ) by {
                assert(issues.contains(issues[i]));
            }
            walks_settle(active, issues, path.push(issue), seen);
            let below = walk_all(active, issues, path.push(issue), seen).done;
            let done = below.push(issue);
            assert forall|k: int, other: IssueNumber|
                0 <= k < done.len() && waits(active, #[trigger] done[k], other)
                    && #[trigger] claim_on(active, other) is Some implies done.take(k).contains(
                other,
            ) by {
                if k < below.len() {
                    assert(below.take(k).contains(other));
                    assert(done.take(k) =~= below.take(k));
                } else {
                    let i = choose|i: int| 0 <= i < issues.len() && issues[i] == other;
                    assert(claim_on(active, issues[i]) is Some);
                    assert(below.contains(other));
                    assert(done.take(k) =~= below);
                }
            }
            assert forall|other: IssueNumber| seen.done.contains(other) implies done.contains(
                other,
            ) by {
                assert(below.contains(other));
                let i = choose|i: int| 0 <= i < below.len() && below[i] == other;
                assert(done[i] == other);
            }
            assert(done[done.len() - 1] == issue);
        }
    }
}

proof fn insert_list_nonempty(all: Seq<Seq<IssueNumber>>, list: Seq<IssueNumber>)
    ensures
        insert_list(all, list).len() > 0,
    decreases all.len(),
{
}

proof fn walks_settle(
    active: Seq<ClaimView>,
    issues: Seq<IssueNumber>,
    path: Seq<IssueNumber>,
    seen: Seen,
)
    requires
        is_path(active, path),
        linked(active, path),
        path.len() > 0 ==> forall|i: int|
            0 <= i < issues.len() ==> waits(active, path.last(), #[trigger] issues[i]),
        all_cycles(active, seen.cycles),
        settled(active, seen.done),
        walk_all(active, issues, path, seen).cycles.len() == 0,
    ensures
        ({
            let done = walk_all(active, issues, path, seen).done;
            &&& settled(active, done)
            &&& forall|other: IssueNumber| seen.done.contains(other) ==> done.contains(other)
            &&& forall|i: int|
                0 <= i < issues.len() && claim_on(active, #[trigger] issues[i]) is Some
                    ==> done.contains(issues[i])
        }),
    decreases active.len() - path.len(), issues.len(),
{
    if issues.len() > 0 {
        let front = issues.drop_last();
        if path.len() > 0 {
            assert forall|i: int| 0 <= i < front.len() implies waits(
                active,
                path.last(),
                #[trigger] front[i],
            ) by {
                assert(front[i] == issues[i]);
            }
            assert(waits(active, path.last(), issues[issues.len() - 1]));
        }
        let half = walk_all(active, front, path, seen);
        walks_find_cycles(active, front, path, seen);
        walk_finds_cycles(active, issues.last(), path, half);
        walks_settle(active, front, path, seen);
        walk_settles(active, issues.last(), path, half);
        let done = walk_all(active, issues, path, seen).done;
        assert forall|i: int|
            0 <= i < issues.len() && claim_on(active, #[trigger] issues[i]) is Some implies done.contains(
            issues[i],
        ) by {
            if i < front.len() {
                assert(claim_on(active, front[i]) is Some);
                assert(half.done.contains(front[i]));
            }
        }
    }
}

/// Where the search reports no cycle there is none: no trail of claimed issues that each wait for
/// the next, from an issue that the search starts from, ever comes back to an issue of its own.
pub proof fn no_cycle_goes_unreported(
    active: Seq<ClaimView>,
    roots: Seq<IssueNumber>,
    trail: Seq<IssueNumber>,
)
    requires
        cycles_found(active, roots).len() == 0,
        trail.len() > 0 ==> start_issues(active, roots).contains(trail[0]),
        linked(active, trail),
        forall|i: int| 0 <= i < trail.len() ==> claim_on(active, #[trigger] trail[i]) is Some,
    ensures
        trail.no_duplicates(),
{
    let starts = start_issues(active, roots);
    let nothing = Seen { done: Seq::<IssueNumber>::empty(), cycles: Seq::empty() };
    walks_settle(active, starts, Seq::empty(), nothing);
    let done = walk_all(active, starts, Seq::empty(), nothing).done;
    if trail.len() > 0 {
        let k = choose|k: int| 0 <= k < starts.len() && starts[k] == trail[0];
        assert(claim_on(active, starts[k]) is Some);
        assert(done.contains(trail[0]));
        assert forall|i: int, j: int| 0 <= i < trail.len() && 0 <= j < trail.len() && i
            != j implies trail[i] != trail[j] by {
            if i < j {
                trail_descends(active, done, trail, i, j);
            } else {
                trail_descends(active, done, trail, j, i);
            }
        }
    }
}

/// Along a trail the issues were done with ever earlier.
proof fn trail_descends(
    active: Seq<ClaimView>,
    done: Seq<IssueNumber>,
    trail: Seq<IssueNumber>,
    i: int,
    j: int,
)
    requires
        settled(active, done),
        linked(active, trail),
        forall|k: int| 0 <= k < trail.len() ==> claim_on(active, #[trigger] trail[k]) is Some,
        0 <= i < j < trail.len(),
        done.contains(trail[0]),
    ensures
        trail[i] != trail[j],
{
    trail_is_done(active, done, trail, i);
    trail_is_done(active, done, trail, j);
    first_places_descend(active, done, trail, i, j);
}

proof fn trail_is_done(
    active: Seq<ClaimView>,
    done: Seq<IssueNumber>,
    trail: Seq<IssueNumber>,
    i: int,
)
    requires
        settled(active, done),
        linked(active, trail),
        forall|k: int| 0 <= k < trail.len() ==> claim_on(active, #[trigger] trail[k]) is Some,
        0 <= i < trail.len(),
        done.contains(trail[0]),
    ensures
        done.contains(trail[i]),
    decreases i,
{
    if i > 0 {
        trail_is_done(active, done, trail, i - 1);
        let k = choose|k: int| 0 <= k < done.len() && done[k] == trail[i - 1];
        assert(waits_next(active, trail, i - 1));
        assert(claim_on(active, trail[i]) is Some);
        assert(waits(active, done[k], trail[i]));
        assert(done.take(k).contains(trail[i]));
        let m = choose|m: int| 0 <= m < k && done.take(k)[m] == trail[i];
        assert(done[m] == trail[i]);
    }
}

proof fn first_places_descend(
    active: Seq<ClaimView>,
    done: Seq<IssueNumber>,
    trail: Seq<IssueNumber>,
    i: int,
    j: int,
)
    requires
        settled(active, done),
        linked(active, trail),
        forall|k: int| 0 <= k < trail.len() ==> claim_on(active, #[trigger] trail[k]) is Some,
        0 <= i < j < trail.len(),
        done.contains(trail[0]),
    ensures
        done.index_of_first(trail[j]) is Some,
        done.index_of_first(trail[i]) is Some,
        done.index_of_first(trail[j])->0 < done.index_of_first(trail[i])->0,
    decreases j,
{
    trail_is_done(active, done, trail, i);
    trail_is_done(active, done, trail, j - 1);
    trail_is_done(active, done, trail, j);
    done.index_of_first_ensures(trail[j]);
    done.index_of_first_ensures(trail[j - 1]);
    done.index_of_first_ensures(trail[i]);
    let k = done.index_of_first(trail[j - 1])->0;
    assert(waits_next(active, trail, j - 1));
    assert(claim_on(active, trail[j]) is Some);
    assert(waits(active, done[k], trail[j]));
    assert(done.take(k).contains(trail[j]));
    let m = choose|m: int| 0 <= m < k && done.take(k)[m] == trail[j];
    assert(done[m] == trail[j]);
    if i < j - 1 {
        first_places_descend(active, done, trail, i, j - 1);
    }
}

} // verus!
