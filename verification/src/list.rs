//! Lists: all claims that have been recorded, and which of them were released.
use vstd::prelude::*;
use vstd::string::*;

use crate::config::ConfigError;
use crate::git::RepositoryError;
use crate::id::{short_id, short_text, Id, IssueNumber};
use crate::model::{Claim, ClaimView, ReleaseMarker, ReleaseView};
use crate::record::{reason_name, reason_str};
use crate::redaction::{short_worktree, shortened_worktree};
use crate::store::StoreError;
use crate::terminal::{append_field, field_line, paint, painted};
use crate::text::{decimal, decimal_text, optional, views};
use crate::time::{seconds_notation, seconds_text, Timestamp};

pub use crate::document::list_document;

verus! {

#[derive(Clone, Copy, Debug, PartialEq, Eq, Structural)]
pub enum ClaimState {
    Active,
    Released,
}

/// A claim generation, and its release if it was released.
#[derive(Debug)]
pub struct ClaimListEntry {
    pub claim: Claim,
    pub state: ClaimState,
    pub release: Option<ReleaseMarker>,
}

pub struct EntryView {
    pub claim: ClaimView,
    pub state: ClaimState,
    pub release: Option<ReleaseView>,
}

impl View for ClaimListEntry {
    type V = EntryView;

    open spec fn view(&self) -> EntryView {
        EntryView { claim: self.claim@, state: self.state, release: optional(self.release) }
    }
}

/// All claims of a repository.
#[derive(Debug)]
pub struct ClaimList {
    pub claims: Vec<ClaimListEntry>,
}

impl View for ClaimList {
    type V = Seq<EntryView>;

    open spec fn view(&self) -> Seq<EntryView> {
        views(self.claims@)
    }
}

impl Default for ClaimList {
    fn default() -> (list: Self)
        ensures
            list@ == Seq::<EntryView>::empty(),
    {
        let list = ClaimList { claims: Vec::new() };
        assert(list@ =~= Seq::empty());
        list
    }
}

/// Why there is no list.
#[derive(Debug)]
pub enum ListError {
    Repository(RepositoryError),
    Config(ConfigError),
    Store(StoreError),
}

impl ListError {
    pub open spec fn text(self) -> Seq<char> {
        match self {
            ListError::Repository(error) => error.text(),
            ListError::Config(error) => error.text(),
            ListError::Store(error) => error.text(),
        }
    }

    pub fn message(&self) -> (text: String)
        ensures
            text@ == self.text(),
    {
        match self {
            ListError::Repository(error) => error.message(),
            ListError::Config(error) => error.message(),
            ListError::Store(error) => error.message(),
        }
    }
}

// ---------------------------------------------------------------------------------------------
// Making a list
// ---------------------------------------------------------------------------------------------
/// The last release that is of a generation.
pub open spec fn last_release(releases: Seq<ReleaseView>, issue: IssueNumber, id: Id) -> Option<
    ReleaseView,
>
    decreases releases.len(),
{
    if releases.len() == 0 {
        None
    } else if releases.last().issue == issue && releases.last().claim_id == id {
        Some(releases.last())
    } else {
        last_release(releases.drop_last(), issue, id)
    }
}

fn find_last_release(releases: &Vec<ReleaseMarker>, issue: IssueNumber, id: Id) -> (found: Option<
    ReleaseMarker,
>)
    ensures
        optional(found) == last_release(views(releases@), issue, id),
{
    let ghost all = views(releases@);
    let mut i: usize = releases.len();
    assert(all.take(i as int) =~= all);
    while i > 0
        invariant
            i <= releases.len(),
            all == views(releases@),
            last_release(all, issue, id) == last_release(all.take(i as int), issue, id),
        decreases i,
    {
        assert(all.take(i as int).last() == releases@[i - 1]@);
        assert(all.take(i as int).drop_last() =~= all.take(i - 1));
        if releases[i - 1].issue == issue && releases[i - 1].claim_id == id {
            return Some(releases[i - 1].clone());
        }
        i = i - 1;
    }
    None
}

/// Whether one of the claims is that generation.
pub open spec fn lists_generation(claims: Seq<ClaimView>, issue: IssueNumber, id: Id) -> bool {
    exists|i: int|
        0 <= i < claims.len() && (#[trigger] claims[i]).issue == issue && claims[i].claim_id == id
}

fn has_generation(claims: &Vec<Claim>, count: usize, issue: IssueNumber, id: Id) -> (found: bool)
    requires
        count <= claims.len(),
    ensures
        found == lists_generation(views(claims@).take(count as int), issue, id),
{
    let ghost all = views(claims@).take(count as int);
    let mut i: usize = 0;
    while i < count
        invariant
            i <= count <= claims.len(),
            all == views(claims@).take(count as int),
            forall|j: int|
                0 <= j < i ==> !((#[trigger] all[j]).issue == issue && all[j].claim_id == id),
        decreases count - i,
    {
        assert(all[i as int] == claims@[i as int]@);
        if claims[i].issue == issue && claims[i].claim_id == id {
            return true;
        }
        i = i + 1;
    }
    false
}

/// The entry of a claim: released where a release of its generation is recorded. A release counts
/// for one claim only.
pub open spec fn entry_of(
    claims: Seq<ClaimView>,
    releases: Seq<ReleaseView>,
    at: int,
    redact: bool,
) -> EntryView {
    let claim = claims[at];
    let release = if lists_generation(claims.take(at), claim.issue, claim.claim_id) {
        None
    } else {
        last_release(releases, claim.issue, claim.claim_id)
    };
    EntryView {
        claim: ClaimView {
            worktree: if redact {
                short_worktree(claim.worktree)
            } else {
                claim.worktree
            },
            ..claim
        },
        state: if release is Some {
            ClaimState::Released
        } else {
            ClaimState::Active
        },
        release,
    }
}

pub open spec fn entries_of(
    claims: Seq<ClaimView>,
    releases: Seq<ReleaseView>,
    redact: bool,
) -> Seq<EntryView> {
    Seq::new(claims.len(), |i: int| entry_of(claims, releases, i, redact))
}

/// Lists the claims that are recorded, with the releases that are.
pub fn get_claim_list(claims: &Vec<Claim>, releases: &Vec<ReleaseMarker>, redact: bool) -> (list:
    ClaimList)
    ensures
        list@ == entries_of(views(claims@), views(releases@), redact),
{
    let ghost all = views(claims@);
    let ghost known = views(releases@);
    let mut entries: Vec<ClaimListEntry> = Vec::new();
    let mut i: usize = 0;
    while i < claims.len()
        invariant
            i <= claims.len(),
            all == views(claims@),
            known == views(releases@),
            entries.len() == i,
            forall|j: int|
                0 <= j < i ==> (#[trigger] entries@[j])@ == entry_of(all, known, j, redact),
        decreases claims.len() - i,
    {
        let mut claim = claims[i].clone();
        let release = if has_generation(claims, i, claim.issue, claim.claim_id) {
            None
        } else {
            find_last_release(releases, claim.issue, claim.claim_id)
        };
        if redact {
            claim.worktree = shortened_worktree(claim.worktree.as_str());
        }
        let state = if release.is_some() {
            ClaimState::Released
        } else {
            ClaimState::Active
        };
        entries.push(ClaimListEntry { claim, state, release });
        i = i + 1;
    }
    let list = ClaimList { claims: entries };
    assert(list@ =~= entries_of(all, known, redact));
    list
}

/// Every recorded claim is listed, in its order; and where no generation is recorded twice, one is
/// listed as active exactly where it was not released.
pub proof fn lists_tell_what_was_released(
    claims: Seq<ClaimView>,
    releases: Seq<ReleaseView>,
    redact: bool,
    at: int,
)
    requires
        0 <= at < claims.len(),
        !lists_generation(claims.take(at), claims[at].issue, claims[at].claim_id),
    ensures
        entries_of(claims, releases, redact).len() == claims.len(),
        entries_of(claims, releases, redact)[at].claim.claim_id == claims[at].claim_id,
        entries_of(claims, releases, redact)[at].state is Released
            <==> crate::store::is_released(claims[at], releases),
        entries_of(claims, releases, redact)[at].state is Released <==> entries_of(
            claims,
            releases,
            redact,
        )[at].release is Some,
{
    last_release_found(releases, claims[at]);
}

proof fn last_release_found(releases: Seq<ReleaseView>, claim: ClaimView)
    ensures
        last_release(releases, claim.issue, claim.claim_id) is Some
            <==> crate::store::is_released(claim, releases),
    decreases releases.len(),
{
    if releases.len() > 0 {
        let front = releases.drop_last();
        last_release_found(front, claim);
        if crate::store::is_released(claim, front) {
            let k = choose|k: int|
                0 <= k < front.len() && (#[trigger] front[k]).issue == claim.issue
                    && front[k].claim_id == claim.claim_id;
            assert(releases[k].issue == claim.issue);
        }
        if crate::store::is_released(claim, releases) {
            let k = choose|k: int|
                0 <= k < releases.len() && (#[trigger] releases[k]).issue == claim.issue
                    && releases[k].claim_id == claim.claim_id;
            if k < front.len() {
                assert(front[k].issue == claim.issue);
            }
        }
    }
}

// ---------------------------------------------------------------------------------------------
// A list for people
// ---------------------------------------------------------------------------------------------
/// How many of the claims are active.
pub open spec fn active_count(entries: Seq<EntryView>) -> nat
    decreases entries.len(),
{
    if entries.len() == 0 {
        0
    } else if entries.last().state is Active {
        active_count(entries.drop_last()) + 1
    } else {
        active_count(entries.drop_last())
    }
}

fn count_active(entries: &Vec<ClaimListEntry>) -> (count: usize)
    ensures
        count == active_count(views(entries@)),
        count <= entries.len(),
{
    let ghost all = views(entries@);
    let mut count: usize = 0;
    let mut i: usize = 0;
    assert(all.take(0) =~= Seq::empty());
    while i < entries.len()
        invariant
            i <= entries.len(),
            all == views(entries@),
            count <= i,
            count == active_count(all.take(i as int)),
        decreases entries.len() - i,
    {
        assert(all.take(i + 1).drop_last() =~= all.take(i as int));
        assert(all.take(i + 1).last() == entries@[i as int]@);
        if matches!(entries[i].state, ClaimState::Active) {
            count = count + 1;
        }
        i = i + 1;
    }
    assert(all.take(i as int) =~= all);
    count
}

/// An instant for people, in whole seconds.
pub open spec fn instant_text(at: Timestamp) -> Seq<char> {
    match seconds_notation(at.secs, at.nanos) {
        Some(text) => text,
        None => "-"@,
    }
}

fn render_instant(at: Timestamp) -> (text: String)
    ensures
        text@ == instant_text(at),
{
    match seconds_text(at) {
        Some(text) => text,
        None => "-".to_owned(),
    }
}

/// Whether a claim is active, or why it was released.
pub open spec fn state_text(release: Option<ReleaseView>) -> Seq<char> {
    match release {
        Some(release) => "released ("@ + reason_name(release.reason) + ")"@,
        None => "active"@,
    }
}

pub open spec fn entry_heading(entry: EntryView, color: bool) -> Seq<char> {
    let (code, marker) = if entry.release is Some {
        ("2"@, "○"@)
    } else {
        ("32"@, "●"@)
    };
    "\n"@ + painted(color, code, marker) + " #"@ + decimal(entry.claim.issue as nat) + " "@
        + short_text(entry.claim.claim_id) + "  "@ + painted(color, code, state_text(entry.release))
        + "\n"@
}

/// A claim for people.
#[verifier::opaque]
pub open spec fn entry_block(entry: EntryView, color: bool) -> Seq<char> {
    entry_heading(entry, color) + field_line(color, 10, "Branch"@, entry.claim.branch) + field_line(
        color,
        10,
        "Worktree"@,
        short_worktree(entry.claim.worktree),
    ) + field_line(color, 10, "Created"@, instant_text(entry.claim.created_at))
}

pub open spec fn entry_blocks(entries: Seq<EntryView>, color: bool) -> Seq<char>
    decreases entries.len(),
{
    if entries.len() == 0 {
        Seq::empty()
    } else {
        entry_blocks(entries.drop_last(), color) + entry_block(entries.last(), color)
    }
}

/// A list for people: how many claims there are, and a block for each.
pub open spec fn list_text(entries: Seq<EntryView>, color: bool) -> Seq<char> {
    if entries.len() == 0 {
        "No claims have been recorded.\n"@
    } else {
        "Claim history: "@ + decimal(entries.len()) + " generations ("@ + decimal(
            active_count(entries),
        ) + " active, "@ + decimal((entries.len() - active_count(entries)) as nat)
            + " released)\n"@ + entry_blocks(entries, color)
    }
}

fn render_entry(entry: &ClaimListEntry, color: bool) -> (text: String)
    ensures
        text@ == entry_block(entry@, color),
{
    reveal(entry_block);
    let (code, marker, state) = match &entry.release {
        Some(release) => {
            let mut state = "released (".to_owned();
            state.append(reason_str(release.reason));
            state.append(")");
            ("2", "○", state)
        },
        None => ("32", "●", "active".to_owned()),
    };
    let mut text = "\n".to_owned();
    text.append(paint(color, code, marker).as_str());
    text.append(" #");
    text.append(decimal_text(entry.claim.issue).as_str());
    text.append(" ");
    text.append(short_id(entry.claim.claim_id).as_str());
    text.append("  ");
    text.append(paint(color, code, state.as_str()).as_str());
    text.append("\n");
    append_field(&mut text, color, 10, "Branch", entry.claim.branch.as_str());
    let worktree = shortened_worktree(entry.claim.worktree.as_str());
    append_field(&mut text, color, 10, "Worktree", worktree.as_str());
    let created = render_instant(entry.claim.created_at);
    append_field(&mut text, color, 10, "Created", created.as_str());
    text
}

fn append_entries(output: &mut String, entries: &Vec<ClaimListEntry>, color: bool)
    ensures
        final(output)@ == old(output)@ + entry_blocks(views(entries@), color),
{
    let ghost before = output@;
    let ghost all = views(entries@);
    let mut i: usize = 0;
    assert(all.take(0) =~= Seq::empty());
    assert(before + entry_blocks(all.take(0), color) =~= before);
    while i < entries.len()
        invariant
            i <= entries.len(),
            all == views(entries@),
            output@ == before + entry_blocks(all.take(i as int), color),
        decreases entries.len() - i,
    {
        assert(all.take(i + 1).drop_last() =~= all.take(i as int));
        assert(all.take(i + 1).last() == entries@[i as int]@);
        let ghost done = entry_blocks(all.take(i as int), color);
        let block = render_entry(&entries[i], color);
        output.append(block.as_str());
        i = i + 1;
        assert(before + done + block@ =~= before + (done + block@));
    }
    assert(all.take(i as int) =~= all);
}

fn render_claim_list(list: &ClaimList, color: bool) -> (output: String)
    ensures
        output@ == list_text(list@, color),
{
    if list.claims.len() == 0 {
        return "No claims have been recorded.\n".to_owned();
    }
    let active: usize = count_active(&list.claims);
    let released: usize = list.claims.len() - active;
    let mut output = "Claim history: ".to_owned();
    output.append(decimal_text(list.claims.len() as u64).as_str());
    output.append(" generations (");
    output.append(decimal_text(active as u64).as_str());
    output.append(" active, ");
    output.append(decimal_text(released as u64).as_str());
    output.append(" released)\n");
    append_entries(&mut output, &list.claims, color);
    output
}

/// A list for people.
pub fn render_claim_list_human(list: &ClaimList) -> (output: String)
    ensures
        output@ == list_text(list@, false),
{
    render_claim_list(list, false)
}

/// A list for people, with colours.
pub fn render_claim_list_human_colored(list: &ClaimList) -> (output: String)
    ensures
        output@ == list_text(list@, true),
{
    render_claim_list(list, true)
}

} // verus!
