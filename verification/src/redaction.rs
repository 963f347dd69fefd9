//! Redaction: how absolute paths are shortened to the name of what they lead to.
use vstd::prelude::*;
use vstd::string::*;

use crate::doctor::{
    CheckView, DoctorCheck, DoctorNodeReport, DoctorReport, DoctorSubject, NodeReportView,
    ReportView,
};
use crate::json::{list_view, members_view, object_view, Json, JsonView};
use crate::path::{absolute, file_name, is_absolute, name_of};
use crate::text::{begins, pairs, quote, quoted, replace, replaced, same, starts_with, views};

verus! {

/// The name that a path ends in, behind a sign that the rest is left out.
pub open spec fn shortened(path: Seq<char>) -> Seq<char> {
    match name_of(path) {
        Some(name) => "…/"@ + name,
        None => "…"@,
    }
}

pub fn shortened_path(path: &str) -> (text: String)
    ensures
        text@ == shortened(path@),
{
    match file_name(path) {
        Some(name) => {
            let mut text = "…/".to_owned();
            text.append(name.as_str());
            text
        },
        None => "…".to_owned(),
    }
}

/// The path of a worktree, shortened unless it is already.
pub open spec fn short_worktree(path: Seq<char>) -> Seq<char> {
    if begins(path, "…/"@) {
        path
    } else {
        shortened(path)
    }
}

pub fn shortened_worktree(path: &str) -> (text: String)
    ensures
        text@ == short_worktree(path@),
{
    if starts_with(path, "…/") {
        path.to_owned()
    } else {
        shortened_path(path)
    }
}

/// Shortening the path of a worktree that has a name twice is shortening it once.
pub proof fn shortening_is_idempotent(path: Seq<char>)
    requires
        begins(path, "…/"@) || name_of(path) is Some,
    ensures
        short_worktree(short_worktree(path)) == short_worktree(path),
{
    if !begins(path, "…/"@) {
        let name = name_of(path)->0;
        assert(("…/"@ + name).take("…/"@.len() as int) =~= "…/"@);
    }
}

/// A text with replacements, one after the other.
pub open spec fn with_replacements(
    text: Seq<char>,
    replacements: Seq<(Seq<char>, Seq<char>)>,
) -> Seq<char>
    decreases replacements.len(),
{
    if replacements.len() == 0 {
        text
    } else {
        replaced(
            with_replacements(text, replacements.drop_last()),
            replacements.last().0,
            replacements.last().1,
        )
    }
}

fn redact_text(text: &str, replacements: &Vec<(String, String)>) -> (result: String)
    ensures
        result@ == with_replacements(text@, pairs(replacements@)),
{
    let ghost all = pairs(replacements@);
    let mut result = text.to_owned();
    let mut i: usize = 0;
    assert(all.take(0) =~= Seq::empty());
    while i < replacements.len()
        invariant
            i <= replacements.len(),
            all == pairs(replacements@),
            result@ == with_replacements(text@, all.take(i as int)),
        decreases replacements.len() - i,
    {
        assert(all.take(i + 1).drop_last() =~= all.take(i as int));
        assert(all.take(i + 1).last() == (replacements@[i as int].0@, replacements@[i as int].1@));
        result = replace(
            result.as_str(),
            replacements[i].0.as_str(),
            replacements[i].1.as_str(),
        );
        i = i + 1;
    }
    assert(all.take(i as int) =~= all);
    result
}

/// A message with replacements, one after the other: each path is replaced where it stands between
/// quotes, and then where it stands bare.
pub open spec fn redacted_message(
    message: Seq<char>,
    replacements: Seq<(Seq<char>, Seq<char>)>,
) -> Seq<char>
    decreases replacements.len(),
{
    if replacements.len() == 0 {
        message
    } else {
        let (path, short) = replacements.last();
        replaced(
            replaced(
                redacted_message(message, replacements.drop_last()),
                quoted(path),
                quoted(short),
            ),
            path,
            short,
        )
    }
}

pub fn redact_message(message: &str, replacements: &Vec<(String, String)>) -> (result: String)
    ensures
        result@ == redacted_message(message@, pairs(replacements@)),
{
    let ghost all = pairs(replacements@);
    let mut result = message.to_owned();
    let mut i: usize = 0;
    assert(all.take(0) =~= Seq::empty());
    while i < replacements.len()
        invariant
            i <= replacements.len(),
            all == pairs(replacements@),
            result@ == redacted_message(message@, all.take(i as int)),
        decreases replacements.len() - i,
    {
        assert(all.take(i + 1).drop_last() =~= all.take(i as int));
        assert(all.take(i + 1).last() == (replacements@[i as int].0@, replacements@[i as int].1@));
        let path = replacements[i].0.as_str();
        let short = replacements[i].1.as_str();
        let bare = replace(result.as_str(), quote(path).as_str(), quote(short).as_str());
        result = replace(bare.as_str(), path, short);
        i = i + 1;
    }
    assert(all.take(i as int) =~= all);
    result
}

// ---------------------------------------------------------------------------------------------
// Evidence
// ---------------------------------------------------------------------------------------------
/// The absolute paths among the texts of a value, each with what it is shortened to.
pub open spec fn paths_in(value: JsonView) -> Seq<(Seq<char>, Seq<char>)>
    decreases value,
{
    match value {
        JsonView::Text(text) => if absolute(text) {
            seq![(text, shortened(text))]
        } else {
            Seq::empty()
        },
        JsonView::List(items) => paths_in_items(items),
        JsonView::Object(members) => paths_in_members(members),
        _ => Seq::empty(),
    }
}

pub open spec fn paths_in_items(items: Seq<JsonView>) -> Seq<(Seq<char>, Seq<char>)>
    decreases items,
{
    if items.len() == 0 {
        Seq::empty()
    } else {
        paths_in_items(items.subrange(0, items.len() - 1)) + paths_in(items[items.len() - 1])
    }
}

pub open spec fn paths_in_members(members: Seq<(Seq<char>, JsonView)>) -> Seq<
    (Seq<char>, Seq<char>),
>
    decreases members,
{
    if members.len() == 0 {
        Seq::empty()
    } else {
        paths_in_members(members.subrange(0, members.len() - 1)) + paths_in(
            members[members.len() - 1].1,
        )
    }
}

/// A value with replacements in all of its texts.
pub open spec fn redacted_value(
    value: JsonView,
    replacements: Seq<(Seq<char>, Seq<char>)>,
) -> JsonView
    decreases value,
{
    match value {
        JsonView::Text(text) => JsonView::Text(with_replacements(text, replacements)),
        JsonView::List(items) => JsonView::List(
            Seq::new(
                items.len(),
                |i: int|
                    if 0 <= i < items.len() {
                        redacted_value(items[i], replacements)
                    } else {
                        JsonView::Null
                    },
            ),
        ),
        JsonView::Object(members) => JsonView::Object(
            Seq::new(
                members.len(),
                |i: int|
                    if 0 <= i < members.len() {
                        (members[i].0, redacted_value(members[i].1, replacements))
                    } else {
                        (Seq::empty(), JsonView::Null)
                    },
            ),
        ),
        _ => value,
    }
}

fn collect_absolute_paths(value: &Json, found: &mut Vec<(String, String)>)
    ensures
        pairs(final(found)@) == pairs(old(found)@) + paths_in(value@),
    decreases value,
{
    let ghost start = pairs(found@);
    match value {
        Json::Text(text) => {
            if is_absolute(text.as_str()) {
                found.push((text.clone(), shortened_path(text.as_str())));
                assert(pairs(found@) =~= start + seq![(text@, shortened(text@))]);
            } else {
                assert(start + Seq::empty() =~= start);
            }
        },
        Json::List(items) => {
            proof {
                list_view(*items);
            }
            let ghost all = views(items@);
            let mut i: usize = 0;
            assert(all.take(0) =~= Seq::empty());
            assert(start + paths_in_items(all.take(0)) =~= start);
            while i < items.len()
                invariant
                    i <= items.len(),
                    *value == Json::List(*items),
                    all == views(items@),
                    pairs(found@) == start + paths_in_items(all.take(i as int)),
                decreases items.len() - i,
            {
                let ghost now = all.take(i + 1);
                assert(decreases_to!(value => value->List_0@[i as int]));
                assert(now.subrange(0, now.len() - 1) =~= all.take(i as int));
                assert(now[now.len() - 1] == items@[i as int]@);
                collect_absolute_paths(&items[i], found);
                i = i + 1;
                assert(pairs(found@) =~= start + paths_in_items(now));
            }
            assert(all.take(i as int) =~= all);
        },
        Json::Object(members) => {
            proof {
                object_view(*members);
            }
            let ghost all = members_view(members@);
            let mut i: usize = 0;
            assert(all.take(0) =~= Seq::empty());
            assert(start + paths_in_members(all.take(0)) =~= start);
            while i < members.len()
                invariant
                    i <= members.len(),
                    *value == Json::Object(*members),
                    all == members_view(members@),
                    pairs(found@) == start + paths_in_members(all.take(i as int)),
                decreases members.len() - i,
            {
                let ghost now = all.take(i + 1);
                assert(decreases_to!(value => value->Object_0@[i as int].1));
                assert(now.subrange(0, now.len() - 1) =~= all.take(i as int));
                assert(now[now.len() - 1].1 == members@[i as int].1@);
                collect_absolute_paths(&members[i].1, found);
                i = i + 1;
                assert(pairs(found@) =~= start + paths_in_members(now));
            }
            assert(all.take(i as int) =~= all);
        },
        _ => {
            assert(start + Seq::empty() =~= start);
        },
    }
}

fn redact_value(value: &Json, replacements: &Vec<(String, String)>) -> (result: Json)
    ensures
        result@ == redacted_value(value@, pairs(replacements@)),
    decreases value,
{
    match value {
        Json::Null => Json::Null,
        Json::Bool(b) => Json::Bool(*b),
        Json::Unsigned(n) => Json::Unsigned(*n),
        Json::Negative(n) => Json::Negative(*n),
        Json::Other(text) => Json::Other(text.clone()),
        Json::Text(text) => Json::Text(redact_text(text.as_str(), replacements)),
        Json::List(items) => {
            proof {
                list_view(*items);
            }
            let mut result: Vec<Json> = Vec::new();
            let mut i: usize = 0;
            while i < items.len()
                invariant
                    i <= items.len(),
                    *value == Json::List(*items),
                    result.len() == i,
                    forall|j: int|
                        0 <= j < i ==> (#[trigger] result@[j])@ == redacted_value(
                            items@[j]@,
                            pairs(replacements@),
                        ),
                decreases items.len() - i,
            {
                assert(decreases_to!(value => value->List_0@[i as int]));
                let item = redact_value(&items[i], replacements);
                result.push(item);
                i = i + 1;
            }
            let json = Json::List(result);
            proof {
                list_view(result);
                assert(json@->List_0 =~= redacted_value(value@, pairs(replacements@))->List_0);
            }
            json
        },
        Json::Object(members) => {
            proof {
                object_view(*members);
            }
            let mut result: Vec<(String, Json)> = Vec::new();
            let mut i: usize = 0;
            while i < members.len()
                invariant
                    i <= members.len(),
                    *value == Json::Object(*members),
                    result.len() == i,
                    forall|j: int|
                        0 <= j < i ==> (#[trigger] result@[j]).0@ == members@[j].0@ && result@[j].1@
                            == redacted_value(members@[j].1@, pairs(replacements@)),
                decreases members.len() - i,
            {
                assert(decreases_to!(value => value->Object_0@[i as int].1));
                let item = redact_value(&members[i].1, replacements);
                result.push((members[i].0.clone(), item));
                i = i + 1;
            }
            let json = Json::Object(result);
            proof {
                object_view(result);
                assert(json@->Object_0 =~= redacted_value(value@, pairs(replacements@))->Object_0);
            }
            json
        },
    }
}

// ---------------------------------------------------------------------------------------------
// Reports
// ---------------------------------------------------------------------------------------------
/// How many bytes a text takes up.
pub open spec fn byte_length(text: Seq<char>) -> usize {
    vstd::utf8::encode_utf8(text).len() as usize
}

/// The replacements with one more at its place: behind those of paths that are at least as long.
pub open spec fn with_replacement(
    replacements: Seq<(Seq<char>, Seq<char>)>,
    one: (Seq<char>, Seq<char>),
) -> Seq<(Seq<char>, Seq<char>)>
    decreases replacements.len(),
{
    if replacements.len() > 0 && byte_length(one.0) > byte_length(replacements.last().0) {
        with_replacement(replacements.drop_last(), one).push(replacements.last())
    } else {
        replacements.push(one)
    }
}

/// The replacements from the longest path to the shortest.
pub open spec fn longest_first(found: Seq<(Seq<char>, Seq<char>)>) -> Seq<(Seq<char>, Seq<char>)>
    decreases found.len(),
{
    if found.len() == 0 {
        Seq::empty()
    } else {
        with_replacement(longest_first(found.drop_last()), found.last())
    }
}

/// The replacements without those that follow one of the same path.
pub open spec fn without_repeats(found: Seq<(Seq<char>, Seq<char>)>) -> Seq<(Seq<char>, Seq<char>)>
    decreases found.len(),
{
    if found.len() == 0 {
        Seq::empty()
    } else {
        let front = without_repeats(found.drop_last());
        if front.len() > 0 && front.last().0 == found.last().0 {
            front
        } else {
            front.push(found.last())
        }
    }
}

/// The absolute paths in the evidence of checks.
pub open spec fn paths_in_checks(checks: Seq<CheckView>) -> Seq<(Seq<char>, Seq<char>)>
    decreases checks.len(),
{
    if checks.len() == 0 {
        Seq::empty()
    } else {
        let front = paths_in_checks(checks.drop_last());
        match checks.last().evidence {
            Some(evidence) => front + paths_in(evidence),
            None => front,
        }
    }
}

/// The absolute paths in the evidence of the checks of nodes.
pub open spec fn paths_in_nodes(nodes: Seq<NodeReportView>) -> Seq<(Seq<char>, Seq<char>)>
    decreases nodes.len(),
{
    if nodes.len() == 0 {
        Seq::empty()
    } else {
        paths_in_nodes(nodes.drop_last()) + paths_in_checks(nodes.last().checks)
    }
}

/// The replacements that a report calls for.
pub open spec fn replacements_of(report: ReportView) -> Seq<(Seq<char>, Seq<char>)> {
    without_repeats(longest_first(paths_in_checks(report.checks) + paths_in_nodes(report.nodes)))
}

pub open spec fn redacted_check(
    check: CheckView,
    replacements: Seq<(Seq<char>, Seq<char>)>,
) -> CheckView {
    CheckView {
        message: with_replacements(check.message, replacements),
        evidence: match check.evidence {
            Some(evidence) => Some(redacted_value(evidence, replacements)),
            None => None,
        },
        ..check
    }
}

pub open spec fn redacted_checks(
    checks: Seq<CheckView>,
    replacements: Seq<(Seq<char>, Seq<char>)>,
) -> Seq<CheckView> {
    Seq::new(checks.len(), |i: int| redacted_check(checks[i], replacements))
}

pub open spec fn redacted_texts(
    texts: Seq<Seq<char>>,
    replacements: Seq<(Seq<char>, Seq<char>)>,
) -> Seq<Seq<char>> {
    Seq::new(texts.len(), |i: int| with_replacements(texts[i], replacements))
}

/// A report in whose messages, recommendations and evidence the absolute paths of its evidence are
/// shortened; what it comes to stays.
pub open spec fn redacted_report(report: ReportView) -> ReportView {
    let replacements = replacements_of(report);
    ReportView {
        checks: redacted_checks(report.checks, replacements),
        recommendations: redacted_texts(report.recommendations, replacements),
        nodes: Seq::new(
            report.nodes.len(),
            |i: int|
                NodeReportView {
                    checks: redacted_checks(report.nodes[i].checks, replacements),
                    recommendations: redacted_texts(report.nodes[i].recommendations, replacements),
                    ..report.nodes[i]
                },
        ),
        ..report
    }
}

fn put_replacement(replacements: &mut Vec<(String, String)>, one: (String, String))
    ensures
        pairs(final(replacements)@) == with_replacement(
            pairs(old(replacements)@),
            (one.0@, one.1@),
        ),
{
    let ghost all = pairs(replacements@);
    let ghost wanted = (one.0@, one.1@);
    let length: usize = one.0.as_str().len();
    let mut at: usize = replacements.len();
    assert(all.take(at as int) =~= all);
    assert(all.skip(at as int) =~= Seq::empty());
    assert(with_replacement(all.take(at as int), wanted) + all.skip(at as int) =~= with_replacement(
        all,
        wanted,
    ));
    while at > 0 && length > replacements[at - 1].0.as_str().len()
        invariant
            at <= replacements.len(),
            pairs(replacements@) == all,
            length == byte_length(wanted.0),
            with_replacement(all.take(at as int), wanted) + all.skip(at as int) == with_replacement(
                all,
                wanted,
            ),
        decreases at,
    {
        let ghost front = all.take(at as int);
        assert(front.drop_last() =~= all.take(at - 1));
        assert(front.last() == (replacements@[at - 1].0@, replacements@[at - 1].1@));
        assert(with_replacement(all.take(at - 1), wanted).push(all[at - 1]) + all.skip(at as int)
            =~= with_replacement(all.take(at - 1), wanted) + all.skip(at - 1));
        at = at - 1;
    }
    let ghost front = all.take(at as int);
    if at > 0 {
        assert(front.last() == (replacements@[at - 1].0@, replacements@[at - 1].1@));
    }
    replacements.insert(at, one);
    assert(with_replacement(front, wanted) =~= front.push(wanted));
    assert(pairs(replacements@) =~= front.push(wanted) + all.skip(at as int));
}

fn order_replacements(found: &Vec<(String, String)>) -> (replacements: Vec<(String, String)>)
    ensures
        pairs(replacements@) == without_repeats(longest_first(pairs(found@))),
{
    let ghost all = pairs(found@);
    let mut sorted: Vec<(String, String)> = Vec::new();
    let mut i: usize = 0;
    assert(all.take(0) =~= Seq::empty());
    assert(pairs(sorted@) =~= Seq::empty());
    while i < found.len()
        invariant
            i <= found.len(),
            all == pairs(found@),
            pairs(sorted@) == longest_first(all.take(i as int)),
        decreases found.len() - i,
    {
        assert(all.take(i + 1).drop_last() =~= all.take(i as int));
        assert(all.take(i + 1).last() == (found@[i as int].0@, found@[i as int].1@));
        put_replacement(&mut sorted, (found[i].0.clone(), found[i].1.clone()));
        i = i + 1;
    }
    assert(all.take(i as int) =~= all);
    let ghost ordered = pairs(sorted@);
    let mut result: Vec<(String, String)> = Vec::new();
    i = 0;
    assert(ordered.take(0) =~= Seq::empty());
    assert(pairs(result@) =~= Seq::empty());
    while i < sorted.len()
        invariant
            i <= sorted.len(),
            ordered == pairs(sorted@),
            pairs(result@) == without_repeats(ordered.take(i as int)),
        decreases sorted.len() - i,
    {
        let ghost done = pairs(result@);
        assert(ordered.take(i + 1).drop_last() =~= ordered.take(i as int));
        assert(ordered.take(i + 1).last() == (sorted@[i as int].0@, sorted@[i as int].1@));
        let repeated = if result.len() > 0 {
            assert(done.last() == (result@[result.len() - 1].0@, result@[result.len() - 1].1@));
            same(result[result.len() - 1].0.as_str(), sorted[i].0.as_str())
        } else {
            false
        };
        if !repeated {
            result.push((sorted[i].0.clone(), sorted[i].1.clone()));
            assert(pairs(result@) =~= done.push(ordered[i as int]));
        }
        i = i + 1;
    }
    assert(ordered.take(i as int) =~= ordered);
    result
}

fn collect_from_checks(checks: &Vec<DoctorCheck>, found: &mut Vec<(String, String)>)
    ensures
        pairs(final(found)@) == pairs(old(found)@) + paths_in_checks(views(checks@)),
{
    let ghost start = pairs(found@);
    let ghost all = views(checks@);
    let mut i: usize = 0;
    assert(all.take(0) =~= Seq::empty());
    assert(start + paths_in_checks(all.take(0)) =~= start);
    while i < checks.len()
        invariant
            i <= checks.len(),
            all == views(checks@),
            pairs(found@) == start + paths_in_checks(all.take(i as int)),
        decreases checks.len() - i,
    {
        let ghost now = all.take(i + 1);
        assert(now.drop_last() =~= all.take(i as int));
        assert(now.last() == checks@[i as int]@);
        if let Some(evidence) = &checks[i].evidence {
            collect_absolute_paths(evidence, found);
        }
        i = i + 1;
        assert(pairs(found@) =~= start + paths_in_checks(now));
    }
    assert(all.take(i as int) =~= all);
}

fn redact_checks(checks: &Vec<DoctorCheck>, replacements: &Vec<(String, String)>) -> (result: Vec<
    DoctorCheck,
>)
    ensures
        views(result@) == redacted_checks(views(checks@), pairs(replacements@)),
{
    let mut result: Vec<DoctorCheck> = Vec::new();
    let mut i: usize = 0;
    while i < checks.len()
        invariant
            i <= checks.len(),
            result.len() == i,
            forall|j: int|
                0 <= j < i ==> (#[trigger] result@[j])@ == redacted_check(
                    checks@[j]@,
                    pairs(replacements@),
                ),
        decreases checks.len() - i,
    {
        let check = &checks[i];
        result.push(
            DoctorCheck {
                id: check.id.clone(),
                gate: check.gate,
                title: check.title.clone(),
                status: check.status,
                required: check.required,
                message: redact_text(check.message.as_str(), replacements),
                evidence: match &check.evidence {
                    Some(evidence) => Some(redact_value(evidence, replacements)),
                    None => None,
                },
            },
        );
        i = i + 1;
    }
    assert(views(result@) =~= redacted_checks(views(checks@), pairs(replacements@)));
    result
}

fn redact_texts(texts: &Vec<String>, replacements: &Vec<(String, String)>) -> (result: Vec<String>)
    ensures
        views(result@) == redacted_texts(views(texts@), pairs(replacements@)),
{
    let mut result: Vec<String> = Vec::new();
    let mut i: usize = 0;
    while i < texts.len()
        invariant
            i <= texts.len(),
            result.len() == i,
            forall|j: int|
                0 <= j < i ==> (#[trigger] result@[j])@ == with_replacements(
                    texts@[j]@,
                    pairs(replacements@),
                ),
        decreases texts.len() - i,
    {
        result.push(redact_text(texts[i].as_str(), replacements));
        i = i + 1;
    }
    assert(views(result@) =~= redacted_texts(views(texts@), pairs(replacements@)));
    result
}

/// The report with the absolute paths of its evidence shortened, wherever they stand in it.
pub fn redact_doctor_paths(report: &DoctorReport) -> (result: DoctorReport)
    ensures
        result@ == redacted_report(report@),
{
    let mut found: Vec<(String, String)> = Vec::new();
    assert(pairs(found@) =~= Seq::empty());
    collect_from_checks(&report.checks, &mut found);
    let ghost own = paths_in_checks(report@.checks);
    assert(pairs(found@) =~= own);
    let ghost all = report@.nodes;
    let mut i: usize = 0;
    assert(all.take(0) =~= Seq::empty());
    assert(own + paths_in_nodes(all.take(0)) =~= own);
    while i < report.nodes.len()
        invariant
            i <= report.nodes.len(),
            all == views(report.nodes@),
            pairs(found@) == own + paths_in_nodes(all.take(i as int)),
        decreases report.nodes.len() - i,
    {
        let ghost now = all.take(i + 1);
        assert(now.drop_last() =~= all.take(i as int));
        assert(now.last() == report.nodes@[i as int]@);
        collect_from_checks(&report.nodes[i].checks, &mut found);
        i = i + 1;
        assert(pairs(found@) =~= own + paths_in_nodes(now));
    }
    assert(all.take(i as int) =~= all);
    let replacements = order_replacements(&found);
    let ghost wanted = replacements_of(report@);
    assert(pairs(replacements@) == wanted);
    let mut nodes: Vec<DoctorNodeReport> = Vec::new();
    i = 0;
    while i < report.nodes.len()
        invariant
            i <= report.nodes.len(),
            nodes.len() == i,
            pairs(replacements@) == wanted,
            forall|j: int|
                0 <= j < i ==> (#[trigger] nodes@[j])@ == (NodeReportView {
                    checks: redacted_checks(report.nodes@[j]@.checks, wanted),
                    recommendations: redacted_texts(report.nodes@[j]@.recommendations, wanted),
                    ..report.nodes@[j]@
                }),
        decreases report.nodes.len() - i,
    {
        let node = &report.nodes[i];
        nodes.push(
            DoctorNodeReport {
                issue: node.issue,
                claim_id: node.claim_id,
                status: node.status,
                gates: node.gates,
                checks: redact_checks(&node.checks, &replacements),
                recommendations: redact_texts(&node.recommendations, &replacements),
            },
        );
        i = i + 1;
    }
    let result = DoctorReport {
        subject: DoctorSubject {
            repo: report.subject.repo.clone(),
            issue: report.subject.issue,
            stack: report.subject.stack,
        },
        status: report.status,
        gates: report.gates,
        checks: redact_checks(&report.checks, &replacements),
        recommendations: redact_texts(&report.recommendations, &replacements),
        generated_at: report.generated_at,
        nodes,
    };
    assert(result@.nodes =~= redacted_report(report@).nodes);
    result
}

/// Redaction changes no result: status, gates and the result of every check stay.
pub proof fn redaction_keeps_results(report: ReportView)
    ensures
        redacted_report(report).status == report.status,
        redacted_report(report).gates == report.gates,
        redacted_report(report).subject == report.subject,
        redacted_report(report).checks.len() == report.checks.len(),
        forall|i: int|
            0 <= i < report.checks.len() ==> {
                let after = #[trigger] redacted_report(report).checks[i];
                &&& after.id == report.checks[i].id
                &&& after.gate == report.checks[i].gate
                &&& after.status == report.checks[i].status
                &&& after.required == report.checks[i].required
            },
{
}

} // verus!
