//! What configured settings come to.
use vstd::prelude::*;

use crate::config::{
    built_in_risks, built_in_risks_are_ordered, defaults, overlaid, risks_stay_ordered, with_rule,
    with_rules, ConfigOverlay, ConfigView,
};
use crate::conflict::{first_fault, globs_of, pattern_fault};
use crate::path::absolute;
use crate::text::{
    ascending, before, before_irreflexive, before_transitive, blank, optional, pairs, views,
};

verus! {

/// Without a file the settings are those: the remote is `origin`, its default branch and the place
/// of worktrees are found out, paths are kept out of JSON, nothing is run on events, and the
/// built-in risks hold.
pub proof fn defaults_are_these()
    ensures
        defaults().base_remote == "origin"@,
        defaults().default_base_ref is None,
        defaults().worktree_root is None,
        defaults().redact_paths_in_json,
        defaults().on_run_event is None,
        defaults().risk_paths == built_in_risks(),
{
}

/// A setting that a file gives is taken from it; one that it does not give is the default.
pub proof fn files_override_defaults(overlay: ConfigOverlay)
    ensures
        ({
            let made = overlaid(overlay);
            &&& made.base_remote == (match overlay.base_remote {
                Some(remote) => remote@,
                None => defaults().base_remote,
            })
            &&& made.default_base_ref == (match overlay.default_base_ref {
                Some(reference) => optional(reference),
                None => defaults().default_base_ref,
            })
            &&& made.worktree_root == (match overlay.worktree_root {
                Some(root) => optional(root),
                None => defaults().worktree_root,
            })
            &&& made.redact_paths_in_json == (match overlay.redact_paths_in_json {
                Some(redact) => redact,
                None => defaults().redact_paths_in_json,
            })
            &&& made.on_run_event is Some <==> (overlay.on_run_event matches Some(Some(_)))
            &&& overlay.on_run_event matches Some(Some(words)) ==> made.on_run_event == Some(
                views(words@),
            )
            &&& overlay.risk_paths is None ==> made.risk_paths == defaults().risk_paths
        }),
{
}

/// Whether rules give a glob a label.
pub open spec fn gives(
    rules: Seq<(Seq<char>, Seq<char>)>,
    glob: Seq<char>,
    label: Seq<char>,
) -> bool {
    exists|i: int|
        0 <= i < rules.len() && (#[trigger] rules[i]).0 == glob && rules[i].1 == label
}

/// Whether rules say anything of a glob.
pub open spec fn names(rules: Seq<(Seq<char>, Seq<char>)>, glob: Seq<char>) -> bool {
    exists|i: int| 0 <= i < rules.len() && (#[trigger] rules[i]).0 == glob
}

spec fn is_map(rules: Seq<(Seq<char>, Seq<char>)>) -> bool {
    ascending(globs_of(rules))
}

proof fn rules_are_put(
    rules: Seq<(Seq<char>, Seq<char>)>,
    rule: (Seq<char>, Seq<char>),
    glob: Seq<char>,
    label: Seq<char>,
)
    requires
        is_map(rules),
    ensures
        gives(with_rule(rules, rule), glob, label) <==> (if glob == rule.0 {
            label == rule.1
        } else {
            gives(rules, glob, label)
        }),
    decreases rules.len(),
{
    let all = with_rule(rules, rule);
    if rules.len() == 0 {
        assert(all[0] == rule);
    } else {
        let front = rules.drop_last();
        let last = rules.last();
        let end = rules.len() - 1;
        assert(rules[end] == last);
        assert(is_map(front)) by {
            assert forall|i: int, j: int| 0 <= i < j < globs_of(front).len() implies before(
                #[trigger] globs_of(front)[i],
                #[trigger] globs_of(front)[j],
            ) by {
                assert(before(globs_of(rules)[i], globs_of(rules)[j]));
            }
        }
        assert forall|i: int| 0 <= i < end implies (#[trigger] rules[i]).0 != last.0 by {
            assert(before(globs_of(rules)[i], globs_of(rules)[end]));
            before_irreflexive(last.0);
        }
        gives_by_last(front, last, glob, label);
        assert(front.push(last) =~= rules);
        if last.0 == rule.0 {
            assert(all == front.push(rule));
            gives_by_last(front, rule, glob, label);
            if glob == rule.0 && gives(front, glob, label) {
                let i = choose|i: int|
                    0 <= i < front.len() && (#[trigger] front[i]).0 == glob && front[i].1 == label;
                assert(rules[i].0 == last.0);
            }
        } else if before(last.0, rule.0) {
            assert(all == rules.push(rule));
            gives_by_last(rules, rule, glob, label);
            if glob == rule.0 && gives(rules, glob, label) {
                let i = choose|i: int|
                    0 <= i < rules.len() && (#[trigger] rules[i]).0 == glob && rules[i].1 == label;
                if i < end {
                    assert(before(globs_of(rules)[i], globs_of(rules)[end]));
                    before_transitive(glob, last.0, rule.0);
                }
                before_irreflexive(rule.0);
            }
        } else {
            rules_are_put(front, rule, glob, label);
            let inner = with_rule(front, rule);
            assert(all == inner.push(last));
            gives_by_last(inner, last, glob, label);
        }
    }
}

proof fn gives_by_last(
    front: Seq<(Seq<char>, Seq<char>)>,
    last: (Seq<char>, Seq<char>),
    glob: Seq<char>,
    label: Seq<char>,
)
    ensures
        gives(front.push(last), glob, label) <==> gives(front, glob, label) || (last.0 == glob
            && last.1 == label),
{
    let all = front.push(last);
    assert(all[front.len() as int] == last);
    if gives(front, glob, label) {
        let i = choose|i: int|
            0 <= i < front.len() && (#[trigger] front[i]).0 == glob && front[i].1 == label;
        assert(all[i] == front[i]);
    }
    if gives(all, glob, label) {
        let i = choose|i: int|
            0 <= i < all.len() && (#[trigger] all[i]).0 == glob && all[i].1 == label;
        if i < front.len() {
            assert(front[i] == all[i]);
        }
    }
}

/// The risks that a file gives are put to the built-in ones: a glob has the label that the file
/// gives it last; a glob that the file does not name keeps the label that it had.
pub proof fn risks_are_put_to_the_built_in_ones(
    rules: Seq<(Seq<char>, Seq<char>)>,
    more: Seq<(Seq<char>, Seq<char>)>,
    glob: Seq<char>,
    label: Seq<char>,
)
    requires
        ascending(globs_of(rules)),
    ensures
        !names(more, glob) ==> (gives(with_rules(rules, more), glob, label) <==> gives(
            rules,
            glob,
            label,
        )),
        names(more, glob) ==> (gives(with_rules(rules, more), glob, label) <==> exists|i: int|
            0 <= i < more.len() && (#[trigger] more[i]).0 == glob && more[i].1 == label && forall|
                j: int,
            |
                i < j < more.len() ==> (#[trigger] more[j]).0 != glob),
    decreases more.len(),
{
    if more.len() > 0 {
        let front = more.drop_last();
        let last = more.last();
        let end = more.len() - 1;
        assert(more[end] == last);
        risks_are_put_to_the_built_in_ones(rules, front, glob, label);
        risks_stay_ordered(rules, front);
        rules_are_put(with_rules(rules, front), last, glob, label);
        assert forall|i: int| 0 <= i < end implies #[trigger] more[i] == front[i] by {}
        if names(front, glob) {
            let i = choose|i: int| 0 <= i < front.len() && (#[trigger] front[i]).0 == glob;
            assert(more[i].0 == glob);
        }
        if glob != last.0 {
            if names(more, glob) {
                let i = choose|i: int| 0 <= i < more.len() && (#[trigger] more[i]).0 == glob;
                assert(front[i].0 == glob);
            }
            if exists|i: int|
                0 <= i < front.len() && (#[trigger] front[i]).0 == glob && front[i].1 == label
                    && forall|j: int| i < j < front.len() ==> (#[trigger] front[j]).0 != glob {
                let i = choose|i: int|
                    0 <= i < front.len() && (#[trigger] front[i]).0 == glob && front[i].1 == label
                        && forall|j: int| i < j < front.len() ==> (#[trigger] front[j]).0 != glob;
                assert(more[i] == front[i]);
                assert forall|j: int| i < j < more.len() implies (#[trigger] more[j]).0 != glob by {
                    if j < end {
                        assert(front[j] == more[j]);
                    }
                }
            }
            if exists|i: int|
                0 <= i < more.len() && (#[trigger] more[i]).0 == glob && more[i].1 == label
                    && forall|j: int| i < j < more.len() ==> (#[trigger] more[j]).0 != glob {
                let i = choose|i: int|
                    0 <= i < more.len() && (#[trigger] more[i]).0 == glob && more[i].1 == label
                        && forall|j: int| i < j < more.len() ==> (#[trigger] more[j]).0 != glob;
                assert(front[i] == more[i]);
                assert forall|j: int| i < j < front.len() implies (#[trigger] front[j]).0
                    != glob by {
                    assert(more[j] == front[j]);
                }
            }
        }
    }
}

/// A file that names risks leaves the built-in ones that it does not name as they are, and gives the
/// others the labels that it says.
pub proof fn files_add_risks(
    overlay: ConfigOverlay,
    rules: Vec<(String, String)>,
    glob: Seq<char>,
    label: Seq<char>,
)
    requires
        overlay.risk_paths == Some(rules),
    ensures
        ({
            let made = overlaid(overlay).risk_paths;
            let given = pairs(rules@);
            &&& !names(given, glob) ==> (gives(made, glob, label) <==> gives(
                built_in_risks(),
                glob,
                label,
            ))
            &&& names(given, glob) ==> (gives(made, glob, label) <==> exists|i: int|
                0 <= i < given.len() && (#[trigger] given[i]).0 == glob && given[i].1 == label
                    && forall|j: int| i < j < given.len() ==> (#[trigger] given[j]).0 != glob)
        }),
{
    built_in_risks_are_ordered();
    risks_are_put_to_the_built_in_ones(built_in_risks(), pairs(rules@), glob, label);
}

proof fn faults_are_faults(patterns: Seq<Seq<char>>)
    ensures
        first_fault(patterns) is None <==> forall|i: int|
            0 <= i < patterns.len() ==> pattern_fault(#[trigger] patterns[i]) is None,
    decreases patterns.len(),
{
    if patterns.len() > 0 {
        let front = patterns.drop_last();
        faults_are_faults(front);
        assert(patterns[patterns.len() - 1] == patterns.last());
        if first_fault(patterns) is None {
            assert forall|i: int| 0 <= i < patterns.len() implies pattern_fault(
                #[trigger] patterns[i],
            ) is None by {
                if i < front.len() {
                    assert(front[i] == patterns[i]);
                }
            }
        }
        if forall|i: int|
            0 <= i < patterns.len() ==> pattern_fault(#[trigger] patterns[i]) is None {
            assert forall|i: int| 0 <= i < front.len() implies pattern_fault(
                #[trigger] front[i],
            ) is None by {
                assert(front[i] == patterns[i]);
            }
        }
    }
}

/// Settings are accepted exactly where the remote is not blank, a configured base is not blank, a
/// configured place of worktrees is absolute, no risk has a blank glob or label or a glob that is
/// none, and what is run on events has an executable.
pub proof fn accepted_settings_are_usable(config: ConfigView)
    ensures
        config.problem() is None <==> {
            &&& !blank(config.base_remote)
            &&& config.default_base_ref matches Some(reference) ==> !blank(reference)
            &&& config.worktree_root matches Some(root) ==> absolute(root)
            &&& forall|i: int|
                0 <= i < config.risk_paths.len() ==> !blank((#[trigger] config.risk_paths[i]).0)
                    && !blank(config.risk_paths[i].1) && pattern_fault(config.risk_paths[i].0)
                    is None
            &&& config.on_run_event matches Some(words) ==> words.len() > 0 && !blank(words[0])
        },
{
    let globs = globs_of(config.risk_paths);
    faults_are_faults(globs);
    assert forall|i: int| 0 <= i < globs.len() implies #[trigger] globs[i]
        == config.risk_paths[i].0 by {}
    if forall|i: int|
        0 <= i < config.risk_paths.len() ==> !blank((#[trigger] config.risk_paths[i]).0) && !blank(
            config.risk_paths[i].1,
        ) && pattern_fault(config.risk_paths[i].0) is None {
        assert forall|i: int| 0 <= i < globs.len() implies pattern_fault(
            #[trigger] globs[i],
        ) is None by {
            assert(pattern_fault(config.risk_paths[i].0) is None);
        }
    }
    if config.problem() is None {
        assert forall|i: int| 0 <= i < config.risk_paths.len() implies !blank(
            (#[trigger] config.risk_paths[i]).0,
        ) && !blank(config.risk_paths[i].1) && pattern_fault(config.risk_paths[i].0) is None by {
            assert(pattern_fault(globs[i]) is None);
        }
    }
}

} // verus!
