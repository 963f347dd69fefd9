//! What the analysis of observed claims finds of their scope.
use vstd::prelude::*;

use crate::conflict::{
    analyzed, glob_hit, path_warnings, paths_warnings, pattern_hit, touched_paths,
    ScopeWarningReason, ScopeWarningView,
};
use crate::model::ScopeView;
use crate::observation::ObservationView;
use crate::text::ascending_texts_are_sorted;

verus! {

/// A path matches a pattern where it matches the glob; a leading `./` of the pattern is not looked
/// at.
pub proof fn patterns_start_at_the_root(pattern: Seq<char>, path: Seq<char>)
    ensures
        pattern_hit("./"@ + pattern, path) == glob_hit(pattern, path),
        (pattern.len() < 2 || pattern[0] != '.' || pattern[1] != '/') ==> pattern_hit(pattern, path)
            == glob_hit(pattern, path),
{
    reveal_strlit("./");
    let whole = "./"@ + pattern;
    assert(whole.take(2) =~= "./"@);
    assert(whole.skip(2) =~= pattern);
    assert(whole.subrange(0, 2) =~= "./"@);
    assert(whole.subrange(2, whole.len() as int) =~= pattern);
    if pattern.len() >= 2 {
        assert(pattern.take(2)[0] == pattern[0]);
        assert(pattern.take(2)[1] == pattern[1]);
        assert(pattern.subrange(0, 2)[0] == pattern[0]);
        assert(pattern.subrange(0, 2)[1] == pattern[1]);
    }
}

proof fn warnings_of_paths(scope: ScopeView, paths: Seq<Seq<char>>, warning: ScopeWarningView)
    ensures
        paths_warnings(scope, paths).contains(warning) <==> paths.contains(warning.path)
            && path_warnings(scope, warning.path).contains(warning),
    decreases paths.len(),
{
    if paths.len() > 0 {
        let front = paths.drop_last();
        let early = paths_warnings(scope, front);
        let late = path_warnings(scope, paths.last());
        let all = paths_warnings(scope, paths);
        warnings_of_paths(scope, front, warning);
        assert(all =~= early + late);
        assert(paths[paths.len() - 1] == paths.last());
        if early.contains(warning) {
            assert(all[early.index_of(warning)] == warning);
            let k = front.index_of(warning.path);
            assert(paths[k] == warning.path);
        }
        if late.contains(warning) {
            assert(all[early.len() + late.index_of(warning)] == warning);
            assert(warning.path == paths.last());
        }
        if all.contains(warning) {
            let k = all.index_of(warning);
            if k < early.len() {
                assert(early[k] == warning);
            } else {
                assert(late[k - early.len()] == warning);
            }
        }
        if paths.contains(warning.path) {
            let k = paths.index_of(warning.path);
            if k < front.len() {
                assert(front[k] == warning.path);
            }
        }
    }
}

/// After the analysis a claim has the warning that a path is outside of its allowed scope exactly
/// where it touches the path, its declared scope names an allowed pattern, and the path matches
/// none of them. It has the warning that a path is inside of its disallowed scope exactly where it
/// touches the path and the path matches a disallowed pattern. So a scope without allowed patterns
/// gives no warning of the first kind, and a claim without a scope, or without a readable diff,
/// none at all.
pub proof fn claims_are_warned_of_leaving_their_scope(
    observed: Seq<ObservationView>,
    rules: Seq<(Seq<char>, Seq<char>)>,
    i: int,
    path: Seq<char>,
)
    requires
        0 <= i < observed.len(),
    ensures
        ({
            let warnings = analyzed(observed, rules)[i].scope_warnings;
            let touched = observed[i].diff matches Some(diff) && (diff.changed_paths.contains(path)
                || diff.untracked_paths.contains(path));
            &&& warnings.contains(
                ScopeWarningView { path, reason: ScopeWarningReason::OutsideAllowedScope },
            ) <==> touched && (observed[i].claim.declared_scope matches Some(scope)
                && scope.allowed_paths.len() > 0 && forall|k: int|
                0 <= k < scope.allowed_paths.len() ==> !pattern_hit(
                    #[trigger] scope.allowed_paths[k],
                    path,
                ))
            &&& warnings.contains(
                ScopeWarningView { path, reason: ScopeWarningReason::InsideDisallowedScope },
            ) <==> touched && (observed[i].claim.declared_scope matches Some(scope) && exists|k: int|
                0 <= k < scope.disallowed_paths.len() && pattern_hit(
                    #[trigger] scope.disallowed_paths[k],
                    path,
                ))
        }),
{
    let outside = ScopeWarningView { path, reason: ScopeWarningReason::OutsideAllowedScope };
    let inside = ScopeWarningView { path, reason: ScopeWarningReason::InsideDisallowedScope };
    if let Some(diff) = observed[i].diff {
        if let Some(scope) = observed[i].claim.declared_scope {
            let both = diff.changed_paths + diff.untracked_paths;
            let paths = touched_paths(diff);
            ascending_texts_are_sorted(both);
            assert(both.contains(path) <==> diff.changed_paths.contains(path)
                || diff.untracked_paths.contains(path)) by {
                if diff.changed_paths.contains(path) {
                    assert(both[diff.changed_paths.index_of(path)] == path);
                }
                if diff.untracked_paths.contains(path) {
                    let k = diff.untracked_paths.index_of(path);
                    assert(both[diff.changed_paths.len() + k] == path);
                }
                if both.contains(path) {
                    let k = both.index_of(path);
                    if k < diff.changed_paths.len() {
                        assert(diff.changed_paths[k] == path);
                    } else {
                        assert(diff.untracked_paths[k - diff.changed_paths.len()] == path);
                    }
                }
            }
            warnings_of_paths(scope, paths, outside);
            warnings_of_paths(scope, paths, inside);
            let own = path_warnings(scope, path);
            let free = scope.allowed_paths.len() > 0 && forall|k: int|
                0 <= k < scope.allowed_paths.len() ==> !pattern_hit(
                    #[trigger] scope.allowed_paths[k],
                    path,
                );
            let caught = exists|k: int|
                0 <= k < scope.disallowed_paths.len() && pattern_hit(
                    #[trigger] scope.disallowed_paths[k],
                    path,
                );
            if free {
                assert(own[0] == outside);
            }
            if caught {
                assert(own[own.len() - 1] == inside);
            }
            assert(own.contains(outside) <==> free);
            assert(own.contains(inside) <==> caught);
            if scope.allowed_paths.len() == 0 && scope.disallowed_paths.len() == 0 {
                assert(!free && !caught);
            }
        }
    }
}

} // verus!
