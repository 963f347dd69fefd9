//! Discovery: finds out about the repository that a directory belongs to.
//!
//! Git is asked for one path after the other. Where each of them leads to is found out by the
//! caller, who hands the place back.
use vstd::prelude::*;

use crate::command::{command, CommandRunner};
use crate::git::{
    branch_asked, common_dir_args, common_dir_asked, common_dir_path, current_branch,
    current_worktree_asked, current_worktree_path, head_branch_args, identity_asked,
    main_worktree_asked, main_worktree_path, remote_identity, remote_url_args, toplevel_args,
    worktree_list_args, RepositoryContext, RepositoryError,
};
use crate::path::joined_path;
use crate::text::optional;

verus! {

/// Which path is to be located, and where those before it lead to.
#[derive(Debug)]
pub enum Discovery {
    Current,
    Common { current: String },
    Main { current: String, common: String },
}

/// How a discovery goes on: a path is to be located, or the repository is known.
#[derive(Debug)]
pub enum DiscoveryStep {
    Locate { path: String, stage: Discovery },
    Found(RepositoryContext),
}

/// Whether a discovery may go on so once Git was asked for a path.
pub open spec fn locates(
    asked: Result<String, RepositoryError>,
    stage: Discovery,
    result: Result<DiscoveryStep, RepositoryError>,
) -> bool {
    match asked {
        Ok(path) => result == Ok::<_, RepositoryError>(DiscoveryStep::Locate { path, stage }),
        Err(error) => result == Err::<DiscoveryStep, _>(error),
    }
}

pub open spec fn asks_for_current<R: CommandRunner>(
    runner: &R,
    cwd: Seq<char>,
    result: Result<DiscoveryStep, RepositoryError>,
) -> bool {
    exists|asked: Result<String, RepositoryError>| #[trigger]
        current_worktree_asked(runner, cwd, asked) && locates(asked, Discovery::Current, result)
}

impl RepositoryContext {
    /// Starts the discovery of the repository that a directory belongs to, with its worktree.
    pub fn discover_with_runner<R: CommandRunner>(runner: &R, cwd: &str) -> (result: Result<
        DiscoveryStep,
        RepositoryError,
    >)
        requires
            runner.permits(command("git"@, toplevel_args(), cwd@)),
        ensures
            asks_for_current(runner, cwd@, result),
    {
        let asked = current_worktree_path(runner, cwd);
        assert(current_worktree_asked(runner, cwd@, asked));
        match asked {
            Ok(path) => Ok(DiscoveryStep::Locate { path, stage: Discovery::Current }),
            Err(error) => Err(error),
        }
    }
}

pub open spec fn asks_for_common<R: CommandRunner>(
    runner: &R,
    cwd: Seq<char>,
    current: String,
    result: Result<DiscoveryStep, RepositoryError>,
) -> bool {
    exists|asked: Result<String, RepositoryError>| #[trigger]
        common_dir_asked(runner, cwd, asked) && locates(
            asked,
            Discovery::Common { current },
            result,
        )
}

pub open spec fn asks_for_main<R: CommandRunner>(
    runner: &R,
    cwd: Seq<char>,
    current: String,
    common: String,
    result: Result<DiscoveryStep, RepositoryError>,
) -> bool {
    exists|asked: Result<String, RepositoryError>| #[trigger]
        main_worktree_asked(runner, cwd, asked) && locates(
            asked,
            Discovery::Main { current, common },
            result,
        )
}

/// Whether a discovery may end so once all paths are located: the repository is named by its
/// remote, and its worktree is on a branch or detached.
pub open spec fn asks_for_identity<R: CommandRunner>(
    runner: &R,
    cwd: Seq<char>,
    remote_name: Seq<char>,
    current: String,
    common: String,
    main: String,
    result: Result<DiscoveryStep, RepositoryError>,
) -> bool {
    exists|named: Result<(String, String), RepositoryError>| #[trigger]
        identity_asked(runner, cwd, remote_name, main@, named) && match named {
            Err(error) => result == Err::<DiscoveryStep, _>(error),
            Ok(identity) => asks_for_branch(
                runner,
                cwd,
                remote_name,
                current,
                common,
                main,
                identity,
                result,
            ),
        }
}

pub open spec fn asks_for_branch<R: CommandRunner>(
    runner: &R,
    cwd: Seq<char>,
    remote_name: Seq<char>,
    current: String,
    common: String,
    main: String,
    identity: (String, String),
    result: Result<DiscoveryStep, RepositoryError>,
) -> bool {
    exists|branch: Result<Option<String>, RepositoryError>| #[trigger]
        branch_asked(runner, cwd, branch) && match branch {
            Err(error) => result == Err::<DiscoveryStep, _>(error),
            Ok(branch) => {
                &&& result matches Ok(DiscoveryStep::Found(repository))
                &&& repository.repository@ == identity.1@
                &&& repository.remote_name@ == remote_name
                &&& repository.remote_url@ == identity.0@
                &&& repository.current_worktree@ == current@
                &&& optional(repository.current_branch) == optional(branch)
                &&& repository.main_worktree@ == main@
                &&& repository.common_dir@ == common@
            },
        }
}

/// Whether a discovery may go on so once the last path leads to that place, or nowhere.
pub open spec fn discovery_goes_on<R: CommandRunner>(
    runner: &R,
    cwd: Seq<char>,
    remote_name: Seq<char>,
    stage: Discovery,
    path: Seq<char>,
    place: Result<String, String>,
    result: Result<DiscoveryStep, RepositoryError>,
) -> bool {
    match place {
        Err(problem) => result matches Err(RepositoryError::Canonicalize { path: at, message })
            && at@ == path && message@ == problem@,
        Ok(place) => match stage {
            Discovery::Current => asks_for_common(runner, cwd, place, result),
            Discovery::Common { current } => asks_for_main(runner, cwd, current, place, result),
            Discovery::Main { current, common } => asks_for_identity(
                runner,
                cwd,
                remote_name,
                current,
                common,
                place,
                result,
            ),
        },
    }
}

/// Goes on with a discovery once it is known where a path leads to.
pub fn continue_discovery<R: CommandRunner>(
    runner: &R,
    cwd: &str,
    remote_name: &str,
    stage: Discovery,
    path: String,
    place: Result<String, String>,
) -> (result: Result<DiscoveryStep, RepositoryError>)
    requires
        match stage {
            Discovery::Current => runner.permits(command("git"@, common_dir_args(), cwd@)),
            Discovery::Common { .. } => runner.permits(
                command("git"@, worktree_list_args(), cwd@),
            ),
            Discovery::Main { .. } => runner.permits(
                command("git"@, remote_url_args(remote_name@), cwd@),
            ) && runner.permits(command("git"@, head_branch_args(), cwd@)),
        },
    ensures
        discovery_goes_on(runner, cwd@, remote_name@, stage, path@, place, result),
{
    let place = match place {
        Ok(place) => place,
        Err(message) => return Err(RepositoryError::Canonicalize { path, message }),
    };
    match stage {
        Discovery::Current => {
            let asked = common_dir_path(runner, cwd);
            assert(common_dir_asked(runner, cwd@, asked));
            match asked {
                Ok(path) => Ok(
                    DiscoveryStep::Locate { path, stage: Discovery::Common { current: place } },
                ),
                Err(error) => Err(error),
            }
        },
        Discovery::Common { current } => {
            let asked = main_worktree_path(runner, cwd);
            assert(main_worktree_asked(runner, cwd@, asked));
            match asked {
                Ok(path) => Ok(
                    DiscoveryStep::Locate {
                        path,
                        stage: Discovery::Main { current, common: place },
                    },
                ),
                Err(error) => Err(error),
            }
        },
        Discovery::Main { current, common } => {
            let named = remote_identity(runner, cwd, remote_name, place.as_str());
            assert(identity_asked(runner, cwd@, remote_name@, place@, named));
            let (remote_url, repository) = match named {
                Ok(identity) => identity,
                Err(error) => return Err(error),
            };
            let branch = current_branch(runner, cwd);
            assert(branch_asked(runner, cwd@, branch));
            match branch {
                Ok(branch) => Ok(
                    DiscoveryStep::Found(
                        RepositoryContext {
                            repository,
                            remote_name: remote_name.to_owned(),
                            remote_url,
                            current_worktree: current,
                            current_branch: branch,
                            main_worktree: place,
                            common_dir: common,
                        },
                    ),
                ),
                Err(error) => Err(error),
            }
        },
    }
}

/// Whether a discovery may have found that: Git named three paths, which lead to these places, and
/// then the remote and the branch.
pub open spec fn discovered<R: CommandRunner>(
    runner: &R,
    cwd: Seq<char>,
    remote_name: Seq<char>,
    places: (String, String, String),
    found: RepositoryContext,
) -> bool {
    let (current, common, main) = places;
    &&& exists|step: DiscoveryStep| #[trigger]
        asks_for_current(runner, cwd, Ok(step)) && step is Locate
    &&& exists|step: DiscoveryStep| #[trigger]
        asks_for_common(runner, cwd, current, Ok(step)) && step is Locate
    &&& exists|step: DiscoveryStep| #[trigger]
        asks_for_main(runner, cwd, current, common, Ok(step)) && step is Locate
    &&& asks_for_identity(
        runner,
        cwd,
        remote_name,
        current,
        common,
        main,
        Ok(DiscoveryStep::Found(found)),
    )
}

/// All worktrees of a repository share one store: where the paths that Git names in two worktrees
/// lead to the same common directory and the same main worktree, and Git has one answer for the
/// remote, the repository that is found in both is the same, with the same store; only the
/// worktrees differ.
pub proof fn worktrees_share_one_store<R: CommandRunner>(
    runner: &R,
    here: Seq<char>,
    there: Seq<char>,
    remote_name: Seq<char>,
    places_here: (String, String, String),
    places_there: (String, String, String),
    a: RepositoryContext,
    b: RepositoryContext,
)
    requires
        discovered(runner, here, remote_name, places_here, a),
        discovered(runner, there, remote_name, places_there, b),
        places_here.0@ != places_there.0@,
        places_here.1@ == places_there.1@,
        places_here.2@ == places_there.2@,
        forall|x: (String, String), y: (String, String)| #[trigger]
            identity_asked(runner, here, remote_name, places_here.2@, Ok(x)) && #[trigger]
            identity_asked(runner, there, remote_name, places_there.2@, Ok(y)) ==> x.0@ == y.0@
                && x.1@ == y.1@,
    ensures
        a.common_dir@ == b.common_dir@,
        a.main_worktree@ == b.main_worktree@,
        a.store_place() == b.store_place(),
        a.store_place() == joined_path(a.common_dir@, "envoy"@),
        a.repository@ == b.repository@,
        a.remote_url@ == b.remote_url@,
        a.remote_name@ == remote_name,
        b.remote_name@ == remote_name,
        a.current_worktree@ != b.current_worktree@,
{
}

} // verus!
