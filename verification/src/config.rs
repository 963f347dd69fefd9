//! Configuration: what a repository may choose, and what holds where it does not.
use vstd::prelude::*;
use vstd::string::*;

use crate::conflict::{first_fault, globs_of, ConflictError};
use crate::path::{absolute, is_absolute};
use crate::text::{
    ascending, ascending_by_neighbours, before, before_by_difference, blank, is_before, is_blank,
    optional, pairs, quote, quoted, same, views, with_text, with_text_is_sorted,
};

verus! {

/// The choices that hold in a repository. The globs of `risk_paths` stand in ascending order, each
/// with the label of the risk that it stands for.
#[derive(Debug)]
pub struct Config {
    pub base_remote: String,
    pub default_base_ref: Option<String>,
    pub worktree_root: Option<String>,
    pub redact_paths_in_json: bool,
    pub on_run_event: Option<Vec<String>>,
    pub risk_paths: Vec<(String, String)>,
}

pub struct ConfigView {
    pub base_remote: Seq<char>,
    pub default_base_ref: Option<Seq<char>>,
    pub worktree_root: Option<Seq<char>>,
    pub redact_paths_in_json: bool,
    pub on_run_event: Option<Seq<Seq<char>>>,
    pub risk_paths: Seq<(Seq<char>, Seq<char>)>,
}

pub open spec fn optional_texts(texts: Option<Vec<String>>) -> Option<Seq<Seq<char>>> {
    match texts {
        Some(texts) => Some(views(texts@)),
        None => None,
    }
}

impl View for Config {
    type V = ConfigView;

    open spec fn view(&self) -> ConfigView {
        ConfigView {
            base_remote: self.base_remote@,
            default_base_ref: optional(self.default_base_ref),
            worktree_root: optional(self.worktree_root),
            redact_paths_in_json: self.redact_paths_in_json,
            on_run_event: optional_texts(self.on_run_event),
            risk_paths: pairs(self.risk_paths@),
        }
    }
}

/// The risks that every repository knows.
pub open spec fn built_in_risks() -> Seq<(Seq<char>, Seq<char>)> {
    seq![
        ("**/*.{test,spec}.*"@, "test"@),
        ("**/*_{test,spec}.*"@, "test"@),
        (
            "**/{Cargo.lock,package-lock.json,pnpm-lock.yaml,yarn.lock,uv.lock,poetry.lock,Pipfile.lock}"@,
            "lockfile"@,
        ),
        (
            "**/{Cargo.toml,pyproject.toml,package.json,go.mod,pom.xml,build.gradle,build.gradle.kts,*.csproj}"@,
            "project_config"@,
        ),
        ("**/{migration,migrations}/**"@, "migration"@),
        ("**/{test,tests}/**"@, "test"@),
        (".github/workflows/**"@, "workflow"@),
    ]
}

/// What holds where nothing is chosen.
pub open spec fn defaults() -> ConfigView {
    ConfigView {
        base_remote: "origin"@,
        default_base_ref: None,
        worktree_root: None,
        redact_paths_in_json: true,
        on_run_event: None,
        risk_paths: built_in_risks(),
    }
}

fn rule(glob: &str, label: &str) -> (rule: (String, String))
    ensures
        rule.0@ == glob@,
        rule.1@ == label@,
{
    (glob.to_owned(), label.to_owned())
}

impl Default for Config {
    fn default() -> (config: Self)
        ensures
            config@ == defaults(),
    {
        let risk_paths: Vec<(String, String)> = vec![
            rule("**/*.{test,spec}.*", "test"),
            rule("**/*_{test,spec}.*", "test"),
            rule(
                "**/{Cargo.lock,package-lock.json,pnpm-lock.yaml,yarn.lock,uv.lock,poetry.lock,Pipfile.lock}",
                "lockfile",
            ),
            rule(
                "**/{Cargo.toml,pyproject.toml,package.json,go.mod,pom.xml,build.gradle,build.gradle.kts,*.csproj}",
                "project_config",
            ),
            rule("**/{migration,migrations}/**", "migration"),
            rule("**/{test,tests}/**", "test"),
            rule(".github/workflows/**", "workflow"),
        ];
        assert(pairs(risk_paths@) =~= built_in_risks());
        Config {
            base_remote: "origin".to_owned(),
            default_base_ref: None,
            worktree_root: None,
            redact_paths_in_json: true,
            on_run_event: None,
            risk_paths,
        }
    }
}

/// What a configuration file chooses. A choice that can also be to have nothing is itself
/// optional within.
#[derive(Debug)]
pub struct ConfigOverlay {
    pub base_remote: Option<String>,
    pub default_base_ref: Option<Option<String>>,
    pub worktree_root: Option<Option<String>>,
    pub redact_paths_in_json: Option<bool>,
    pub on_run_event: Option<Option<Vec<String>>>,
    pub risk_paths: Option<Vec<(String, String)>>,
}

/// The rules with one more at its place; a rule of the same glob gives way.
pub open spec fn with_rule(
    rules: Seq<(Seq<char>, Seq<char>)>,
    rule: (Seq<char>, Seq<char>),
) -> Seq<(Seq<char>, Seq<char>)>
    decreases rules.len(),
{
    if rules.len() == 0 {
        seq![rule]
    } else if rules.last().0 == rule.0 {
        rules.drop_last().push(rule)
    } else if before(rules.last().0, rule.0) {
        rules.push(rule)
    } else {
        with_rule(rules.drop_last(), rule).push(rules.last())
    }
}

/// The rules with further ones, one after the other.
pub open spec fn with_rules(
    rules: Seq<(Seq<char>, Seq<char>)>,
    more: Seq<(Seq<char>, Seq<char>)>,
) -> Seq<(Seq<char>, Seq<char>)>
    decreases more.len(),
{
    if more.len() == 0 {
        rules
    } else {
        with_rule(with_rules(rules, more.drop_last()), more.last())
    }
}

proof fn with_rule_keeps_order(
    rules: Seq<(Seq<char>, Seq<char>)>,
    rule: (Seq<char>, Seq<char>),
)
    ensures
        globs_of(with_rule(rules, rule)) == with_text(globs_of(rules), rule.0),
    decreases rules.len(),
{
    let globs = globs_of(rules);
    if rules.len() == 0 {
        assert(globs_of(with_rule(rules, rule)) =~= with_text(globs, rule.0));
    } else {
        let front = rules.drop_last();
        assert(globs_of(front) =~= globs.drop_last());
        assert(globs.last() == rules.last().0);
        with_rule_keeps_order(front, rule);
        assert(globs_of(with_rule(rules, rule)) =~= with_text(globs, rule.0));
    }
}

/// The globs of the built-in risks stand in ascending order.
pub proof fn built_in_risks_are_ordered()
    ensures
        ascending(globs_of(built_in_risks())),
{
    reveal_strlit("**/*.{test,spec}.*");
    reveal_strlit("**/*_{test,spec}.*");
    reveal_strlit(
        "**/{Cargo.lock,package-lock.json,pnpm-lock.yaml,yarn.lock,uv.lock,poetry.lock,Pipfile.lock}",
    );
    reveal_strlit(
        "**/{Cargo.toml,pyproject.toml,package.json,go.mod,pom.xml,build.gradle,build.gradle.kts,*.csproj}",
    );
    reveal_strlit("**/{migration,migrations}/**");
    reveal_strlit("**/{test,tests}/**");
    reveal_strlit(".github/workflows/**");
    let globs = globs_of(built_in_risks());
    before_by_difference(globs[0], globs[1], 4);
    before_by_difference(globs[1], globs[2], 3);
    before_by_difference(globs[2], globs[3], 10);
    before_by_difference(globs[3], globs[4], 4);
    before_by_difference(globs[4], globs[5], 4);
    before_by_difference(globs[5], globs[6], 0);
    assert forall|i: int| 0 <= i < globs.len() - 1 implies before(
        #[trigger] globs[i],
        globs[i + 1],
    ) by {
        assert(i == 0 || i == 1 || i == 2 || i == 3 || i == 4 || i == 5);
    }
    ascending_by_neighbours(globs);
}

/// Further rules leave the globs in ascending order, each once: a custom risk adds to the ones that
/// are there, or takes the place of the one with its glob.
pub proof fn risks_stay_ordered(
    rules: Seq<(Seq<char>, Seq<char>)>,
    more: Seq<(Seq<char>, Seq<char>)>,
)
    requires
        ascending(globs_of(rules)),
    ensures
        ascending(globs_of(with_rules(rules, more))),
    decreases more.len(),
{
    if more.len() > 0 {
        let half = with_rules(rules, more.drop_last());
        risks_stay_ordered(rules, more.drop_last());
        with_rule_keeps_order(half, more.last());
        with_text_is_sorted(globs_of(half), more.last().0);
    }
}

fn put_rule(rules: &mut Vec<(String, String)>, rule: (String, String))
    ensures
        pairs(final(rules)@) == with_rule(pairs(old(rules)@), (rule.0@, rule.1@)),
{
    let ghost all = pairs(rules@);
    let ghost wanted = (rule.0@, rule.1@);
    let mut at: usize = rules.len();
    assert(all.take(at as int) =~= all);
    assert(all.skip(at as int) =~= Seq::empty());
    assert(with_rule(all.take(at as int), wanted) + all.skip(at as int) =~= with_rule(all, wanted));
    while at > 0 && !same(rules[at - 1].0.as_str(), rule.0.as_str()) && !is_before(
        rules[at - 1].0.as_str(),
        rule.0.as_str(),
    )
        invariant
            at <= rules.len(),
            pairs(rules@) == all,
            wanted == (rule.0@, rule.1@),
            with_rule(all.take(at as int), wanted) + all.skip(at as int) == with_rule(all, wanted),
        decreases at,
    {
        let ghost front = all.take(at as int);
        assert(front.drop_last() =~= all.take(at - 1));
        assert(front.last() == (rules@[at - 1].0@, rules@[at - 1].1@));
        assert(with_rule(all.take(at - 1), wanted).push(all[at - 1]) + all.skip(at as int)
            =~= with_rule(all.take(at - 1), wanted) + all.skip(at - 1));
        at = at - 1;
    }
    let ghost front = all.take(at as int);
    if at > 0 {
        assert(front.last() == (rules@[at - 1].0@, rules@[at - 1].1@));
    }
    if at > 0 && same(rules[at - 1].0.as_str(), rule.0.as_str()) {
        rules.remove(at - 1);
        rules.insert(at - 1, rule);
        assert(pairs(rules@) =~= front.drop_last().push(wanted) + all.skip(at as int));
    } else {
        rules.insert(at, rule);
        assert(with_rule(front, wanted) =~= front.push(wanted));
        assert(pairs(rules@) =~= front.push(wanted) + all.skip(at as int));
    }
}

/// The configuration that an overlay makes of the defaults.
pub open spec fn overlaid(overlay: ConfigOverlay) -> ConfigView {
    ConfigView {
        base_remote: match overlay.base_remote {
            Some(value) => value@,
            None => defaults().base_remote,
        },
        default_base_ref: match overlay.default_base_ref {
            Some(value) => optional(value),
            None => None,
        },
        worktree_root: match overlay.worktree_root {
            Some(value) => optional(value),
            None => None,
        },
        redact_paths_in_json: match overlay.redact_paths_in_json {
            Some(value) => value,
            None => true,
        },
        on_run_event: match overlay.on_run_event {
            Some(value) => optional_texts(value),
            None => None,
        },
        risk_paths: match overlay.risk_paths {
            Some(rules) => with_rules(built_in_risks(), pairs(rules@)),
            None => built_in_risks(),
        },
    }
}

fn apply_overlay(overlay: ConfigOverlay) -> (config: Config)
    ensures
        config@ == overlaid(overlay),
{
    let mut config = Config::default();
    if let Some(value) = overlay.base_remote {
        config.base_remote = value;
    }
    if let Some(value) = overlay.default_base_ref {
        config.default_base_ref = value;
    }
    if let Some(value) = overlay.worktree_root {
        config.worktree_root = value;
    }
    if let Some(value) = overlay.redact_paths_in_json {
        config.redact_paths_in_json = value;
    }
    if let Some(value) = overlay.on_run_event {
        config.on_run_event = value;
    }
    if let Some(rules) = overlay.risk_paths {
        let ghost more = pairs(rules@);
        let mut risk_paths = config.risk_paths;
        let mut i: usize = 0;
        while i < rules.len()
            invariant
                i <= rules.len(),
                more == pairs(rules@),
                pairs(risk_paths@) == with_rules(built_in_risks(), more.take(i as int)),
            decreases rules.len() - i,
        {
            assert(more.take(i + 1).drop_last() =~= more.take(i as int));
            assert(more.take(i + 1).last() == (rules@[i as int].0@, rules@[i as int].1@));
            put_rule(&mut risk_paths, rule(rules[i].0.as_str(), rules[i].1.as_str()));
            i = i + 1;
        }
        assert(more.take(i as int) =~= more);
        config.risk_paths = risk_paths;
    }
    config
}

/// Why a configuration cannot be used.
#[derive(Debug)]
pub enum ConfigError {
    Read { path: String, message: String },
    Parse { path: String, message: String },
    Invalid { path: String, message: String },
}

impl ConfigError {
    pub open spec fn text(self) -> Seq<char> {
        match self {
            ConfigError::Read { path, message } => "failed to read "@ + path@ + ": "@ + message@,
            ConfigError::Parse { path, message } => "failed to parse "@ + path@ + ": "@ + message@,
            ConfigError::Invalid { path, message } => "invalid "@ + path@ + ": "@ + message@,
        }
    }

    pub fn message(&self) -> (text: String)
        ensures
            text@ == self.text(),
    {
        let (start, path, message) = match self {
            ConfigError::Read { path, message } => ("failed to read ", path, message),
            ConfigError::Parse { path, message } => ("failed to parse ", path, message),
            ConfigError::Invalid { path, message } => ("invalid ", path, message),
        };
        let mut text = start.to_owned();
        text.append(path.as_str());
        text.append(": ");
        text.append(message.as_str());
        text
    }
}

/// Whether a rule lacks a glob or a label.
pub open spec fn blank_rule(rules: Seq<(Seq<char>, Seq<char>)>) -> bool {
    exists|i: int|
        0 <= i < rules.len() && (blank((#[trigger] rules[i]).0) || blank(rules[i].1))
}

/// The complaint about a glob.
pub open spec fn glob_complaint(fault: (Seq<char>, Seq<char>)) -> Seq<char> {
    "invalid risk path glob "@ + quoted(fault.0) + ": "@ + ("invalid path glob "@ + quoted(fault.0)
        + ": "@ + fault.1)
}

impl ConfigView {
    /// The first thing that is wrong with the configuration.
    pub open spec fn problem(self) -> Option<Seq<char>> {
        if blank(self.base_remote) {
            Some("base_remote must not be empty"@)
        } else if self.default_base_ref matches Some(reference) && blank(reference) {
            Some("default_base_ref must not be empty when set"@)
        } else if self.worktree_root matches Some(root) && !absolute(root) {
            Some("worktree_root must be an absolute path"@)
        } else if blank_rule(self.risk_paths) {
            Some("risk path globs and labels must not be empty"@)
        } else if self.on_run_event matches Some(words) && (words.len() == 0 || blank(words[0])) {
            Some("on_run_event must contain a non-empty executable"@)
        } else {
            match first_fault(globs_of(self.risk_paths)) {
                Some(fault) => Some(glob_complaint(fault)),
                None => None,
            }
        }
    }
}

fn has_blank_rule(rules: &Vec<(String, String)>) -> (result: bool)
    ensures
        result == blank_rule(pairs(rules@)),
{
    let ghost all = pairs(rules@);
    let mut i: usize = 0;
    while i < rules.len()
        invariant
            i <= rules.len(),
            all == pairs(rules@),
            forall|j: int| 0 <= j < i ==> !blank((#[trigger] all[j]).0) && !blank(all[j].1),
        decreases rules.len() - i,
    {
        assert(all[i as int] == (rules@[i as int].0@, rules@[i as int].1@));
        if is_blank(rules[i].0.as_str()) || is_blank(rules[i].1.as_str()) {
            return true;
        }
        i = i + 1;
    }
    false
}

fn glob_problem(rules: &Vec<(String, String)>) -> (problem: Option<String>)
    ensures
        optional(problem) == (match first_fault(globs_of(pairs(rules@))) {
            Some(fault) => Some(glob_complaint(fault)),
            None => None,
        }),
{
    match crate::conflict::validate_risk_globs(rules) {
        Ok(()) => None,
        Err(error) => {
            let inner = error.message();
            match error {
                ConflictError::InvalidGlob { pattern, message } => {
                    let mut text = "invalid risk path glob ".to_owned();
                    text.append(quote(pattern.as_str()).as_str());
                    text.append(": ");
                    text.append(inner.as_str());
                    Some(text)
                },
            }
        },
    }
}

impl Config {
    /// The first thing that is wrong with the configuration.
    fn find_problem(&self) -> (problem: Option<String>)
        ensures
            optional(problem) == self@.problem(),
    {
        if is_blank(self.base_remote.as_str()) {
            return Some("base_remote must not be empty".to_owned());
        }
        if let Some(reference) = &self.default_base_ref {
            if is_blank(reference.as_str()) {
                return Some("default_base_ref must not be empty when set".to_owned());
            }
        }
        if let Some(root) = &self.worktree_root {
            if !is_absolute(root.as_str()) {
                return Some("worktree_root must be an absolute path".to_owned());
            }
        }
        if has_blank_rule(&self.risk_paths) {
            return Some("risk path globs and labels must not be empty".to_owned());
        }
        if let Some(words) = &self.on_run_event {
            if words.len() == 0 || is_blank(words[0].as_str()) {
                return Some("on_run_event must contain a non-empty executable".to_owned());
            }
        }
        glob_problem(&self.risk_paths)
    }

    /// Holds the configuration that was read from a path to its rules.
    pub fn validate(&self, path: &str) -> (result: Result<(), ConfigError>)
        ensures
            match result {
                Ok(_) => self@.problem() is None,
                Err(ConfigError::Invalid { path: at, message }) => at@ == path@ && self@.problem()
                    == Some(message@),
                Err(_) => false,
            },
    {
        match self.find_problem() {
            None => Ok(()),
            Some(message) => Err(ConfigError::Invalid { path: path.to_owned(), message }),
        }
    }

    /// The configuration that the file at a path makes: the defaults where there is no file, and
    /// else what it chooses over them, where that obeys the rules.
    pub fn resolve(path: &str, overlay: Option<ConfigOverlay>) -> (result: Result<
        Config,
        ConfigError,
    >)
        ensures
            match overlay {
                None => result matches Ok(config) && config@ == defaults(),
                Some(overlay) => match result {
                    Ok(config) => config@ == overlaid(overlay) && config@.problem() is None,
                    Err(ConfigError::Invalid { path: at, message }) => at@ == path@ && overlaid(
                        overlay,
                    ).problem() == Some(message@),
                    Err(_) => false,
                },
            },
            result matches Ok(config) ==> ascending(globs_of(config@.risk_paths)),
    {
        proof {
            built_in_risks_are_ordered();
            if overlay is Some && overlay->0.risk_paths is Some {
                risks_stay_ordered(built_in_risks(), pairs(overlay->0.risk_paths->0@));
            }
        }
        match overlay {
            None => Ok(Config::default()),
            Some(overlay) => {
                let config = apply_overlay(overlay);
                match config.validate(path) {
                    Ok(()) => Ok(config),
                    Err(error) => Err(error),
                }
            },
        }
    }
}

/// Where the configuration of a repository is kept.
pub open spec fn config_path_of(common_dir: Seq<char>) -> Seq<char> {
    crate::path::joined_path(crate::path::joined_path(common_dir, "envoy"@), "config.yml"@)
}

pub fn config_path(common_dir: &str) -> (path: String)
    ensures
        path@ == config_path_of(common_dir@),
{
    let directory = crate::path::join_path(common_dir, "envoy");
    crate::path::join_path(directory.as_str(), "config.yml")
}

} // verus!
