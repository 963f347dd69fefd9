use gh_envoy::config::{config_path, Config, ConfigError, ConfigOverlay};

fn empty() -> ConfigOverlay {
    ConfigOverlay {
        base_remote: None,
        default_base_ref: None,
        worktree_root: None,
        redact_paths_in_json: None,
        on_run_event: None,
        risk_paths: None,
    }
}

fn risk<'a>(config: &'a Config, glob: &str) -> Option<&'a str> {
    config
        .risk_paths
        .iter()
        .find(|(known, _)| known == glob)
        .map(|(_, label)| label.as_str())
}

#[test]
fn built_in_defaults_stand_where_nothing_is_configured() {
    let path = config_path("/common");
    assert_eq!(path, "/common/envoy/config.yml");
    let config = Config::resolve(&path, None).expect("load defaults");
    assert_eq!(config.base_remote, "origin");
    assert_eq!(config.default_base_ref, None);
    assert_eq!(config.worktree_root, None);
    assert!(config.redact_paths_in_json);
    assert_eq!(config.on_run_event, None);
    assert_eq!(risk(&config, ".github/workflows/**"), Some("workflow"));
    let globs: Vec<&String> = config.risk_paths.iter().map(|(glob, _)| glob).collect();
    let mut sorted = globs.clone();
    sorted.sort();
    assert_eq!(globs, sorted);
}

#[test]
fn common_directory_config_overlays_individual_defaults() {
    let mut overlay = empty();
    overlay.default_base_ref = Some(Some("trunk".to_owned()));
    overlay.worktree_root = Some(Some("/common/worktrees".to_owned()));
    overlay.risk_paths = Some(vec![("Cargo.lock".to_owned(), "lockfile".to_owned())]);

    let config = Config::resolve(&config_path("/common"), Some(overlay)).expect("load overlay");

    assert_eq!(config.base_remote, "origin");
    assert_eq!(config.default_base_ref.as_deref(), Some("trunk"));
    assert_eq!(config.worktree_root.as_deref(), Some("/common/worktrees"));
    assert_eq!(risk(&config, "Cargo.lock"), Some("lockfile"));
    assert_eq!(risk(&config, ".github/workflows/**"), Some("workflow"));
}

#[test]
fn custom_risks_take_the_place_of_built_in_ones() {
    let mut overlay = empty();
    overlay.risk_paths = Some(vec![(".github/workflows/**".to_owned(), "ci".to_owned())]);
    let config = Config::resolve("/c", Some(overlay)).expect("overlay");
    assert_eq!(risk(&config, ".github/workflows/**"), Some("ci"));
    assert_eq!(config.risk_paths.len(), Config::default().risk_paths.len());
}

#[test]
fn settings_that_make_no_sense_are_refused() {
    let mut cases: Vec<(ConfigOverlay, &str)> = Vec::new();
    let mut overlay = empty();
    overlay.base_remote = Some("  ".to_owned());
    cases.push((overlay, "base_remote must not be empty"));
    let mut overlay = empty();
    overlay.default_base_ref = Some(Some("".to_owned()));
    cases.push((overlay, "default_base_ref must not be empty when set"));
    let mut overlay = empty();
    overlay.worktree_root = Some(Some("relative/path".to_owned()));
    cases.push((overlay, "worktree_root"));
    let mut overlay = empty();
    overlay.on_run_event = Some(Some(vec![]));
    cases.push((overlay, "on_run_event"));
    let mut overlay = empty();
    overlay.risk_paths = Some(vec![("".to_owned(), "label".to_owned())]);
    cases.push((overlay, "risk path globs and labels must not be empty"));
    let mut overlay = empty();
    overlay.risk_paths = Some(vec![("[".to_owned(), "label".to_owned())]);
    cases.push((overlay, "["));
    for (overlay, reason) in cases {
        let error = Config::resolve("/common/envoy/config.yml", Some(overlay))
            .expect_err("config must fail");
        assert!(matches!(error, ConfigError::Invalid { .. }));
        let message = error.message();
        assert!(message.contains("config.yml"), "{message}");
        assert!(message.contains(reason), "{message}");
    }
}

#[test]
fn what_cannot_be_read_or_parsed_says_so() {
    let path = "/common/envoy/config.yml".to_owned();
    let read = ConfigError::Read { path: path.clone(), message: "denied".to_owned() };
    assert_eq!(read.message(), "failed to read /common/envoy/config.yml: denied");
    let parse = ConfigError::Parse { path, message: "unknown field".to_owned() };
    assert_eq!(
        parse.message(),
        "failed to parse /common/envoy/config.yml: unknown field"
    );
}
