use token_analyzer::config::{
    path_join, resolve_archive_dir, resolve_db_path, resolve_projects_dir, ConfigError, PathEnv,
};

/// The per-user directory name used throughout these checks.
const USER_DIR: &str = ".cfg";

fn env(vars: &[(&str, &str)]) -> PathEnv {
    let get = |k: &str| vars.iter().find(|(n, _)| *n == k).map(|(_, v)| v.to_string());
    PathEnv {
        cta_db_path: get("CTA_DB_PATH"),
        cta_projects_dir: get("CTA_PROJECTS_DIR"),
        cta_archive_dir: get("CTA_ARCHIVE_DIR"),
        claude_plugin_root: get("CLAUDE_PLUGIN_ROOT"),
        claude_config_dir: get("CLAUDE_CONFIG_DIR"),
        home: get("HOME"),
        user_dir_name: USER_DIR.to_string(),
    }
}

#[test]
fn test_resolve_db_path_from_env() {
    let path = resolve_db_path(&env(&[("CTA_DB_PATH", "/custom/db.sqlite")])).unwrap();
    assert_eq!(path, "/custom/db.sqlite");
}

#[test]
fn test_resolve_db_path_plugin_mode() {
    let path = resolve_db_path(&env(&[("CLAUDE_PLUGIN_ROOT", "/plugins/cta")])).unwrap();
    assert_eq!(path, "/plugins/cta/data/token-analyzer.db");
}

#[test]
fn test_resolve_db_path_standalone() {
    let path = resolve_db_path(&env(&[("HOME", "/home/testuser")])).unwrap();
    assert_eq!(path, "/home/testuser/.cfg/token-analyzer.db");
}

#[test]
fn test_resolve_projects_dir_from_env() {
    let path = resolve_projects_dir(&env(&[("CTA_PROJECTS_DIR", "/custom/projects")])).unwrap();
    assert_eq!(path, "/custom/projects");
}

#[test]
fn test_resolve_projects_dir_default() {
    let path = resolve_projects_dir(&env(&[("HOME", "/home/testuser")])).unwrap();
    assert_eq!(path, "/home/testuser/.cfg/projects");
}

#[test]
fn test_resolve_fails_without_home() {
    let result = resolve_db_path(&env(&[]));
    assert!(result.is_err());
    let err_msg = result.unwrap_err().message();
    assert!(err_msg.contains("HOME"), "Error should mention HOME: {}", err_msg);
}

#[test]
fn test_resolve_archive_dir_from_env() {
    let path = resolve_archive_dir(&env(&[("CTA_ARCHIVE_DIR", "/custom/archive")])).unwrap();
    assert_eq!(path, "/custom/archive");
}

#[test]
fn test_resolve_archive_dir_plugin_mode() {
    let path = resolve_archive_dir(&env(&[("CLAUDE_PLUGIN_ROOT", "/plugins/cta")])).unwrap();
    assert_eq!(path, "/plugins/cta/data/token-analyzer-archive");
}

#[test]
fn test_resolve_archive_dir_standalone() {
    let path = resolve_archive_dir(&env(&[("HOME", "/home/testuser")])).unwrap();
    assert_eq!(path, "/home/testuser/.cfg/token-analyzer-archive");
}

#[test]
fn test_plugin_root_takes_priority_over_config_dir_for_archive() {
    let path = resolve_archive_dir(&env(&[
        ("CLAUDE_PLUGIN_ROOT", "/plugins/cta"),
        ("CLAUDE_CONFIG_DIR", "/home/user/.config/client"),
        ("HOME", "/home/user"),
    ]))
    .unwrap();
    assert_eq!(
        path, "/plugins/cta/data/token-analyzer-archive",
        "CLAUDE_PLUGIN_ROOT should take priority over CLAUDE_CONFIG_DIR for archive dir"
    );
}

#[test]
fn test_coexistence_plugin_root_and_config_dir_split_behavior() {
    let e = env(&[
        ("CLAUDE_PLUGIN_ROOT", "/plugins/cta"),
        ("CLAUDE_CONFIG_DIR", "/home/user/.config/client"),
        ("HOME", "/home/user"),
    ]);
    assert_eq!(
        resolve_db_path(&e).unwrap(),
        "/plugins/cta/data/token-analyzer.db",
        "db should use PLUGIN_ROOT"
    );
    assert_eq!(
        resolve_archive_dir(&e).unwrap(),
        "/plugins/cta/data/token-analyzer-archive",
        "archive should use PLUGIN_ROOT"
    );
    assert_eq!(
        resolve_projects_dir(&e).unwrap(),
        "/home/user/.config/client/projects",
        "projects should use CLAUDE_CONFIG_DIR"
    );
}

// --- own checks ---

#[test]
fn explicit_overrides_win_over_everything() {
    let e = env(&[
        ("CTA_DB_PATH", "/db"),
        ("CTA_PROJECTS_DIR", "/p"),
        ("CTA_ARCHIVE_DIR", "/a"),
        ("CLAUDE_PLUGIN_ROOT", "/plugins/cta"),
        ("CLAUDE_CONFIG_DIR", "/cfg"),
        ("HOME", "/home/user"),
    ]);
    assert_eq!(resolve_db_path(&e).unwrap(), "/db");
    assert_eq!(resolve_projects_dir(&e).unwrap(), "/p");
    assert_eq!(resolve_archive_dir(&e).unwrap(), "/a");
}

#[test]
fn every_resolution_fails_without_home_and_overrides() {
    let e = env(&[("CLAUDE_CONFIG_DIR", "/cfg")]);
    assert_eq!(resolve_db_path(&e), Err(ConfigError::HomeNotSet));
    assert_eq!(resolve_archive_dir(&e), Err(ConfigError::HomeNotSet));
    assert_eq!(resolve_projects_dir(&e).unwrap(), "/cfg/projects");
    assert_eq!(
        resolve_projects_dir(&env(&[])),
        Err(ConfigError::HomeNotSet)
    );
}

#[test]
fn joining_follows_path_rules() {
    assert_eq!(path_join("/a", "b"), "/a/b");
    assert_eq!(path_join("/a/", "b"), "/a/b");
    assert_eq!(path_join("", "b"), "b");
    assert_eq!(path_join("/a", "/b"), "/b");
    assert_eq!(path_join("/a", ""), "/a/");
    for (base, part) in [("/a", "b"), ("/a/", "b"), ("", "b"), ("/a", "/b"), ("x", "y/z")] {
        let expected = std::path::Path::new(base).join(part);
        assert_eq!(path_join(base, part), expected.to_string_lossy());
    }
}
