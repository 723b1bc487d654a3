//! Where the database, the session logs and the archive live.
//!
//! Resolution priority:
//! 1. An explicit override (`CTA_DB_PATH`, `CTA_PROJECTS_DIR`, `CTA_ARCHIVE_DIR`)
//! 2. Plugin mode (`$CLAUDE_PLUGIN_ROOT/data/...`) for the database and the
//!    archive; the client's configuration root (`$CLAUDE_CONFIG_DIR/projects`)
//!    for the session logs
//! 3. Standalone mode: the client's per-user directory under `$HOME`
//!
//! The variables are read by the caller and handed over as a [`PathEnv`].
use vstd::prelude::*;

use crate::text::opt_view;
use vstd::string::StringExecFns;

verus! {

/// The environment variables that decide the paths; `None` where a
/// variable is unset (or not valid Unicode).
pub struct PathEnv {
    pub cta_db_path: Option<String>,
    pub cta_projects_dir: Option<String>,
    pub cta_archive_dir: Option<String>,
    pub claude_plugin_root: Option<String>,
    pub claude_config_dir: Option<String>,
    pub home: Option<String>,
    /// Name of the client's per-user directory under `$HOME`, which holds
    /// the session logs and, in standalone mode, the database and archive.
    pub user_dir_name: String,
}

/// A path could not be resolved.
#[derive(Debug, Clone, Copy, PartialEq, Eq, Structural)]
pub enum ConfigError {
    /// No override applies and `HOME` is unset.
    HomeNotSet,
}

impl ConfigError {
    /// The text that [`ConfigError::message`] returns.
    pub open spec fn spec_message(self) -> Seq<char> {
        "HOME environment variable not set (and no CTA_DB_PATH / CLAUDE_PLUGIN_ROOT override)"@
    }

    /// Human-readable description of the error.
    pub fn message(&self) -> (r: String)
        ensures
            r@ == self.spec_message(),
    {
        String::from_str(
            "HOME environment variable not set (and no CTA_DB_PATH / CLAUDE_PLUGIN_ROOT override)",
        )
    }
}

/// `base` joined with `part` as `PathBuf::push` does on Unix: an absolute
/// `part` replaces `base`; otherwise a `/` is put between them unless
/// `base` is empty or already ends with one.
pub open spec fn spec_join(base: Seq<char>, part: Seq<char>) -> Seq<char> {
    if part.len() > 0 && part[0] == '/' {
        part
    } else if base.len() == 0 || base.last() == '/' {
        base + part
    } else {
        base + "/"@ + part
    }
}

/// Join two path pieces with `/`, as `Path::join` does on Unix.
pub fn path_join(base: &str, part: &str) -> (r: String)
    ensures
        r@ == spec_join(base@, part@),
{
    let b = crate::text::chars_of(base);
    let p = crate::text::chars_of(part);
    if p.len() > 0 && p[0] == '/' {
        return String::from_str(part);
    }
    let mut r = String::from_str(base);
    if !(b.len() == 0 || b[b.len() - 1] == '/') {
        r.append("/");
    }
    r.append(part);
    proof {
        reveal_strlit("/");
    }
    r
}

/// `root/first/second`.
pub open spec fn join3(root: Seq<char>, first: Seq<char>, second: Seq<char>) -> Seq<char> {
    spec_join(spec_join(root, first), second)
}

fn join3_exec(root: &str, first: &str, second: &str) -> (r: String)
    ensures
        r@ == join3(root@, first@, second@),
{
    let a = path_join(root, first);
    path_join(a.as_str(), second)
}

/// The database path for `env`.
pub open spec fn spec_db_path(env: PathEnv) -> Option<Seq<char>> {
    match (opt_view(env.cta_db_path), opt_view(env.claude_plugin_root), opt_view(env.home)) {
        (Some(p), _, _) => Some(p),
        (None, Some(root), _) => Some(join3(root, "data"@, "token-analyzer.db"@)),
        (None, None, Some(home)) => Some(join3(home, env.user_dir_name@, "token-analyzer.db"@)),
        (None, None, None) => None,
    }
}

/// The session-log directory for `env`.
pub open spec fn spec_projects_dir(env: PathEnv) -> Option<Seq<char>> {
    match (opt_view(env.cta_projects_dir), opt_view(env.claude_config_dir), opt_view(env.home)) {
        (Some(p), _, _) => Some(p),
        (None, Some(config), _) => Some(spec_join(config, "projects"@)),
        (None, None, Some(home)) => Some(join3(home, env.user_dir_name@, "projects"@)),
        (None, None, None) => None,
    }
}

/// The archive directory for `env`.
pub open spec fn spec_archive_dir(env: PathEnv) -> Option<Seq<char>> {
    match (opt_view(env.cta_archive_dir), opt_view(env.claude_plugin_root), opt_view(env.home)) {
        (Some(p), _, _) => Some(p),
        (None, Some(root), _) => Some(join3(root, "data"@, "token-analyzer-archive"@)),
        (None, None, Some(home)) => Some(join3(home, env.user_dir_name@, "token-analyzer-archive"@)),
        (None, None, None) => None,
    }
}

/// The result of a resolution: the path, or `HomeNotSet` where none applies.
pub open spec fn resolved(r: Result<String, ConfigError>, expected: Option<Seq<char>>) -> bool {
    match expected {
        Some(p) => r matches Ok(s) && s@ == p,
        None => r == Err::<String, ConfigError>(ConfigError::HomeNotSet),
    }
}

/// Resolve the database file path.
///
/// Priority: `$CTA_DB_PATH` > `$CLAUDE_PLUGIN_ROOT/data/token-analyzer.db` >
/// `$HOME/<user dir>/token-analyzer.db`.
pub fn resolve_db_path(env: &PathEnv) -> (r: Result<String, ConfigError>)
    ensures
        resolved(r, spec_db_path(*env)),
{
    if let Some(p) = &env.cta_db_path {
        return Ok(p.clone());
    }
    if let Some(root) = &env.claude_plugin_root {
        return Ok(join3_exec(root.as_str(), "data", "token-analyzer.db"));
    }
    match &env.home {
        Some(home) => Ok(join3_exec(home.as_str(), env.user_dir_name.as_str(), "token-analyzer.db")),
        None => Err(ConfigError::HomeNotSet),
    }
}

/// Resolve the session-log directory.
///
/// Priority: `$CTA_PROJECTS_DIR` > `$CLAUDE_CONFIG_DIR/projects` >
/// `$HOME/<user dir>/projects`.  There is no plugin-mode override: the
/// client writes its logs there whatever plugin is installed.
pub fn resolve_projects_dir(env: &PathEnv) -> (r: Result<String, ConfigError>)
    ensures
        resolved(r, spec_projects_dir(*env)),
{
    if let Some(p) = &env.cta_projects_dir {
        return Ok(p.clone());
    }
    if let Some(config) = &env.claude_config_dir {
        return Ok(path_join(config.as_str(), "projects"));
    }
    match &env.home {
        Some(home) => Ok(join3_exec(home.as_str(), env.user_dir_name.as_str(), "projects")),
        None => Err(ConfigError::HomeNotSet),
    }
}

/// Resolve the archive directory.
///
/// Priority: `$CTA_ARCHIVE_DIR` >
/// `$CLAUDE_PLUGIN_ROOT/data/token-analyzer-archive` >
/// `$HOME/<user dir>/token-analyzer-archive`.
pub fn resolve_archive_dir(env: &PathEnv) -> (r: Result<String, ConfigError>)
    ensures
        resolved(r, spec_archive_dir(*env)),
{
    if let Some(p) = &env.cta_archive_dir {
        return Ok(p.clone());
    }
    if let Some(root) = &env.claude_plugin_root {
        return Ok(join3_exec(root.as_str(), "data", "token-analyzer-archive"));
    }
    match &env.home {
        Some(home) => Ok(join3_exec(home.as_str(), env.user_dir_name.as_str(), "token-analyzer-archive")),
        None => Err(ConfigError::HomeNotSet),
    }
}

} // verus!
