//! Where the agent keeps its configuration and logs.
//!
//! The environment is read by the caller and handed over as a `PathEnv`;
//! these functions decide which directories and files to use.

use vstd::prelude::*;

verus! {

pub const APP_NAME: &'static str = "efact-hardware-agent";

pub const LEGACY_APP_NAME: &'static str = "efact-printer-agent";

pub const APP_DISPLAY_NAME: &'static str = "eFact Hardware Agent";

/// The operating system family, which decides the directory layout.
#[derive(Debug, Clone, Copy, PartialEq, Eq, Structural)]
pub enum Platform {
    Windows,
    MacOs,
    Other,
}

/// What the path rules read from the process environment.
pub struct PathEnv {
    pub platform: Platform,
    /// `HOME`, if set.
    pub home: Option<String>,
    /// `APPDATA`, if set.
    pub app_data: Option<String>,
    /// `LOCALAPPDATA`, if set.
    pub local_app_data: Option<String>,
    /// The system's temporary directory.
    pub temp_dir: String,
    /// The directory holding the running executable, if known.
    pub exe_dir: Option<String>,
}

/// A single relative path component: not empty, no separator, no drive
/// colon, and neither `.` nor `..`.
pub open spec fn is_plain_component(part: Seq<char>) -> bool {
    &&& part.len() > 0
    &&& forall|i: int| 0 <= i < part.len() ==> #[trigger] part[i] != '/' && part[i] != '\\' && part[i] != ':'
    &&& part != seq!['.']
    &&& part != seq!['.', '.']
}

pub open spec fn is_separator(c: char) -> bool {
    c == '/' || c == '\\'
}

/// `s` starts like a Windows verbatim path (`\\?\`). Joining onto such a
/// path rebuilds it from its components.
pub open spec fn has_verbatim_prefix(s: Seq<char>) -> bool {
    s.len() >= 4 && is_separator(s[0]) && is_separator(s[1]) && s[2] == '?' && is_separator(s[3])
}

/// `s` is a bare Windows drive such as `C:`.
pub open spec fn is_bare_drive(s: Seq<char>) -> bool {
    s.len() == 2 && (('a' <= s[0] && s[0] <= 'z') || ('A' <= s[0] && s[0] <= 'Z')) && s[1] == ':'
}

/// `res` is `base` with the component `part` appended the way `Path::join`
/// does it:
/// - after an empty base or one ending in `/`, `part` follows directly;
/// - after a base ending in `\`, or a bare drive such as `C:`, directly
///   where that counts as a separator or drive (Windows) and after `/`
///   otherwise;
/// - after any other base, a separator (`/`, or `\` on Windows) comes
///   between the two.
///
/// Of a verbatim base nothing is said.
pub open spec fn path_joined(base: Seq<char>, part: Seq<char>, res: Seq<char>) -> bool {
    if has_verbatim_prefix(base) {
        true
    } else if base.len() == 0 || base.last() == '/' {
        res == base + part
    } else if base.last() == '\\' || is_bare_drive(base) {
        res == base + part || res == base + seq!['/'] + part
    } else {
        res == base + seq!['/'] + part || res == base + seq!['\\'] + part
    }
}

/// `res` is `base` with each of `parts` appended in turn.
pub open spec fn joined_path(base: Seq<char>, parts: Seq<Seq<char>>, res: Seq<char>) -> bool
    decreases parts.len(),
{
    if parts.len() == 0 {
        res == base
    } else {
        exists|mid: Seq<char>|
            joined_path(base, parts.drop_last(), mid) && #[trigger] path_joined(
                mid,
                parts.last(),
                res,
            )
    }
}

/// `Path::join` with a plain component, as text (see `path_joined`): a
/// separator is put in exactly where `base` does not already end in one;
/// which character it is (`/`, or `\` on Windows) depends on the platform.
/// A verbatim base (`\\?\...`) is rebuilt from its components on Windows;
/// the contract says nothing of the result then.
#[verifier::external_body]
fn join_path(base: &str, part: &str) -> (res: String)
    requires
        is_plain_component(part@),
    ensures
        path_joined(base@, part@, res@),
{
    std::path::Path::new(base).join(part).to_string_lossy().into_owned()
}

fn join_str(base: &String, part: &str) -> (res: String)
    requires
        is_plain_component(part@),
    ensures
        path_joined(base@, part@, res@),
{
    join_path(base.as_str(), part)
}

proof fn lemma_joined_one(base: Seq<char>, p: Seq<char>, res: Seq<char>)
    requires
        path_joined(base, p, res),
    ensures
        joined_path(base, seq![p], res),
{
    assert(seq![p].drop_last() =~= Seq::<Seq<char>>::empty());
    assert(joined_path(base, Seq::<Seq<char>>::empty(), base));
    assert(path_joined(base, seq![p].last(), res));
}

proof fn lemma_joined_two(base: Seq<char>, p: Seq<char>, q: Seq<char>, mid: Seq<char>, res: Seq<char>)
    requires
        path_joined(base, p, mid),
        path_joined(mid, q, res),
    ensures
        joined_path(base, seq![p, q], res),
{
    lemma_joined_one(base, p, mid);
    assert(seq![p, q].drop_last() =~= seq![p]);
    assert(path_joined(mid, seq![p, q].last(), res));
}

proof fn lemma_joined_three(
    base: Seq<char>,
    p: Seq<char>,
    q: Seq<char>,
    r: Seq<char>,
    m1: Seq<char>,
    m2: Seq<char>,
    res: Seq<char>,
)
    requires
        path_joined(base, p, m1),
        path_joined(m1, q, m2),
        path_joined(m2, r, res),
    ensures
        joined_path(base, seq![p, q, r], res),
{
    lemma_joined_two(base, p, q, m1, m2);
    assert(seq![p, q, r].drop_last() =~= seq![p, q]);
    assert(path_joined(m2, seq![p, q, r].last(), res));
}

proof fn lemma_names_plain()
    ensures
        is_plain_component(APP_NAME@),
        is_plain_component(LEGACY_APP_NAME@),
        is_plain_component("config.toml"@),
        is_plain_component(".config"@),
        is_plain_component("Library"@),
        is_plain_component("Logs"@),
        is_plain_component(".local"@),
        is_plain_component("share"@),
{
    reveal_strlit("efact-hardware-agent");
    reveal_strlit("efact-printer-agent");
    reveal_strlit("config.toml");
    reveal_strlit(".config");
    reveal_strlit("Library");
    reveal_strlit("Logs");
    reveal_strlit(".local");
    reveal_strlit("share");
    assert(seq!['.'].len() == 1 && seq!['.', '.'].len() == 2);
    assert(APP_NAME@.len() == 20);
    assert(LEGACY_APP_NAME@.len() == 19);
    assert("config.toml"@.len() == 11);
    assert(".config"@.len() == 7);
    assert("Library"@.len() == 7);
    assert("Logs"@.len() == 4);
    assert(".local"@.len() == 6);
    assert("share"@.len() == 5);
}

/// The base directory and the components under it where `app_name` keeps
/// its configuration: `%APPDATA%\<app>` on Windows, `$HOME/.config/<app>`
/// elsewhere; `None` when that variable is unset.
pub open spec fn config_root(env: PathEnv, app_name: Seq<char>) -> Option<(Seq<char>, Seq<Seq<char>>)> {
    if env.platform == Platform::Windows {
        match env.app_data {
            Some(d) => Some((d@, seq![app_name])),
            None => None,
        }
    } else {
        match env.home {
            Some(h) => Some((h@, seq![".config"@, app_name])),
            None => None,
        }
    }
}

/// `res` is the configuration directory that `root` designates.
pub open spec fn at_root(root: Option<(Seq<char>, Seq<Seq<char>>)>, res: Seq<char>) -> bool {
    match root {
        Some((b, ps)) => joined_path(b, ps, res),
        None => false,
    }
}

/// `res` is the configuration file that `root` designates.
pub open spec fn file_at_root(root: Option<(Seq<char>, Seq<Seq<char>>)>, res: Seq<char>) -> bool {
    match root {
        Some((b, ps)) => joined_path(b, ps.push("config.toml"@), res),
        None => false,
    }
}

fn resolve_config_dir(env: &PathEnv, app_name: &str) -> (res: Option<String>)
    requires
        is_plain_component(app_name@),
    ensures
        res is Some <==> config_root(*env, app_name@) is Some,
        res matches Some(d) ==> at_root(config_root(*env, app_name@), d@),
{
    proof {
        lemma_names_plain();
    }
    match env.platform {
        Platform::Windows => match &env.app_data {
            Some(d) => {
                let r = join_str(d, app_name);
                proof {
                    lemma_joined_one(d@, app_name@, r@);
                }
                Some(r)
            },
            None => None,
        },
        _ => match &env.home {
            Some(h) => {
                let mid = join_str(h, ".config");
                let r = join_str(&mid, app_name);
                proof {
                    lemma_joined_two(h@, ".config"@, app_name@, mid@, r@);
                }
                Some(r)
            },
            None => None,
        },
    }
}

fn resolve_config_file(env: &PathEnv, app_name: &str) -> (res: Option<String>)
    requires
        is_plain_component(app_name@),
    ensures
        res is Some <==> config_root(*env, app_name@) is Some,
        res matches Some(f) ==> file_at_root(config_root(*env, app_name@), f@),
{
    proof {
        lemma_names_plain();
    }
    match resolve_config_dir(env, app_name) {
        Some(dir) => {
            let f = join_str(&dir, "config.toml");
            proof {
                lemma_join_under_root(config_root(*env, app_name@), dir@, "config.toml"@, f@);
            }
            Some(f)
        },
        None => None,
    }
}

proof fn lemma_join_under_root(
    root: Option<(Seq<char>, Seq<Seq<char>>)>,
    dir: Seq<char>,
    p: Seq<char>,
    res: Seq<char>,
)
    requires
        at_root(root, dir),
        path_joined(dir, p, res),
    ensures
        match root {
            Some((b, ps)) => joined_path(b, ps.push(p), res),
            None => false,
        },
{
    let (b, ps) = root->0;
    assert(ps.push(p).drop_last() =~= ps);
    assert(path_joined(dir, ps.push(p).last(), res));
}

fn fallback_config_dir(env: &PathEnv) -> (res: String)
    ensures
        joined_path(env.temp_dir@, seq![APP_NAME@], res@),
{
    proof {
        lemma_names_plain();
    }
    let r = join_str(&env.temp_dir, APP_NAME);
    proof {
        lemma_joined_one(env.temp_dir@, APP_NAME@, r@);
    }
    r
}

/// `d` is the configuration directory for `env`: the agent's own, then the
/// legacy agent's, then one under the temporary directory.
pub open spec fn is_config_dir(env: PathEnv, d: Seq<char>) -> bool {
    &&& config_root(env, APP_NAME@) is Some ==> at_root(config_root(env, APP_NAME@), d)
    &&& config_root(env, APP_NAME@) is None && config_root(env, LEGACY_APP_NAME@) is Some
        ==> at_root(config_root(env, LEGACY_APP_NAME@), d)
    &&& config_root(env, APP_NAME@) is None && config_root(env, LEGACY_APP_NAME@) is None
        ==> joined_path(env.temp_dir@, seq![APP_NAME@], d)
}

/// The configuration directory: the agent's own, then the legacy agent's,
/// then one under the temporary directory.
pub fn config_dir(env: &PathEnv) -> (res: String)
    ensures
        is_config_dir(*env, res@),
{
    proof {
        lemma_names_plain();
    }
    match resolve_config_dir(env, APP_NAME) {
        Some(d) => d,
        None => match resolve_config_dir(env, LEGACY_APP_NAME) {
            Some(d) => d,
            None => fallback_config_dir(env),
        },
    }
}

/// The file a configuration is saved to when none was found: `config.toml`
/// joined to the configuration directory.
pub fn default_config_path(env: &PathEnv) -> (res: String)
    ensures
        exists|d: Seq<char>| is_config_dir(*env, d) && #[trigger] path_joined(d, "config.toml"@, res@),
        config_root(*env, APP_NAME@) is Some ==> file_at_root(config_root(*env, APP_NAME@), res@),
        config_root(*env, APP_NAME@) is None && config_root(*env, LEGACY_APP_NAME@) is Some
            ==> file_at_root(config_root(*env, LEGACY_APP_NAME@), res@),
        config_root(*env, APP_NAME@) is None && config_root(*env, LEGACY_APP_NAME@) is None
            ==> joined_path(env.temp_dir@, seq![APP_NAME@, "config.toml"@], res@),
{
    proof {
        lemma_names_plain();
    }
    let dir = config_dir(env);
    let f = join_str(&dir, "config.toml");
    proof {
        assert(is_config_dir(*env, dir@) && path_joined(dir@, "config.toml"@, f@));
        if config_root(*env, APP_NAME@) is Some {
            lemma_join_under_root(config_root(*env, APP_NAME@), dir@, "config.toml"@, f@);
        } else if config_root(*env, LEGACY_APP_NAME@) is Some {
            lemma_join_under_root(config_root(*env, LEGACY_APP_NAME@), dir@, "config.toml"@, f@);
        } else {
            let r = Some((env.temp_dir@, seq![APP_NAME@]));
            lemma_join_under_root(r, dir@, "config.toml"@, f@);
            assert(seq![APP_NAME@].push("config.toml"@) =~= seq![APP_NAME@, "config.toml"@]);
        }
    }
    f
}

/// The files searched for a configuration, in order: `config.toml` next to
/// the executable, then in the agent's and the legacy agent's directories.
pub fn config_file_candidates(env: &PathEnv) -> (res: Vec<String>)
    ensures
        res@.len() == (if env.exe_dir is Some { 1int } else { 0 }) + (if config_root(
            *env,
            APP_NAME@,
        ) is Some {
            1int
        } else {
            0
        }) + (if config_root(*env, LEGACY_APP_NAME@) is Some {
            1int
        } else {
            0
        }),
        env.exe_dir matches Some(d) ==> joined_path(d@, seq!["config.toml"@], res@[0]@),
        config_root(*env, APP_NAME@) is Some ==> file_at_root(
            config_root(*env, APP_NAME@),
            res@[if env.exe_dir is Some { 1int } else { 0 }]@,
        ),
        config_root(*env, LEGACY_APP_NAME@) is Some ==> file_at_root(
            config_root(*env, LEGACY_APP_NAME@),
            res@[res@.len() - 1]@,
        ),
{
    proof {
        lemma_names_plain();
    }
    let mut candidates: Vec<String> = Vec::new();
    if let Some(exe_dir) = &env.exe_dir {
        let f = join_str(exe_dir, "config.toml");
        proof {
            lemma_joined_one(exe_dir@, "config.toml"@, f@);
        }
        candidates.push(f);
    }
    if let Some(path) = resolve_config_file(env, APP_NAME) {
        candidates.push(path);
    }
    if let Some(path) = resolve_config_file(env, LEGACY_APP_NAME) {
        candidates.push(path);
    }
    candidates
}

/// The log directory: `%LOCALAPPDATA%\<app>` on Windows,
/// `$HOME/Library/Logs/<app>` on macOS, `$HOME/.local/share/<app>`
/// elsewhere, with the temporary directory standing in for an unset variable.
pub fn log_dir(env: &PathEnv) -> (res: String)
    ensures
        env.platform == Platform::Windows ==> joined_path(
            or_temp(env.local_app_data, env.temp_dir@),
            seq![APP_NAME@],
            res@,
        ),
        env.platform == Platform::MacOs ==> joined_path(
            or_temp(env.home, env.temp_dir@),
            seq!["Library"@, "Logs"@, APP_NAME@],
            res@,
        ),
        env.platform == Platform::Other ==> joined_path(
            or_temp(env.home, env.temp_dir@),
            seq![".local"@, "share"@, APP_NAME@],
            res@,
        ),
{
    proof {
        lemma_names_plain();
    }
    match env.platform {
        Platform::Windows => {
            let base = match &env.local_app_data {
                Some(d) => d,
                None => &env.temp_dir,
            };
            let r = join_str(base, APP_NAME);
            proof {
                lemma_joined_one(base@, APP_NAME@, r@);
            }
            r
        },
        Platform::MacOs => {
            let base = match &env.home {
                Some(h) => h,
                None => &env.temp_dir,
            };
            let a = join_str(base, "Library");
            let b = join_str(&a, "Logs");
            let r = join_str(&b, APP_NAME);
            proof {
                lemma_joined_three(base@, "Library"@, "Logs"@, APP_NAME@, a@, b@, r@);
            }
            r
        },
        Platform::Other => {
            let base = match &env.home {
                Some(h) => h,
                None => &env.temp_dir,
            };
            let a = join_str(base, ".local");
            let b = join_str(&a, "share");
            let r = join_str(&b, APP_NAME);
            proof {
                lemma_joined_three(base@, ".local"@, "share"@, APP_NAME@, a@, b@, r@);
            }
            r
        },
    }
}

/// The variable's value, or the temporary directory when it is unset.
pub open spec fn or_temp(var: Option<String>, temp: Seq<char>) -> Seq<char> {
    match var {
        Some(v) => v@,
        None => temp,
    }
}

} // verus!
