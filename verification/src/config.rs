//! Configuration: where the config file lives, which API key is used, the
//! default project of each workspace, and what a command needs to run.

use crate::models::User;
use crate::text::{chars_of, push_char, push_str, trim, trimmed};
use vstd::prelude::*;

verus! {

/// A project used for new entries when none is given, kept per workspace.
#[derive(Debug)]
pub struct DefaultProject {
    pub id: String,
    pub name: String,
}

impl Clone for DefaultProject {
    fn clone(&self) -> (r: Self)
        ensures
            r == *self,
    {
        DefaultProject { id: self.id.clone(), name: self.name.clone() }
    }
}

/// The contents of the config file. The default projects are kept as
/// (workspace id, project) pairs, at most one per workspace.
#[derive(Debug, Default)]
pub struct Config {
    pub api_key: Option<String>,
    /// 1Password secret reference (op://Vault/Item/field); resolved via `op read`.
    pub api_key_ref: Option<String>,
    pub workspace_id: Option<String>,
    pub workspace_name: Option<String>,
    pub user_id: Option<String>,
    pub user_name: Option<String>,
    /// TUI color theme.
    pub theme: Option<String>,
    /// Default project per workspace id.
    pub default_projects: Vec<(String, DefaultProject)>,
}

/// The default project recorded for workspace `ws` in `pairs`.
pub open spec fn default_for(pairs: Seq<(String, DefaultProject)>, ws: Seq<char>) -> Option<
    DefaultProject,
>
    decreases pairs.len(),
{
    if pairs.len() == 0 {
        None
    } else if pairs[0].0@ == ws {
        Some(pairs[0].1)
    } else {
        default_for(pairs.drop_first(), ws)
    }
}

/// No workspace appears twice.
pub open spec fn keys_unique(pairs: Seq<(String, DefaultProject)>) -> bool {
    forall|i: int, j: int|
        0 <= i < j < pairs.len() ==> (#[trigger] pairs[i]).0@ != (#[trigger] pairs[j]).0@
}

/// Where `ws` is recorded, if anywhere.
fn position_of(pairs: &Vec<(String, DefaultProject)>, ws: &str) -> (r: Option<usize>)
    ensures
        r matches Some(i) ==> i < pairs@.len() && pairs@[i as int].0@ == ws@ && forall|j: int|
            0 <= j < i ==> (#[trigger] pairs@[j]).0@ != ws@,
        r is None ==> forall|j: int| 0 <= j < pairs@.len() ==> (#[trigger] pairs@[j]).0@ != ws@,
{
    let key = chars_of(ws);
    let mut i: usize = 0;
    while i < pairs.len()
        invariant
            i <= pairs@.len(),
            key@ == ws@,
            forall|j: int| 0 <= j < i ==> (#[trigger] pairs@[j]).0@ != ws@,
        decreases pairs@.len() - i,
    {
        let k = chars_of(pairs[i].0.as_str());
        if crate::text::chars_eq(k.as_slice(), key.as_slice()) {
            return Some(i);
        }
        i = i + 1;
    }
    None
}

/// The first pair recorded for `ws` decides the lookup.
proof fn lemma_default_for_at(pairs: Seq<(String, DefaultProject)>, ws: Seq<char>, i: int)
    requires
        0 <= i < pairs.len(),
        pairs[i].0@ == ws,
        forall|j: int| 0 <= j < i ==> (#[trigger] pairs[j]).0@ != ws,
    ensures
        default_for(pairs, ws) == Some(pairs[i].1),
    decreases i,
{
    if i > 0 {
        lemma_default_for_at(pairs.drop_first(), ws, i - 1);
    }
}

/// A workspace not recorded has no default project.
proof fn lemma_default_for_absent(pairs: Seq<(String, DefaultProject)>, ws: Seq<char>)
    requires
        forall|j: int| 0 <= j < pairs.len() ==> (#[trigger] pairs[j]).0@ != ws,
    ensures
        default_for(pairs, ws) is None,
    decreases pairs.len(),
{
    if pairs.len() > 0 {
        lemma_default_for_absent(pairs.drop_first(), ws);
    }
}

impl Config {
    /// The default project of workspace `ws`.
    pub fn default_project(&self, ws: &str) -> (r: Option<DefaultProject>)
        ensures
            r == default_for(self.default_projects@, ws@),
    {
        match position_of(&self.default_projects, ws) {
            Some(i) => {
                proof { lemma_default_for_at(self.default_projects@, ws@, i as int); }
                Some(self.default_projects[i].1.clone())
            },
            None => {
                proof { lemma_default_for_absent(self.default_projects@, ws@); }
                None
            },
        }
    }
}


/// With unique keys, the pair recorded for `ws` decides the lookup.
proof fn lemma_default_for_unique(pairs: Seq<(String, DefaultProject)>, ws: Seq<char>, i: int)
    requires
        keys_unique(pairs),
        0 <= i < pairs.len(),
        pairs[i].0@ == ws,
    ensures
        default_for(pairs, ws) == Some(pairs[i].1),
{
    assert forall|j: int| 0 <= j < i implies (#[trigger] pairs[j]).0@ != ws by {
        assert(pairs[j].0@ != pairs[i].0@);
    }
    lemma_default_for_at(pairs, ws, i);
}

/// With unique keys, a lookup either finds the one pair of its workspace or
/// nothing.
proof fn lemma_default_for_cases(pairs: Seq<(String, DefaultProject)>, ws: Seq<char>)
    requires
        keys_unique(pairs),
    ensures
        (exists|i: int| 0 <= i < pairs.len() && (#[trigger] pairs[i]).0@ == ws && default_for(pairs, ws)
            == Some(pairs[i].1)) || ((forall|j: int| 0 <= j < pairs.len() ==> (#[trigger] pairs[j]).0@ != ws)
            && default_for(pairs, ws) is None),
{
    if exists|i: int| 0 <= i < pairs.len() && (#[trigger] pairs[i]).0@ == ws {
        let i = choose|i: int| 0 <= i < pairs.len() && (#[trigger] pairs[i]).0@ == ws;
        lemma_default_for_unique(pairs, ws, i);
    } else {
        lemma_default_for_absent(pairs, ws);
    }
}

impl Config {
    /// Makes `project` the default project of workspace `ws`.
    pub fn set_default_project(&mut self, ws: &str, project: DefaultProject)
        requires
            keys_unique(old(self).default_projects@),
        ensures
            keys_unique(final(self).default_projects@),
            default_for(final(self).default_projects@, ws@) == Some(project),
            forall|other: Seq<char>|
                other != ws@ ==> #[trigger] default_for(final(self).default_projects@, other)
                    == default_for(old(self).default_projects@, other),
    {
        let ghost before = self.default_projects@;
        match position_of(&self.default_projects, ws) {
            Some(i) => {
                let key = self.default_projects[i].0.clone();
                self.default_projects.set(i, (key, project));
                proof {
                    let after = self.default_projects@;
                    assert forall|a: int, b: int| 0 <= a < b < after.len() implies (#[trigger] after[a]).0@
                        != (#[trigger] after[b]).0@ by {
                        assert(before[a].0@ != before[b].0@);
                    }
                    lemma_default_for_unique(after, ws@, i as int);
                    assert forall|other: Seq<char>| other != ws@ implies #[trigger] default_for(after, other)
                        == default_for(before, other) by {
                        lemma_default_for_cases(before, other);
                        lemma_default_for_cases(after, other);
                        if exists|j: int| 0 <= j < after.len() && (#[trigger] after[j]).0@ == other {
                            let j = choose|j: int| 0 <= j < after.len() && (#[trigger] after[j]).0@ == other;
                            lemma_default_for_unique(before, other, j);
                            lemma_default_for_unique(after, other, j);
                        } else {
                            assert forall|j: int| 0 <= j < before.len() implies (#[trigger] before[j]).0@
                                != other by {
                                assert(after[j].0@ != other);
                            }
                            lemma_default_for_absent(before, other);
                            lemma_default_for_absent(after, other);
                        }
                    }
                }
            },
            None => {
                let key = ws.to_owned();
                self.default_projects.push((key, project));
                proof {
                    let after = self.default_projects@;
                    assert(after == before.push(after[before.len() as int]));
                    lemma_default_for_unique(after, ws@, before.len() as int);
                    assert forall|other: Seq<char>| other != ws@ implies #[trigger] default_for(after, other)
                        == default_for(before, other) by {
                        lemma_default_for_cases(before, other);
                        lemma_default_for_cases(after, other);
                        if exists|j: int| 0 <= j < before.len() && (#[trigger] before[j]).0@ == other {
                            let j = choose|j: int| 0 <= j < before.len() && (#[trigger] before[j]).0@ == other;
                            lemma_default_for_unique(after, other, j);
                        } else {
                            assert forall|j: int| 0 <= j < after.len() implies (#[trigger] after[j]).0@
                                != other by {
                                if j < before.len() {
                                    assert(before[j].0@ != other);
                                }
                            }
                            lemma_default_for_absent(after, other);
                        }
                    }
                }
            },
        }
    }

    /// Removes the default project of workspace `ws`, returning it.
    pub fn clear_default_project(&mut self, ws: &str) -> (r: Option<DefaultProject>)
        requires
            keys_unique(old(self).default_projects@),
        ensures
            r == default_for(old(self).default_projects@, ws@),
            keys_unique(final(self).default_projects@),
            default_for(final(self).default_projects@, ws@) is None,
            forall|other: Seq<char>|
                other != ws@ ==> #[trigger] default_for(final(self).default_projects@, other)
                    == default_for(old(self).default_projects@, other),
    {
        let ghost before = self.default_projects@;
        match position_of(&self.default_projects, ws) {
            Some(i) => {
                proof { lemma_default_for_unique(before, ws@, i as int); }
                let (_, old_project) = self.default_projects.remove(i);
                proof {
                    let after = self.default_projects@;
                    assert forall|a: int, b: int| 0 <= a < b < after.len() implies (#[trigger] after[a]).0@
                        != (#[trigger] after[b]).0@ by {
                        if b < i {
                            assert(before[a].0@ != before[b].0@);
                        } else if a < i {
                            assert(before[a].0@ != before[b + 1].0@);
                        } else {
                            assert(before[a + 1].0@ != before[b + 1].0@);
                        }
                    }
                    assert forall|j: int| 0 <= j < after.len() implies (#[trigger] after[j]).0@ != ws@ by {
                        if j < i {
                            assert(before[j].0@ != before[i as int].0@);
                        } else {
                            assert(before[i as int].0@ != before[j + 1].0@);
                        }
                    }
                    lemma_default_for_absent(after, ws@);
                    assert forall|other: Seq<char>| other != ws@ implies #[trigger] default_for(after, other)
                        == default_for(before, other) by {
                        lemma_default_for_cases(before, other);
                        lemma_default_for_cases(after, other);
                        if exists|j: int| 0 <= j < before.len() && (#[trigger] before[j]).0@ == other {
                            let j = choose|j: int| 0 <= j < before.len() && (#[trigger] before[j]).0@ == other;
                            assert(j != i);
                            if j < i {
                                lemma_default_for_unique(after, other, j);
                            } else {
                                lemma_default_for_unique(after, other, j - 1);
                            }
                        } else {
                            assert forall|j: int| 0 <= j < after.len() implies (#[trigger] after[j]).0@
                                != other by {
                                if j < i {
                                    assert(before[j].0@ != other);
                                } else {
                                    assert(before[j + 1].0@ != other);
                                }
                            }
                            lemma_default_for_absent(after, other);
                        }
                    }
                }
                Some(old_project)
            },
            None => {
                proof { lemma_default_for_absent(before, ws@); }
                None
            },
        }
    }
}


/// Where the API key comes from.
#[derive(Debug, Clone, PartialEq, Eq)]
pub enum KeySource {
    /// The `CLOCKIFY_API_KEY` environment variable holds it.
    Env(String),
    /// It must be read from 1Password with this secret reference.
    OnePassword(String),
    /// The config file's plaintext key, if any.
    Plain(Option<String>),
}

fn clone_opt(s: &Option<String>) -> (r: Option<String>)
    ensures
        r == *s,
{
    match s {
        Some(t) => Some(t.clone()),
        None => None,
    }
}

/// The value of `CLOCKIFY_API_KEY` counts only when it is not blank.
pub fn api_key_from_env(value: Option<String>) -> (r: Option<String>)
    ensures
        r == (match value {
            Some(k) => if trimmed(k@).len() > 0 { Some(k) } else { None },
            None => None,
        }),
{
    match value {
        Some(k) => {
            if trim(k.as_str()).is_empty() {
                None
            } else {
                Some(k)
            }
        },
        None => None,
    }
}

/// Why a command cannot run with this configuration.
#[derive(Debug, Clone, Copy, PartialEq, Eq)]
pub enum ConfigError {
    /// Neither `XDG_CONFIG_HOME` nor a home directory is known.
    NoHome,
    /// No API key is configured.
    NotAuthenticated,
    /// No workspace is configured.
    NoWorkspace,
    /// No user is configured.
    NoUser,
}

/// What running `op read --no-newline <reference>` (the 1Password command
/// line) came to.
#[derive(Debug, Clone, PartialEq, Eq)]
pub enum OpOutcome {
    /// The `op` program is not installed.
    NotInstalled,
    /// `op` could not be started for another reason; the system's message.
    CouldNotRun(String),
    /// `op` ran: whether it exited successfully, its output as text (`None`
    /// where that is not UTF-8), and its error output.
    Ran { success: bool, stdout: Option<String>, stderr: String },
}

/// Why 1Password gave no key.
#[derive(Debug, Clone, PartialEq, Eq)]
pub enum OpError {
    NotInstalled,
    CouldNotRun(String),
    /// `op` failed; its error output without surrounding white space.
    Failed(String),
    /// The output is not UTF-8.
    NotUtf8,
    /// The output holds nothing but white space.
    Empty,
}

/// The key 1Password gave: the output without surrounding white space, or
/// why there is none.
pub open spec fn op_key_result(outcome: OpOutcome, r: Result<String, OpError>) -> bool {
    match outcome {
        OpOutcome::NotInstalled => r == Err::<String, OpError>(OpError::NotInstalled),
        OpOutcome::CouldNotRun(m) => r == Err::<String, OpError>(OpError::CouldNotRun(m)),
        OpOutcome::Ran { success, stdout, stderr } => if !success {
            r matches Err(OpError::Failed(m)) && m@ == trimmed(stderr@)
        } else {
            match stdout {
                None => r == Err::<String, OpError>(OpError::NotUtf8),
                Some(o) => if trimmed(o@).len() == 0 {
                    r == Err::<String, OpError>(OpError::Empty)
                } else {
                    r matches Ok(k) && k@ == trimmed(o@)
                },
            }
        },
    }
}

/// The key in what `op read` came to: see `op_key_result`.
pub fn op_key(outcome: OpOutcome) -> (r: Result<String, OpError>)
    ensures
        op_key_result(outcome, r),
{
    match outcome {
        OpOutcome::NotInstalled => Err(OpError::NotInstalled),
        OpOutcome::CouldNotRun(m) => Err(OpError::CouldNotRun(m)),
        OpOutcome::Ran { success, stdout, stderr } => {
            if !success {
                return Err(OpError::Failed(trim(stderr.as_str()).to_owned()));
            }
            match stdout {
                None => Err(OpError::NotUtf8),
                Some(o) => {
                    let key = trim(o.as_str());
                    if key.is_empty() {
                        Err(OpError::Empty)
                    } else {
                        Ok(key.to_owned())
                    }
                },
            }
        },
    }
}

/// Why no API key could be had.
#[derive(Debug, Clone, PartialEq, Eq)]
pub enum KeyError {
    /// 1Password, asked with this secret reference, gave no key.
    OnePassword { reference: String, cause: OpError },
}

/// The API key from where `source` says it lies: the environment's, the
/// config file's (if any), or the one 1Password gave (`op`, what asking it
/// came to). A 1Password failure is an error, whatever the config file
/// holds.
pub fn api_key_from(source: KeySource, op: Option<OpOutcome>) -> (r: Result<Option<String>, KeyError>)
    requires
        source is OnePassword ==> op is Some,
    ensures
        match source {
            KeySource::Env(k) => r == Ok::<Option<String>, KeyError>(Some(k)),
            KeySource::Plain(k) => r == Ok::<Option<String>, KeyError>(k),
            KeySource::OnePassword(reference) => exists|k: Result<String, OpError>|
                #[trigger] op_key_result(op->0, k) && match k {
                    Ok(key) => r == Ok::<Option<String>, KeyError>(Some(key)),
                    Err(cause) => r == Err::<Option<String>, KeyError>(
                        KeyError::OnePassword { reference, cause },
                    ),
                },
        },
{
    match source {
        KeySource::Env(k) => Ok(Some(k)),
        KeySource::Plain(k) => Ok(k),
        KeySource::OnePassword(reference) => {
            let outcome = match op {
                Some(o) => o,
                None => return Ok(None),
            };
            let k = op_key(outcome);
            assert(op_key_result(op->0, k));
            match k {
                Ok(key) => Ok(Some(key)),
                Err(cause) => Err(KeyError::OnePassword { reference, cause }),
            }
        },
    }
}

/// A command needs an API key: the one found, else the refusal that asks to
/// authenticate first.
pub fn require_api_key(key: Option<String>) -> (r: Result<String, ConfigError>)
    ensures
        match key {
            Some(k) => r == Ok::<String, ConfigError>(k),
            None => r == Err::<String, ConfigError>(ConfigError::NotAuthenticated),
        },
{
    match key {
        Some(k) => Ok(k),
        None => Err(ConfigError::NotAuthenticated),
    }
}

impl Config {
    /// Which API key to use: `CLOCKIFY_API_KEY` (given here as `env_key`, see
    /// `api_key_from_env`), then the 1Password reference, then the plaintext key.
    pub fn resolve_api_key(&self, env_key: Option<String>) -> (r: KeySource)
        ensures
            env_key matches Some(k) ==> r == KeySource::Env(k),
            env_key is None && self.api_key_ref is Some ==> r == KeySource::OnePassword(
                self.api_key_ref->0,
            ),
            env_key is None && self.api_key_ref is None ==> r == KeySource::Plain(self.api_key),
    {
        match env_key {
            Some(k) => KeySource::Env(k),
            None => match &self.api_key_ref {
                Some(reference) => KeySource::OnePassword(reference.clone()),
                None => KeySource::Plain(clone_opt(&self.api_key)),
            },
        }
    }

    /// The user and workspace still have to be looked up (the key came from
    /// the environment only, say).
    pub fn needs_user(&self) -> (r: bool)
        ensures
            r == (self.workspace_id is None || self.user_id is None),
    {
        self.workspace_id.is_none() || self.user_id.is_none()
    }

    /// Records the authenticated user, and their active (else default)
    /// workspace when none is configured.
    pub fn adopt_user(&mut self, user: &User)
        ensures
            final(self).user_id == Some(user.id),
            final(self).user_name == Some(user.name),
            final(self).workspace_id == (match old(self).workspace_id {
                Some(w) => Some(w),
                None => match user.active_workspace {
                    Some(w) => Some(w),
                    None => user.default_workspace,
                },
            }),
            final(self).api_key == old(self).api_key,
            final(self).api_key_ref == old(self).api_key_ref,
            final(self).workspace_name == old(self).workspace_name,
            final(self).theme == old(self).theme,
            final(self).default_projects == old(self).default_projects,
    {
        self.user_id = Some(user.id.clone());
        self.user_name = Some(user.name.clone());
        if self.workspace_id.is_none() {
            self.workspace_id = match &user.active_workspace {
                Some(w) => Some(w.clone()),
                None => clone_opt(&user.default_workspace),
            };
        }
    }
}

/// Joins a relative path component onto `base` the way `PathBuf::push` does
/// on Unix: a separator is added unless `base` is empty or already ends in one.
pub open spec fn path_join(base: Seq<char>, part: Seq<char>) -> Seq<char> {
    if base.len() == 0 || base.last() == '/' {
        base + part
    } else {
        base.push('/') + part
    }
}

fn push_path(path: &mut String, part: &str)
    ensures
        final(path)@ == path_join(old(path)@, part@),
{
    let cs = chars_of(path.as_str());
    if cs.len() > 0 && cs[cs.len() - 1] != '/' {
        push_char(path, '/');
    }
    push_str(path, part);
}

/// The config file path: `$XDG_CONFIG_HOME/clockify/config.toml`, or
/// `~/.config/clockify/config.toml` when that variable is unset or empty.
pub fn config_file(xdg_config_home: Option<&str>, home: Option<&str>) -> (r: Result<String, ConfigError>)
    ensures
        ({
            let base = match xdg_config_home {
                Some(x) if x@.len() > 0 => Some(x@),
                _ => match home {
                    Some(h) => Some(path_join(h@, ".config"@)),
                    None => None,
                },
            };
            match base {
                Some(b) => r matches Ok(p) && p@ == path_join(path_join(b, "clockify"@), "config.toml"@),
                None => r == Err::<String, ConfigError>(ConfigError::NoHome),
            }
        }),
{
    let mut path = match xdg_config_home {
        Some(x) if !x.is_empty() => x.to_owned(),
        _ => match home {
            Some(h) => {
                let mut p = h.to_owned();
                push_path(&mut p, ".config");
                p
            },
            None => return Err(ConfigError::NoHome),
        },
    };
    push_path(&mut path, "clockify");
    push_path(&mut path, "config.toml");
    Ok(path)
}

/// Everything an authenticated command needs besides the HTTP client.
#[derive(Debug)]
pub struct Ctx {
    pub workspace_id: String,
    pub user_id: String,
    /// The configured default project for the current workspace, if any.
    pub default_project: Option<DefaultProject>,
}

impl Ctx {
    /// The context of a configuration whose user has been looked up: its
    /// workspace, its user, and that workspace's default project.
    pub fn load(cfg: &Config) -> (r: Result<Ctx, ConfigError>)
        ensures
            cfg.workspace_id is None ==> r == Err::<Ctx, ConfigError>(ConfigError::NoWorkspace),
            cfg.workspace_id is Some && cfg.user_id is None ==> r == Err::<Ctx, ConfigError>(
                ConfigError::NoUser,
            ),
            cfg.workspace_id is Some && cfg.user_id is Some ==> (r matches Ok(c)
                && c.workspace_id == cfg.workspace_id->0 && c.user_id == cfg.user_id->0
                && c.default_project == default_for(
                cfg.default_projects@,
                cfg.workspace_id->0@,
            )),
    {
        let workspace_id = match &cfg.workspace_id {
            Some(w) => w.clone(),
            None => return Err(ConfigError::NoWorkspace),
        };
        let user_id = match &cfg.user_id {
            Some(u) => u.clone(),
            None => return Err(ConfigError::NoUser),
        };
        let default_project = cfg.default_project(workspace_id.as_str());
        Ok(Ctx { workspace_id, user_id, default_project })
    }
}

} // verus!
