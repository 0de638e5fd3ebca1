use clockify::config::{api_key_from, op_key, KeyError, OpError, OpOutcome};
use clockify::config::{api_key_from_env, config_file, require_api_key, Config, ConfigError, Ctx, DefaultProject, KeySource};
use clockify::models::User;

fn empty_config() -> Config {
    Config {
        api_key: None,
        api_key_ref: None,
        workspace_id: None,
        workspace_name: None,
        user_id: None,
        user_name: None,
        theme: None,
        default_projects: Vec::new(),
    }
}

fn project(id: &str, name: &str) -> DefaultProject {
    DefaultProject { id: id.to_string(), name: name.to_string() }
}

#[test]
fn config_path_honors_xdg_config_home() {
    let p = config_file(Some("/custom/xdg"), Some("/home/u")).unwrap();
    assert_eq!(p, "/custom/xdg/clockify/config.toml");
}

#[test]
fn config_path_defaults_to_dot_config() {
    let p = config_file(None, Some("/home/u")).unwrap();
    assert_eq!(p, "/home/u/.config/clockify/config.toml");
    // An empty XDG_CONFIG_HOME counts as unset.
    let p = config_file(Some(""), Some("/home/u")).unwrap();
    assert_eq!(p, "/home/u/.config/clockify/config.toml");
}

#[test]
fn config_path_needs_a_home() {
    assert_eq!(config_file(None, None).unwrap_err(), ConfigError::NoHome);
    assert_eq!(config_file(Some(""), None).unwrap_err(), ConfigError::NoHome);
}

#[test]
fn default_project_is_read_back_after_setting_it() {
    let mut cfg = empty_config();
    cfg.set_default_project("ws1", project("p1", "Backend"));
    cfg.set_default_project("ws2", project("p2", "Frontend"));
    cfg.set_default_project("ws1", project("p3", "Ops"));
    assert_eq!(cfg.default_project("ws1").unwrap().id, "p3");
    assert_eq!(cfg.default_project("ws2").unwrap().name, "Frontend");
    assert!(cfg.default_project("ws3").is_none());
    assert_eq!(cfg.default_projects.len(), 2);
}

#[test]
fn clearing_the_default_project_returns_it() {
    let mut cfg = empty_config();
    cfg.set_default_project("ws1", project("p1", "Backend"));
    cfg.set_default_project("ws2", project("p2", "Frontend"));
    let cleared = cfg.clear_default_project("ws1").unwrap();
    assert_eq!(cleared.id, "p1");
    assert!(cfg.default_project("ws1").is_none());
    assert_eq!(cfg.default_project("ws2").unwrap().id, "p2");
    assert!(cfg.clear_default_project("ws1").is_none());
}

#[test]
fn api_key_sources_in_order() {
    let mut cfg = empty_config();
    cfg.api_key = Some("plain".into());
    cfg.api_key_ref = Some("op://Vault/Clockify/key".into());
    assert_eq!(cfg.resolve_api_key(Some("env".into())), KeySource::Env("env".into()));
    assert_eq!(
        cfg.resolve_api_key(None),
        KeySource::OnePassword("op://Vault/Clockify/key".into())
    );
    cfg.api_key_ref = None;
    assert_eq!(cfg.resolve_api_key(None), KeySource::Plain(Some("plain".into())));
    assert_eq!(api_key_from_env(Some("  ".into())), None);
    assert_eq!(api_key_from_env(Some(" k ".into())), Some(" k ".to_string()));
    assert_eq!(api_key_from_env(None), None);
}

#[test]
fn context_needs_workspace_and_user() {
    let mut cfg = empty_config();
    assert_eq!(Ctx::load(&cfg).unwrap_err(), ConfigError::NoWorkspace);
    cfg.workspace_id = Some("ws1".into());
    assert_eq!(Ctx::load(&cfg).unwrap_err(), ConfigError::NoUser);
    cfg.user_id = Some("u1".into());
    cfg.set_default_project("ws1", project("p1", "Backend"));
    let ctx = Ctx::load(&cfg).unwrap();
    assert_eq!(ctx.workspace_id, "ws1");
    assert_eq!(ctx.user_id, "u1");
    assert_eq!(ctx.default_project.unwrap().id, "p1");
}

#[test]
fn adopting_a_user_keeps_a_chosen_workspace() {
    let user = User {
        id: "u1".into(),
        name: "Ada".into(),
        email: "ada@example.com".into(),
        active_workspace: Some("active".into()),
        default_workspace: Some("default".into()),
    };
    let mut cfg = empty_config();
    assert!(cfg.needs_user());
    cfg.adopt_user(&user);
    assert_eq!(cfg.user_id.as_deref(), Some("u1"));
    assert_eq!(cfg.workspace_id.as_deref(), Some("active"));
    assert!(!cfg.needs_user());
    let mut cfg = empty_config();
    cfg.workspace_id = Some("mine".into());
    cfg.adopt_user(&user);
    assert_eq!(cfg.workspace_id.as_deref(), Some("mine"));
}

#[test]
fn commands_need_an_api_key() {
    assert_eq!(require_api_key(Some("k".to_string())), Ok("k".to_string()));
    assert_eq!(require_api_key(None), Err(ConfigError::NotAuthenticated));
}

fn ran(success: bool, stdout: Option<&str>, stderr: &str) -> OpOutcome {
    OpOutcome::Ran { success, stdout: stdout.map(String::from), stderr: stderr.to_string() }
}

#[test]
fn one_password_output_becomes_the_key() {
    assert_eq!(op_key(ran(true, Some("  secret\n"), "")), Ok("secret".to_string()));
    assert_eq!(op_key(ran(true, Some(" \n"), "")), Err(OpError::Empty));
    assert_eq!(op_key(ran(true, None, "")), Err(OpError::NotUtf8));
    assert_eq!(op_key(ran(false, Some("x"), " not signed in\n")), Err(OpError::Failed("not signed in".to_string())));
    assert_eq!(op_key(OpOutcome::NotInstalled), Err(OpError::NotInstalled));
}

#[test]
fn one_password_failure_is_not_covered_by_the_plain_key() {
    let source = KeySource::OnePassword("op://vault/item".to_string());
    assert_eq!(
        api_key_from(source.clone(), Some(ran(true, Some("k1"), ""))),
        Ok(Some("k1".to_string()))
    );
    assert_eq!(
        api_key_from(source, Some(OpOutcome::NotInstalled)),
        Err(KeyError::OnePassword { reference: "op://vault/item".to_string(), cause: OpError::NotInstalled })
    );
    assert_eq!(api_key_from(KeySource::Env("e".to_string()), None), Ok(Some("e".to_string())));
    assert_eq!(api_key_from(KeySource::Plain(None), None), Ok(None));
}
