use caglla::commands::{run_before_open_db, BeforeOpen, Command, DbAction};
use caglla::config::{
    normalize_path, parse_path, resolve_db_path, resolve_user_path, ConfigError,
    DbPathResolveInputs, DbPathSource, PathModel, CONFIG_FILE_NAME, DEFAULT_DB_FILE,
};

fn show(p: &PathModel) -> String {
    let joined = p.parts.join("/");
    if p.absolute {
        format!("/{joined}")
    } else {
        joined
    }
}

fn inputs<'a>(
    cwd: &'a PathModel,
    cli: Option<&'a str>,
    env: Option<&'a str>,
    config: Option<Result<&'a str, ConfigError>>,
) -> DbPathResolveInputs<'a> {
    DbPathResolveInputs { cwd, cli_db: cli, env_caglla_db: env, config_file: config }
}

#[test]
fn resolve_cli_path_has_highest_priority() {
    let cwd = parse_path("/work/trip");
    let resolved = resolve_db_path(inputs(
        &cwd,
        Some("./from-cli.db"),
        Some("./from-env.db"),
        Some(Ok("./from-config.db")),
    ))
    .unwrap();
    assert_eq!(resolved.source, DbPathSource::Cli);
    assert_eq!(show(&resolved.path), "/work/trip/from-cli.db");
    assert!(resolved.config_path.is_none());
}

#[test]
fn resolve_env_path_beats_config_and_default() {
    let cwd = parse_path("/work/trip");
    let resolved =
        resolve_db_path(inputs(&cwd, None, Some("./from-env.db"), Some(Ok("./from-config.db")))).unwrap();
    assert_eq!(resolved.source, DbPathSource::Env);
    assert_eq!(show(&resolved.path), "/work/trip/from-env.db");
}

#[test]
fn resolve_config_path_beats_default() {
    let cwd = parse_path("/work/trip");
    let resolved = resolve_db_path(inputs(&cwd, None, None, Some(Ok("./from-config.db")))).unwrap();
    assert_eq!(resolved.source, DbPathSource::Config);
    assert_eq!(show(&resolved.path), "/work/trip/from-config.db");
    assert_eq!(show(resolved.config_path.as_ref().unwrap()), format!("/work/trip/{CONFIG_FILE_NAME}"));
}

#[test]
fn resolve_default_uses_cwd_caglla_db() {
    let cwd = parse_path("/work/trip");
    let resolved = resolve_db_path(inputs(&cwd, None, None, None)).unwrap();
    assert_eq!(resolved.source, DbPathSource::Default);
    assert_eq!(show(&resolved.path), format!("/work/trip/{DEFAULT_DB_FILE}"));
}

#[test]
fn resolve_config_relative_path_uses_config_dir() {
    let cwd = parse_path("/work/trip");
    let resolved = resolve_db_path(inputs(&cwd, None, None, Some(Ok("data/app.db")))).unwrap();
    assert_eq!(show(&resolved.path), "/work/trip/data/app.db");
}

#[test]
fn resolve_invalid_toml_is_error() {
    let cwd = parse_path("/work/trip");
    let err = resolve_db_path(inputs(&cwd, None, None, Some(Err(ConfigError::InvalidToml)))).unwrap_err();
    assert!(err.message("/work/trip/caglla.toml").contains("TOML"));
}

#[test]
fn resolve_empty_database_path_is_error() {
    let cwd = parse_path("/work/trip");
    let err = resolve_db_path(inputs(&cwd, None, None, Some(Ok("  ")))).unwrap_err();
    assert!(err.message("caglla.toml").contains("path が空"));
}

#[test]
fn blank_env_value_is_ignored() {
    let cwd = parse_path("/work");
    let resolved = resolve_db_path(inputs(&cwd, None, Some("   "), None)).unwrap();
    assert_eq!(resolved.source, DbPathSource::Default);
    assert_eq!(DbPathSource::Default.as_str(), "default");
    assert_eq!(DbPathSource::Cli.as_str(), "cli");
}

#[test]
fn paths_are_joined_and_normalized() {
    let base = parse_path("/a/b");
    assert_eq!(show(&resolve_user_path(&base, &parse_path("../c/./d.db"))), "/a/c/d.db");
    assert_eq!(show(&resolve_user_path(&base, &parse_path("/abs/x.db"))), "/abs/x.db");
    assert_eq!(show(&normalize_path(&parse_path("../../x"))), "x");
    assert_eq!(show(&normalize_path(&parse_path("../x"))), "../x");
    let once = normalize_path(&parse_path("a/./b/../c"));
    assert_eq!(show(&once), "a/c");
    assert_eq!(show(&normalize_path(&once)), "a/c");
}

#[test]
fn db_path_and_status_are_answered_before_opening() {
    assert_eq!(run_before_open_db(&Command::Db { action: DbAction::Path }), BeforeOpen::ShowPath);
    assert_eq!(
        run_before_open_db(&Command::Db { action: DbAction::Status { json: true } }),
        BeforeOpen::ShowStatus { json: true }
    );
    assert_eq!(run_before_open_db(&Command::Db { action: DbAction::Reset }), BeforeOpen::OpenDatabase);
    assert_eq!(run_before_open_db(&Command::Other), BeforeOpen::OpenDatabase);
}
