use surrealql_zed::extension::{Command, LaunchPlan, SurrealQLExtension};
use surrealql_zed::json::{Json, JsonObject};

fn object(members: Vec<(&str, Json)>) -> Json {
    let mut o = JsonObject::new();
    for (k, v) in members {
        o.insert(k.to_string(), v);
    }
    Json::Object(o)
}
use surrealql_zed::lsp::initialization_options::default_initialization_options;
use surrealql_zed::lsp::settings::{CommandSettings, LspCommandConfig, LspSettings};

fn settings_with(settings: Option<Json>, binary: Option<CommandSettings>) -> LspSettings {
    LspSettings { binary, initialization_options: None, settings }
}

#[test]
fn config_without_settings_is_empty() {
    let c = LspCommandConfig::from_worktree(None);
    assert_eq!(
        c,
        LspCommandConfig { path_override: None, args: vec![], env: vec![], version: None }
    );
}

#[test]
fn config_reads_version_string() {
    let settings = object(vec![("version", Json::String("v2".to_string()))]);
    let c = LspCommandConfig::from_worktree(Some(settings_with(Some(settings), None)));
    assert_eq!(c.version.as_deref(), Some("v2"));
    assert_eq!(c.path_override, None);
    assert!(c.args.is_empty() && c.env.is_empty());
}

#[test]
fn config_ignores_version_that_is_no_string() {
    let settings = object(vec![("version", Json::Number("2".to_string()))]);
    let c = LspCommandConfig::from_worktree(Some(settings_with(Some(settings), None)));
    assert_eq!(c.version, None);
    let c = LspCommandConfig::from_worktree(Some(settings_with(
        Some(Json::String("v2".to_string())),
        None,
    )));
    assert_eq!(c.version, None);
}

#[test]
fn config_reads_binary_settings() {
    let binary = CommandSettings {
        path: Some("/opt/bin/lsp".to_string()),
        arguments: Some(vec!["--stdio".to_string()]),
        env: Some(vec![("RUST_LOG".to_string(), "debug".to_string())]),
    };
    let c = LspCommandConfig::from_worktree(Some(settings_with(None, Some(binary))));
    assert_eq!(c.path_override.as_deref(), Some("/opt/bin/lsp"));
    assert_eq!(c.args, vec!["--stdio".to_string()]);
    assert_eq!(c.env, vec![("RUST_LOG".to_string(), "debug".to_string())]);
    let binary = CommandSettings { path: None, arguments: None, env: None };
    let c = LspCommandConfig::from_worktree(Some(settings_with(None, Some(binary))));
    assert_eq!(c.path_override, None);
    assert!(c.args.is_empty() && c.env.is_empty());
}

#[test]
fn explicit_binary_path_is_launched_directly() {
    let ext = SurrealQLExtension::new();
    let config = LspCommandConfig {
        path_override: Some("/x/lsp".to_string()),
        args: vec!["a".to_string()],
        env: vec![("K".to_string(), "V".to_string())],
        version: Some("v9".to_string()),
    };
    assert_eq!(
        ext.language_server_command(config),
        LaunchPlan::Ready(Command {
            command: "/x/lsp".to_string(),
            args: vec!["a".to_string()],
            env: vec![("K".to_string(), "V".to_string())],
        })
    );
}

#[test]
fn without_binary_path_the_binary_is_resolved() {
    let ext = SurrealQLExtension::new();
    let config = LspCommandConfig {
        path_override: None,
        args: vec![],
        env: vec![],
        version: Some("v9".to_string()),
    };
    assert_eq!(
        ext.language_server_command(config),
        LaunchPlan::ResolveBinary { version: Some("v9".to_string()), args: vec![], env: vec![] }
    );
}

#[test]
fn workspace_configuration_is_the_settings() {
    let ext = SurrealQLExtension::new();
    let settings = object(vec![("k", Json::Bool(true))]);
    assert_eq!(
        ext.language_server_workspace_configuration(Some(settings_with(
            Some(object(vec![("k", Json::Bool(true))])),
            None
        ))),
        Some(settings)
    );
    assert_eq!(ext.language_server_workspace_configuration(None), None);
}

#[test]
fn initialization_options_are_always_given() {
    let ext = SurrealQLExtension::new();
    assert_eq!(
        ext.language_server_initialization_options(None),
        Some(default_initialization_options())
    );
}
