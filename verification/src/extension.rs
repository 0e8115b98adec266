//! What the extension answers Zed about the SurrealQL language server.
use vstd::prelude::*;

use crate::json::{json_option_view, Json};
use crate::lsp::binary::BinaryResolver;
use crate::lsp::initialization_options::{initialization_options, resolve_initialization_options};
use crate::lsp::settings::{LspCommandConfig, LspSettings};

verus! {

/// A command that starts the language server.
#[derive(Debug, PartialEq, Eq)]
pub struct Command {
    pub command: String,
    pub args: Vec<String>,
    pub env: Vec<(String, String)>,
}

/// How the language server is to be started.
#[derive(Debug, PartialEq, Eq)]
pub enum LaunchPlan {
    /// With this command.
    Ready(Command),
    /// With the binary that resolution finds for the version pin, and these
    /// arguments and environment.
    ResolveBinary { version: Option<String>, args: Vec<String>, env: Vec<(String, String)> },
}

#[derive(Debug)]
pub struct SurrealQLExtension {
    pub binary_resolver: BinaryResolver,
}

impl SurrealQLExtension {
    pub fn new() -> (r: Self)
        ensures
            r.binary_resolver.cache() is None,
    {
        SurrealQLExtension { binary_resolver: BinaryResolver::new() }
    }

    /// An explicit `binary.path` short-circuits PATH detection and download;
    /// otherwise the binary is resolved for the version pin. Either way the
    /// configured arguments and environment go with it.
    pub fn language_server_command(&self, config: LspCommandConfig) -> (r: LaunchPlan)
        ensures
            match config.path_override {
                Some(path) => r == LaunchPlan::Ready(
                    Command { command: path, args: config.args, env: config.env },
                ),
                None => r == (LaunchPlan::ResolveBinary {
                    version: config.version,
                    args: config.args,
                    env: config.env,
                }),
            },
    {
        match config.path_override {
            Some(path) => LaunchPlan::Ready(
                Command { command: path, args: config.args, env: config.env },
            ),
            None => LaunchPlan::ResolveBinary {
                version: config.version,
                args: config.args,
                env: config.env,
            },
        }
    }

    /// The initialization options: the defaults with the user's options
    /// merged over them.
    pub fn language_server_initialization_options(&self, user_options: Option<Json>) -> (r: Option<
        Json,
    >)
        ensures
            r matches Some(options) && options@ == initialization_options(
                json_option_view(user_options),
            ),
    {
        Some(resolve_initialization_options(user_options))
    }

    /// The workspace configuration: the user's `settings`, as they are.
    pub fn language_server_workspace_configuration(&self, lsp_settings: Option<LspSettings>) -> (r:
        Option<Json>)
        ensures
            r == match lsp_settings {
                Some(s) => s.settings,
                None => None,
            },
    {
        match lsp_settings {
            Some(s) => s.settings,
            None => None,
        }
    }
}

} // verus!
