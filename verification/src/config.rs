//! Names and versions of the language server that the extension runs.
use vstd::prelude::*;

use crate::text::{trim, trimmed};

verus! {

/// The executable of the language server, on PATH and in release assets.
pub const BINARY_NAME: &'static str = "surrealql-language-server";

/// The GitHub repository that publishes the language server's releases.
pub const GITHUB_REPO: &'static str = "surrealdb/surrealql-language-server";

/// The id under which Zed keeps this language server's settings.
pub const SERVER_ID: &'static str = "surrealql-lsp";

/// The release tag of the language server this extension is built against,
/// as kept in the project's version file (with its line end).
pub const PINNED_LSP_VERSION_RAW: &'static str = "v0.1.0\n";

/// How to build the language server from source.
pub const SOURCE_BUILD_HINT: &'static str =
    "cargo install --git https://github.com/surrealdb/surrealql-language-server";

/// The `surrealql-language-server` release this extension is built against, and
/// the version downloaded when the user has not pinned one themselves.
pub fn pinned_lsp_version() -> (r: &'static str)
    ensures
        r@ == trimmed(PINNED_LSP_VERSION_RAW@),
{
    trim(PINNED_LSP_VERSION_RAW)
}

/// The command that builds the language server from source.
pub fn source_build_hint() -> (r: &'static str)
    ensures
        r@ == SOURCE_BUILD_HINT@,
{
    SOURCE_BUILD_HINT
}

} // verus!
