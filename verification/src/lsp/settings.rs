//! The user's `lsp.surrealql-lsp` settings, and the command configuration
//! read from them.
use vstd::prelude::*;

use crate::json::{json_option_view, lookup, Json, JsonValue};

verus! {

/// The settings for the language server binary (`lsp.surrealql-lsp.binary`).
#[derive(Debug, PartialEq, Eq)]
pub struct CommandSettings {
    /// The path to the command.
    pub path: Option<String>,
    /// The arguments to pass to the command.
    pub arguments: Option<Vec<String>>,
    /// The environment variables, in the order the settings gave them.
    pub env: Option<Vec<(String, String)>>,
}

/// The settings Zed keeps for the language server (`lsp.surrealql-lsp`).
#[derive(Debug, PartialEq, Eq)]
pub struct LspSettings {
    /// The settings for the language server binary.
    pub binary: Option<CommandSettings>,
    /// The initialization options to pass to the language server.
    pub initialization_options: Option<Json>,
    /// The settings to pass to the language server.
    pub settings: Option<Json>,
}

/// How to start the language server, as far as the user's settings say.
#[derive(Debug, PartialEq, Eq)]
pub struct LspCommandConfig {
    pub path_override: Option<String>,
    pub args: Vec<String>,
    pub env: Vec<(String, String)>,
    pub version: Option<String>,
}

/// No variable is named twice in an environment, as in the map that Zed
/// keeps it in.
pub open spec fn distinct_names(env: Seq<(String, String)>) -> bool {
    forall|i: int, j: int| 0 <= i < j < env.len() ==> env[i].0@ != env[j].0@
}

/// The settings are what Zed can hold: the binary's environment names each
/// variable once.
pub open spec fn settings_valid(s: LspSettings) -> bool {
    match s.binary {
        Some(b) => match b.env {
            Some(e) => distinct_names(e@),
            None => true,
        },
        None => true,
    }
}

/// The version pin in the settings: the `version` member of the settings
/// object, when it is a string.
pub open spec fn settings_version(settings: Option<JsonValue>) -> Option<Seq<char>> {
    match settings {
        Some(JsonValue::Object(fields)) => match lookup(fields, "version"@) {
            Some(JsonValue::String(s)) => Some(s),
            _ => None,
        },
        _ => None,
    }
}

/// The text of an optional string.
pub open spec fn string_option_view(s: Option<String>) -> Option<Seq<char>> {
    match s {
        Some(t) => Some(t@),
        None => None,
    }
}

/// The version pin is taken as given: whenever the settings object's
/// `version` member is a string, that string, whatever it holds (`latest`
/// too), is the pin; otherwise there is none.
pub proof fn law_version_taken_as_given(fields: Seq<(Seq<char>, JsonValue)>)
    ensures
        lookup(fields, "version"@) matches Some(JsonValue::String(t)) ==> settings_version(
            Some(JsonValue::Object(fields)),
        ) == Some(t),
        !(lookup(fields, "version"@) matches Some(JsonValue::String(_))) ==> settings_version(
            Some(JsonValue::Object(fields)),
        ) is None,
{
}

/// Settings that are no object, or no settings at all, pin no version.
pub proof fn law_no_object_no_version(settings: Option<JsonValue>)
    requires
        !(settings matches Some(JsonValue::Object(_))),
    ensures
        settings_version(settings) is None,
{
}

impl LspCommandConfig {
    /// Reads the command configuration out of the language server's settings
    /// (`None` where the worktree has none).
    pub fn from_worktree(lsp_settings: Option<LspSettings>) -> (r: Self)
        ensures
            (lsp_settings matches Some(s) ==> settings_valid(s)) ==> distinct_names(r.env@),
            lsp_settings matches Some(s) ==> (s.settings matches Some(j) ==> (j@ matches JsonValue::Object(
                fields,
            ) ==> (lookup(fields, "version"@) matches Some(JsonValue::String(t)) ==> (
            r.version matches Some(v) && v@ == t)))),
            match lsp_settings {
                Some(s) => {
                    &&& string_option_view(r.version) == settings_version(
                        json_option_view(s.settings),
                    )
                    &&& match s.binary {
                        Some(b) => {
                            &&& r.path_override == b.path
                            &&& r.args@ == match b.arguments {
                                Some(a) => a@,
                                None => Seq::empty(),
                            }
                            &&& r.env@ == match b.env {
                                Some(e) => e@,
                                None => Seq::empty(),
                            }
                        },
                        None => {
                            &&& r.path_override is None
                            &&& r.args@.len() == 0
                            &&& r.env@.len() == 0
                        },
                    }
                },
                None => {
                    &&& r.version is None
                    &&& r.path_override is None
                    &&& r.args@.len() == 0
                    &&& r.env@.len() == 0
                },
            },
    {
        match lsp_settings {
            None => LspCommandConfig {
                path_override: None,
                args: Vec::new(),
                env: Vec::new(),
                version: None,
            },
            Some(s) => {
                // Optional version pin (`lsp.surrealql-lsp.settings.version`).
                let version = match &s.settings {
                    Some(settings) => match settings.get("version") {
                        Some(v) => match v.as_str() {
                            Some(text) => Some(String::from_str(text)),
                            None => None,
                        },
                        None => None,
                    },
                    None => None,
                };
                proof {
                    reveal_strlit("version");
                }
                // An explicit `binary.path` short-circuits PATH detection and download.
                match s.binary {
                    Some(b) => LspCommandConfig {
                        path_override: b.path,
                        args: match b.arguments {
                            Some(a) => a,
                            None => Vec::new(),
                        },
                        env: match b.env {
                            Some(e) => e,
                            None => Vec::new(),
                        },
                        version,
                    },
                    None => LspCommandConfig {
                        path_override: None,
                        args: Vec::new(),
                        env: Vec::new(),
                        version,
                    },
                }
            },
        }
    }
}

} // verus!
