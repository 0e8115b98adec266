//! The initialization options sent to the language server: defaults, with
//! the user's `lsp.surrealql-lsp.initialization_options` merged over them.
use vstd::prelude::*;

use crate::json::laws::{
    law_overlay_leaves_win,
    law_untouched_base_kept,
    overlay_silent_on,
};
use crate::json::{
    at_path,
    json_option_view,
    lemma_key_index_none,
    lemma_lookup_upsert,
    lookup,
    merge,
    merged,
    upsert,
    well_formed,
    Json,
    JsonObject,
    JsonValue,
};

verus! {

/// The default initialization options:
/// `{"surrealql": {"connection": {"endpoint": "http://localhost:8000",
/// "username": "root", "password": "root"}, "activeAuthContext": "root",
/// "metadata": {"mode": "both"}}}`.
pub open spec fn default_options() -> JsonValue {
    let empty = Seq::<(Seq<char>, JsonValue)>::empty();
    let connection = upsert(
        upsert(
            upsert(empty, "endpoint"@, JsonValue::String("http://localhost:8000"@)),
            "username"@,
            JsonValue::String("root"@),
        ),
        "password"@,
        JsonValue::String("root"@),
    );
    let metadata = upsert(empty, "mode"@, JsonValue::String("both"@));
    let surrealql = upsert(
        upsert(
            upsert(empty, "connection"@, JsonValue::Object(connection)),
            "activeAuthContext"@,
            JsonValue::String("root"@),
        ),
        "metadata"@,
        JsonValue::Object(metadata),
    );
    JsonValue::Object(upsert(empty, "surrealql"@, JsonValue::Object(surrealql)))
}

/// The options sent to the server: the defaults, with the user's options,
/// where there are any, merged over them.
pub open spec fn initialization_options(user_options: Option<JsonValue>) -> JsonValue {
    match user_options {
        Some(user) => merged(default_options(), user),
        None => default_options(),
    }
}

/// Each leaf of the user's options overrides the default at its path.
pub proof fn law_user_leaves_override_defaults(user: JsonValue, path: Seq<Seq<char>>)
    requires
        well_formed(user),
        at_path(user, path) matches Some(leaf) && !(leaf is Object),
    ensures
        at_path(initialization_options(Some(user)), path) == at_path(user, path),
{
    law_overlay_leaves_win(default_options(), user, path);
}

/// Where the user's options say nothing, the default stays.
pub proof fn law_defaults_kept_where_user_silent(user: JsonValue, path: Seq<Seq<char>>)
    requires
        well_formed(user),
        overlay_silent_on(user, path),
    ensures
        at_path(initialization_options(Some(user)), path) == at_path(default_options(), path),
{
    law_untouched_base_kept(default_options(), user, path);
}


/// The default options hold exactly these members and no others: the root
/// only `surrealql`; `surrealql` only `connection`, `activeAuthContext` and
/// `metadata`; `connection` only `endpoint`, `username` and `password`;
/// `metadata` only `mode`.
pub proof fn law_default_members(k: Seq<char>)
    ensures
        at_path(default_options(), seq![k]) is Some <==> k == "surrealql"@,
        at_path(default_options(), seq!["surrealql"@, k]) is Some <==> (k == "connection"@ || k
            == "activeAuthContext"@ || k == "metadata"@),
        at_path(default_options(), seq!["surrealql"@, "connection"@, k]) is Some <==> (k
            == "endpoint"@ || k == "username"@ || k == "password"@),
        at_path(default_options(), seq!["surrealql"@, "metadata"@, k]) is Some <==> k == "mode"@,
{
    reveal_with_fuel(at_path, 4);
    lemma_default_lookups(k);
    let p1 = seq![k];
    let p2 = seq!["surrealql"@, k];
    let p3 = seq!["surrealql"@, "connection"@, k];
    let p4 = seq!["surrealql"@, "metadata"@, k];
    assert(p1.drop_first() =~= Seq::<Seq<char>>::empty());
    assert(p2.drop_first() =~= seq![k]);
    assert(p2.drop_first().drop_first() =~= Seq::<Seq<char>>::empty());
    assert(p3.drop_first() =~= seq!["connection"@, k]);
    assert(p3.drop_first().drop_first() =~= seq![k]);
    assert(p3.drop_first().drop_first().drop_first() =~= Seq::<Seq<char>>::empty());
    assert(p4.drop_first() =~= seq!["metadata"@, k]);
    assert(p4.drop_first().drop_first() =~= seq![k]);
    assert(p4.drop_first().drop_first().drop_first() =~= Seq::<Seq<char>>::empty());
    assert(p1[0] == k && p2[0] == "surrealql"@ && p2.drop_first()[0] == k);
    assert(p3[0] == "surrealql"@ && p3.drop_first()[0] == "connection"@);
    assert(p3.drop_first().drop_first()[0] == k);
    assert(p4[0] == "surrealql"@ && p4.drop_first()[0] == "metadata"@);
    assert(p4.drop_first().drop_first()[0] == k);
}

/// The default values: the endpoint `http://localhost:8000`, user and
/// password `root`, the active auth context `root`, metadata mode `both`.
pub proof fn law_default_values()
    ensures
        at_path(default_options(), seq!["surrealql"@, "connection"@, "endpoint"@]) == Some(
            JsonValue::String("http://localhost:8000"@),
        ),
        at_path(default_options(), seq!["surrealql"@, "connection"@, "username"@]) == Some(
            JsonValue::String("root"@),
        ),
        at_path(default_options(), seq!["surrealql"@, "connection"@, "password"@]) == Some(
            JsonValue::String("root"@),
        ),
        at_path(default_options(), seq!["surrealql"@, "activeAuthContext"@]) == Some(
            JsonValue::String("root"@),
        ),
        at_path(default_options(), seq!["surrealql"@, "metadata"@, "mode"@]) == Some(
            JsonValue::String("both"@),
        ),
{
    reveal_with_fuel(at_path, 4);
    reveal_strlit("connection");
    reveal_strlit("activeAuthContext");
    reveal_strlit("metadata");
    reveal_strlit("endpoint");
    reveal_strlit("username");
    reveal_strlit("password");
    reveal_strlit("mode");
    lemma_default_lookups("endpoint"@);
    lemma_default_lookups("username"@);
    lemma_default_lookups("password"@);
    lemma_default_lookups("activeAuthContext"@);
    lemma_default_lookups("mode"@);
    lemma_value_path("connection"@, "endpoint"@);
    lemma_value_path("connection"@, "username"@);
    lemma_value_path("connection"@, "password"@);
    lemma_value_path("metadata"@, "mode"@);
    let p = seq!["surrealql"@, "activeAuthContext"@];
    assert(p.drop_first() =~= seq!["activeAuthContext"@]);
    assert(p.drop_first().drop_first() =~= Seq::<Seq<char>>::empty());
    assert(p[0] == "surrealql"@ && p.drop_first()[0] == "activeAuthContext"@);
}

proof fn lemma_value_path(a: Seq<char>, b: Seq<char>)
    ensures
        seq!["surrealql"@, a, b][0] == "surrealql"@,
        seq!["surrealql"@, a, b].drop_first() == seq![a, b],
        seq![a, b][0] == a,
        seq![a, b].drop_first() == seq![b],
        seq![b][0] == b,
        seq![b].drop_first() == Seq::<Seq<char>>::empty(),
{
    assert(seq!["surrealql"@, a, b].drop_first() =~= seq![a, b]);
    assert(seq![a, b].drop_first() =~= seq![b]);
    assert(seq![b].drop_first() =~= Seq::<Seq<char>>::empty());
}

/// What each member of the defaults holds, key by key.
proof fn lemma_default_lookups(k: Seq<char>)
    ensures
        ({
            let empty = Seq::<(Seq<char>, JsonValue)>::empty();
            let root = default_options()->Object_0;
            let surrealql = lookup(root, "surrealql"@);
            &&& lookup(root, k) == if k == "surrealql"@ {
                surrealql
            } else {
                None
            }
            &&& surrealql matches Some(JsonValue::Object(sf)) && lookup(sf, k) == if k
                == "metadata"@ {
                Some(JsonValue::Object(upsert(empty, "mode"@, JsonValue::String("both"@))))
            } else if k == "activeAuthContext"@ {
                Some(JsonValue::String("root"@))
            } else if k == "connection"@ {
                lookup(sf, "connection"@)
            } else {
                None
            }
            &&& surrealql matches Some(JsonValue::Object(sf)) && lookup(sf, "connection"@) matches Some(
                JsonValue::Object(cf),
            ) && lookup(cf, k) == if k == "password"@ {
                Some(JsonValue::String("root"@))
            } else if k == "username"@ {
                Some(JsonValue::String("root"@))
            } else if k == "endpoint"@ {
                Some(JsonValue::String("http://localhost:8000"@))
            } else {
                None
            }
            &&& surrealql matches Some(JsonValue::Object(sf)) && lookup(sf, "metadata"@) matches Some(
                JsonValue::Object(mf),
            ) && lookup(mf, k) == if k == "mode"@ {
                Some(JsonValue::String("both"@))
            } else {
                None
            }
        }),
{
    reveal_strlit("surrealql");
    reveal_strlit("connection");
    reveal_strlit("activeAuthContext");
    reveal_strlit("metadata");
    reveal_strlit("endpoint");
    reveal_strlit("username");
    reveal_strlit("password");
    reveal_strlit("mode");
    let empty = Seq::<(Seq<char>, JsonValue)>::empty();
    lemma_key_index_none(empty, k);
    lemma_key_index_none(empty, "connection"@);
    lemma_key_index_none(empty, "metadata"@);
    lemma_key_index_none(empty, "surrealql"@);
    let c1 = upsert(empty, "endpoint"@, JsonValue::String("http://localhost:8000"@));
    let c2 = upsert(c1, "username"@, JsonValue::String("root"@));
    let c3 = upsert(c2, "password"@, JsonValue::String("root"@));
    lemma_lookup_upsert(empty, "endpoint"@, JsonValue::String("http://localhost:8000"@), k);
    lemma_lookup_upsert(c1, "username"@, JsonValue::String("root"@), k);
    lemma_lookup_upsert(c2, "password"@, JsonValue::String("root"@), k);
    let metadata = upsert(empty, "mode"@, JsonValue::String("both"@));
    lemma_lookup_upsert(empty, "mode"@, JsonValue::String("both"@), k);
    let s1 = upsert(empty, "connection"@, JsonValue::Object(c3));
    let s2 = upsert(s1, "activeAuthContext"@, JsonValue::String("root"@));
    let s3 = upsert(s2, "metadata"@, JsonValue::Object(metadata));
    lemma_lookup_upsert(empty, "connection"@, JsonValue::Object(c3), k);
    lemma_lookup_upsert(s1, "activeAuthContext"@, JsonValue::String("root"@), k);
    lemma_lookup_upsert(s2, "metadata"@, JsonValue::Object(metadata), k);
    lemma_lookup_upsert(empty, "connection"@, JsonValue::Object(c3), "connection"@);
    lemma_lookup_upsert(s1, "activeAuthContext"@, JsonValue::String("root"@), "connection"@);
    lemma_lookup_upsert(s2, "metadata"@, JsonValue::Object(metadata), "connection"@);
    lemma_lookup_upsert(empty, "connection"@, JsonValue::Object(c3), "metadata"@);
    lemma_lookup_upsert(s1, "activeAuthContext"@, JsonValue::String("root"@), "metadata"@);
    lemma_lookup_upsert(s2, "metadata"@, JsonValue::Object(metadata), "metadata"@);
    lemma_lookup_upsert(empty, "surrealql"@, JsonValue::Object(s3), k);
    lemma_lookup_upsert(empty, "surrealql"@, JsonValue::Object(s3), "surrealql"@);
    assert("connection"@ != "metadata"@);
    assert("activeAuthContext"@ != "metadata"@);
    assert("activeAuthContext"@ != "connection"@);
}

fn text(s: &str) -> (r: Json)
    ensures
        r@ == JsonValue::String(s@),
{
    Json::String(String::from_str(s))
}

/// Defaults mirroring the VS Code extension's `buildInitializationOptions`.
/// Users override individual leaves via
/// `lsp.surrealql-lsp.initialization_options` in their Zed `settings.json`.
pub fn default_initialization_options() -> (r: Json)
    ensures
        r@ == default_options(),
{
    let mut connection = JsonObject::new();
    connection.insert(String::from_str("endpoint"), text("http://localhost:8000"));
    connection.insert(String::from_str("username"), text("root"));
    connection.insert(String::from_str("password"), text("root"));
    let mut metadata = JsonObject::new();
    metadata.insert(String::from_str("mode"), text("both"));
    let mut surrealql = JsonObject::new();
    surrealql.insert(String::from_str("connection"), Json::Object(connection));
    surrealql.insert(String::from_str("activeAuthContext"), text("root"));
    surrealql.insert(String::from_str("metadata"), Json::Object(metadata));
    let mut root = JsonObject::new();
    root.insert(String::from_str("surrealql"), Json::Object(surrealql));
    Json::Object(root)
}

/// The initialization options for the language server, given the user's
/// `initialization_options` (`None` where the worktree's settings have none).
pub fn resolve_initialization_options(user_options: Option<Json>) -> (r: Json)
    ensures
        r@ == initialization_options(json_option_view(user_options)),
{
    let mut options = default_initialization_options();
    if let Some(user_options) = user_options {
        merge(&mut options, user_options);
    }
    options
}

} // verus!
