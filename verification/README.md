# surrealql_zed

SurrealQL support for the Zed editor: the part of the extension that decides
how the SurrealQL language server is started, as a verified Verus library.

- `src/json.rs`: JSON values, whose objects keep each key once and in key
  order, and the recursive merge of user settings into defaults.
- `src/json/laws.rs`: the merge's laws (key-by-key merge, leaves of the
  overlay win, untouched base values stay, idempotence, well-formedness,
  overlays with disjoint keys commute).
- `src/text.rs`: Unicode white-space trimming and the order of keys.
- `src/config.rs`: names of the server, its repository and the pinned release.
- `src/lsp/`: the settings read from Zed, the default initialization options,
  the release asset for each platform, and the state machine that finds or
  downloads the server binary, with the law that driving it gives the same
  outcome as one pass of resolution.
- `src/extension.rs`: the answers the extension gives Zed.
- `app/lib.rs`: the Zed extension itself; it reads settings, performs the
  resolver's actions through Zed's API and converts values.
