# switchhosts

The backend logic of SwitchHosts v5, a hosts-file switcher, as a verified
Verus library, with the desktop shell around it in `app/`.

- `src/` is the library. Its functions are verified by Verus, except the
  small trusted wrappers (marked `#[verifier::external_body]`) that call
  `serde_json`, `reqwest` and a few std functions; each says in its doc
  comment what its contract takes on trust.
  - `json/`: a JSON document model (`JsonValue` and its view `Json`),
    lookups on it, and parsing / printing through `serde_json`.
  - `storage/`: the data directory's files (content files, the manifest
    tree of nodes, the trashcan), the tree operations (find, remove,
    insert, content ids) and their laws.
  - `hosts_apply/`: planning a write of the system hosts file (line
    endings, append mode, the unchanged check), the decisions after a
    direct or elevated write, and what each OS elevation helper's result
    means.
  - `import_export/`: what importing a v3 / v4 / v5 backup writes, the
    backup document an export writes, the data directory as a store, and
    the export/import round trip over it.
  - `version.rs`: the application version.
  - `http.rs`, `lifecycle.rs`, `app_menu.rs`, `commands.rs`: the proxy
    URL, the geometry-persist throttle, the menu placement of `Find…`,
    the fixed replies and menu routing of the command layer.
- `tests/` runs the library on concrete inputs.
- `app/` is the Tauri program: file and process I/O, the window and
  menu plumbing, and the command handlers, calling into the library for
  every decision.
