# kubyl_kubeconfig

The logic of a kubeconfig editor, verified with Verus: create and edit kubeconfigs, test a
context before saving, and save without breaking the file for kubectl.

- `src/` is the library. Every function states what it returns or changes, and Verus proves it.
  - The document: `value`, `json`, `paths`, `document`, `model`, `names`, `edits`, `transfer`,
    `users`, `fields`, `exec`, `credentials`, `locations`, `schema`.
  - Checks: `pem`, `certs`, `addresses`, `issues`, `validate`, `commands`.
  - Files: `files` decides names, backups and whether a changed file may be replaced.
  - Connections: `tls`, `conntest`, `report`, `test_run`, `watches`.
  - Imports: `import`, `manifests`, `cloud`.
  - State and the editor: `state`, `consent`, `table`, `settings`, `editor`, `moves`.
  - What views and dialogs show: `editor_view`, `form_view`, `forms`, `dialogs`, `panel`,
    `clusters_view`, `switcher`, `paste`, `sign_in`, `openshift_sign_in`, `sa_dialog`, `widgets`.
  - What holds across functions: `laws`, `issue_laws`, `masking_laws`, `shape_laws`, `transfer_laws`, and the
    public proof functions at the end of other modules.
  - `outside` holds the calls into other crates. Their contracts are taken on trust.
- `tests/` runs the library.
- `app/` is the ordinary Rust around it: files, the network, the cluster's API, and the types
  that serde reads. `app/host.rs` lists what it needs from the program it is part of.
