# sysand

The verified core of sysand, a package manager for SysML v2 and KerML
interchange projects. Every function in `src/` carries a contract that
Verus proves. The command line in `app/` is partial: it reads the
`SYSAND_CRED_*` variables and runs `sysand index init`, `yank` and `remove`,
reading and writing the index files around the library.

Modules:

- `purl`: the `pkg:sysand/<publisher>/<name>` identifiers: validation,
  normalization, parsing.
- `versions`: semantic versions and requirements (through the `semver` crate).
- `index_store`: the documents of a static index (`index.json`,
  `versions.json`) and the operations that publish, yank and remove releases.
- `url_model`, `index_location`: index locations, plain base URLs or URL
  templates with a `{path}` / `{path_raw}` placeholder.
- `http_index`, `discovery`, `indexed_remote`: the client side of the index
  protocol: document URLs, what is accepted of a `versions.json`, discovery of
  the index and API roots, and reconciliation of fetched metadata.
- `error`, `types`, `facade`, `bindings`, `cli`, `credentials`: the public
  error type, options, and the decisions made by the library's entry points,
  its language bindings and its command line.
