# peryx-ecosystem-pypi

The PyPI side of a package index: what it reads from upstream Simple API pages, what it stores about
projects and uploads, which files its policy lets through, and how it answers package installers,
uploaders and browsers. Verus proves every function of the library, against a contract of its own where it has
one; what is assumed of other crates stands in one module.

- `src/simple`, `src/stream` - Simple API pages: their model, their JSON, and the transformer that rewrites
  a page chunk by chunk while it arrives.
- `src/store` - the rows of the store as transformations of a transaction: pages, projects, uploads,
  overrides, attestations, the journal, the derived summary, its audit and its repair.
- `src/policy`, `src/policy_engine`, `src/source_policy`, `src/quota`, `src/retention` - what may be served,
  uploaded and kept.
- `src/serving` - requests and their answers, as decisions on plain values.
- `src/search`, `src/shadow`, `src/simple_client`, `src/serial`, `src/sync_lock` - what search indexes, what
  shadowing hides, what an upstream answer means, and how serials and syncs are ordered.
- `src/outside` - the calls into other crates and into parts of std, each with the contract that is assumed, and
  not proved, of it.
- `app` - serde, axum and reqwest around the library.
- `tests` - the library on concrete values.
