# quire_cli

The command-line front end of the `quire` document engine: `quire validate`,
`coverage`, `trace`, `symbols`, `properties`, `clauses`, `assurance`, `lookup`,
`lint`, `fix`, `update` and the rest. The engine parses, validates and binds;
this crate decides everything around it: which inputs are accepted, how paths
are guarded, how each report renders, and what a run amounts to.

## Layout

- `src/` is the library, written in Verus. Functions that compute state what
  they return in their `ensures`, over spec functions on sequences of
  characters, and Verus proves it. Where the answer comes from the file
  system (`spec_root_of`, the `validate_*_path` guards), the contract states
  what holds whatever the file system says, and a separate function that
  takes the file system's answer as an argument states the rest exactly
  (`root_outcome`, `resolution_result`, `out_outcome`, `classify_io`). The emitters that write to stdout or
  stderr return nothing; what they write is computed, and specified, by the
  line-building functions they call. Laws that relate several calls are
  public proof functions named `law_*`.
  - `text`, `tsv`: character-level helpers and the TSV record shape.
  - `safety`: the path guard (no `..` component, resolution, kind of entry).
  - `lockfile`, `engine`: the engine version read from a lockfile, and the
    provenance block built from the CLI's version and that lockfile (the
    binary hands both in, read at build time).
  - `io`: diagnostics formats, colour choice, the stderr line of a diagnostic.
  - `coverage`, `trace`, `symbols`, `properties`, `clauses`, `assurance`,
    `validate`, `lookup`, `lint`, `fix`: the decisions and renderings of each
    subcommand, over plain-value records of the engine's reports.
  - `self_update`: the install-channel detection and the update state
    machine.
- `tests/`: ordinary Rust tests against the library.
- `app/`: the binary: argument parsing, file and process I/O, the engine
  calls, and the conversions from the engine's types to the library's.

Calls into outside code that the library makes (`serde_json`, `glob`, a few of
`std::path`) sit behind small trusted wrappers whose contracts are stated in
their doc comments.
