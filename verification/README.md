# substrate

The decision logic of `subs`, a multi-source package manager for macOS
(Homebrew formulae, npm and pip packages, and vendor-provided packages),
written in Verus with its behaviour stated in contracts and proved.

## Layout

- `src/` — the verified library (crate `substrate`):
  - `cli` — command-line dispatch, argument parsing for every subcommand,
    usage texts, `+formula` and `tool@version` tokens.
  - `request`, `names`, `resolve` — package requests, qualified names, alias
    tables, npm/pip name rules, install roots, and resolution through the
    Homebrew executable database.
  - `vendor` (and `vendor/*`) — the registry of vendor packages: names,
    executables, dependencies, release feeds, download URLs, install strategies.
  - `info`, `layout` — package statuses, sources, aliases and the `info` card,
    with the text wrapping and box drawing it uses.
  - `stubs`, `post_install_hooks`, `install` — stub scripts and shell quoting,
    which stubs to write or remove, post-install steps, and the steps of an
    install as a state machine.
  - `order`, `text`, `version` — name ordering and sorting, string helpers,
    semantic versions.
- `tests/` — tests run against the compiled library.
- `app/` — the `subs` program: reads arguments, files and the network, and
  hands plain values to the library.

## What the program does not do

The library decides; `app/` performs. Some of the performing is not part of
this project:

- Installing a package (`subs i`, and `subs update` for outdated packages) and
  running a tool ephemerally (`subs run`/`subs x`) need a Homebrew bottle
  installer (bottle download and relocation, dependency graphs, staging). This
  program does not carry one, so once the request is parsed and resolved (and,
  for installs, the root check passed) these commands end with an error that
  says so. The steps of an npm, pip or vendor install are modelled in
  `install` as a state machine, but `app/` does not drive it.
- `subs update` does not update `subs` itself and takes no lock against
  concurrent changes to `/opt`; it reinstalls the outdated packages it finds,
  which ends in the error above.
- The Homebrew executable database (`db.json`), the alias table
  (`aliases.json`) and the Homebrew formula aliases (`formula_aliases.json`)
  are read at run time from a data directory (`$SUBSTRATE_DATA_DIR`, by
  default `/usr/local/share/substrate`) rather than built into the binary; help
  and version requests are answered without them.
