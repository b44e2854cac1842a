# grove

`gv` manages a set of Git repositories declared in `grove.toml`: it clones
what is missing (through a local clone cache), fast-forwards default
branches, reports status, and records existing worktrees in the file.

- `src/` is the library, verified with Verus: configuration loading and
  validation, repository selection, the decisions of `sync`, `refresh`,
  `status`, `add` and `clone`, clone-cache naming, and the text the command
  line prints, with credentials taken out of URLs in messages. Git,
  zoxide, the file system, the clock and progress display
  are reached through traits whose answers carry no contract; each run
  states its result as a function of some answers to the questions it asks
  (for instance `checked`, `settled` and `synced` for `sync`), and those
  functions are exact. TOML parsing (`toml`), the formatting-preserving edit of
  `grove.toml` (`toml_edit`) and terminal widths (`unicode-width`) are
  called through small trusted wrappers whose contracts are stated where
  they are declared: the parsed TOML and the terminal width by name, the
  edited document over a model of its tables, its parsing and its
  rendered text by name.
- `app/` is the command line: argument parsing (`clap`), terminal output
  (`anstream`, `owo-colors`, `indicatif`), the Git and zoxide command
  clients, the clone cache on disk, and the replacement of `grove.toml`
  through a temporary file (`tempfile`).
- `tests/` exercises the library from outside, with in-memory stand-ins for
  Git, zoxide and the file system.
