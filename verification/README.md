# anchorkit

The AnchorKit command-line tool for Soroban anchor management, with its
logic written in Verus and proved against its contracts.

- `src/` — the verified library:
  - `text` — whitespace, trimming, word and separator splitting, decimal
    digits, `u32` parsing, UTF-8 prefixes;
  - `version` — reading `rustc --version` and the minimum toolchain;
  - `timefmt` — `"{d}d {hh}h {mm}m {ss}s"` rendering of seconds;
  - `config` — configuration file names, the order in which a directory is
    checked, and the JSON/TOML syntax checks (through `serde_json` and `toml`);
  - `doctor` — the decisions behind the environment diagnostics;
  - `register` — the `--services` list of `register`;
  - `rpc` — settings, Stellar addresses, secret keys and session operations;
  - `audit`, `session` — fetching audit entries (page by page) and sessions,
    and rendering them as text blocks and CSV;
  - `ledger` — what the contract's audit log holds, page by page;
  - `commands` — what `audit list`, `session list` and `export-audit` print,
    on which stream, and with which exit status.
- `app/` — the `anchorkit` binary: `clap` arguments, environment variables,
  files, child processes, JSON output through `serde`, and printing.
- `tests/` — tests of the library on concrete values.
