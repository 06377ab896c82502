# ileap

A command-line client for the iLEAP API (shipments, TOCs, HOCs, transport
activity data, aggregated emissions and PACT footprints), split into a
verified library and a thin program around it.

- `src/` — the library, verified with Verus:
  - `error.rs`: error kinds, exit codes and the structured error document;
  - `auth.rs`: token-cache file names (injective, single path component),
    JWT payload and claims, token freshness, `auth` documents;
  - `login.rs`: the credential chain of API commands and the `auth login` flow
    as a state machine;
  - `client.rs`: request URLs and query parameters, dry-run documents, the
    retry policy, authentication headers and failure messages;
  - `commands.rs`: record counting, page merging, pagination and the
    decisions of each resource command;
  - `json.rs`, `text.rs`, `cli.rs`: JSON values, string helpers and the
    command-line model.
- `app/` — the program: argument parsing, terminal prompts, token files,
  HTTP with `reqwest`, JSON parsing and printing.
- `tests/` — tests of the library.
