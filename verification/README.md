# cozo-bin

An HTTP server and a command-line client for the CozoDB database, with their
logic verified by Verus.

## Layout

- `src/` — the verified library.
  - `json.rs`: the JSON model that every request body and reply is built in,
    with its view `Jv`; `Json::set` and the law that a field reads back what was
    set.
  - `paging.rs`: offset/limit paging of result rows and its laws.
  - `text.rs`: joining, trimming, splitting (with the law that splitting then
    joining gives the text back).
  - `script.rs`: the CozoScript system commands the backends run, and the
    escaping of quoted literals (with its round-trip laws).
  - `engine.rs`: the calls that reach the database engine (trusted wrappers),
    each handing back a record of what it was handed (`Database`, `Asked`,
    `Tx`, `Done`, `ExportAsked`); only these calls fill the records in.
  - `db.rs`: the cells and results of the engine as this crate holds them
    (`DbRows`, with its chained results), and `Ran`, `Exported` and `Parsed`,
    whose type invariants tie what this crate holds to the engine's answer.
  - `reply.rs`: the JSON replies: results, errors, query pages, validation,
    health, batches, schema listings, exports.
  - `embedded.rs`: the backend that runs the database in this process.
  - `remote.rs`: the backend that talks to a server: each request as method,
    URL, token and JSON body.
  - `api.rs`: the server's handlers, one per endpoint, and the endpoint
    listing.
  - `cli.rs`: what the client prints of a reply (JSON, JSON lines, CSV, table),
    and the parsing of its arguments.
- `tests/` — the tests, run against the compiled library.
- `app/` — the program: command-line parsing, the HTTP server (`axum`), the
  HTTP client (`minreq`), files and standard input/output.
