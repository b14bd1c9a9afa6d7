# Cloud Spanner connector

A connector that opens sessions on Cloud Spanner databases, executes statements in them and describes
their tables, over the REST interface of the service.

- `src/` is the library, verified with Verus. It does no input or output: it builds the requests, reads
  the replies and decides what comes next. Each function says in its contract what it returns, and the
  public proof functions state what holds of several of them together.
- `app/` is ordinary Rust around it: the network, the files, the clock, the variables of the
  environment, and the interface to the host.
- `tests/` runs the library on concrete values.

| Module | Subject |
| --- | --- |
| `text`, `encoding`, `redaction` | texts, base64 and percent-encoding, masking of secrets |
| `json`, `http`, `reply` | JSON values, requests and replies, answers to the host |
| `config` | the settings in a request |
| `credentials`, `jwt` | access tokens and signed assertions |
| `connect`, `world` | making a connection, step by step, and what it leads to |
| `connections`, `connector` | the open connections and the methods on them |
| `session`, `metadata` | statements, their output, and the description of a database |
