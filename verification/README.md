# rite

A minimal event-to-action runtime. Authenticated events are normalized, matched
against configured handlers, and forwarded to HTTP actions.

`src/` is a library verified with Verus: every function states what it returns
and changes, and the properties that hold across functions are public proof
functions next to them.

| module | what it holds |
| --- | --- |
| `matching` | handlers, match tables, condition trees, and when they hold |
| `template` | `{{field}}` templates |
| `action` | the HTTP request of a matched handler |
| `source`, `github`, `uptime_kuma` | webhook verification and normalization |
| `iris`, `message`, `sse` | the Iris subscription: settings, messages, frames, reconnection |
| `config` | configuration, its diagnostics, and what load errors may show |
| `dispatch` | application state, webhook reception, read operations, counters |
| `codegen` | settings and commands of the code generation |
| `signature` | HMAC tags, hexadecimal and base64 text |
| `json`, `time`, `table`, `text`, `event`, `error` | data types and text operations |

Functions marked `#[verifier::external_body]` call an outside crate or the
standard library. Their doc comments say what is taken on trust.

`app/` is the program around the library: the command line, the TOML form of the
configuration, the HTTP server, the outgoing requests, and the event stream.
`tests/` runs the library with the real outside crates.
