# convergio-ceo

A routing engine: it takes an instruction in natural language, has a language model pick a tool of
the daemon and its parameters, validates them, calls that tool, and answers with what came of it.

- A reply that cannot be parsed, that leaves out a required parameter, or that would put a dot
  segment into a path, goes back to the model once, with the error. If that fails too, the answer is an error with a suggested correction.
- Where the model cannot be asked, the local model is; where that cannot be asked either, keywords
  decide; where they lead nowhere, the answer carries the full tool list.
- A circuit breaker holds calls of the model back while more than five percent of the calls of the
  last ten minutes fail. Keywords decide meanwhile. After five minutes it lets one probe through.
- Every routing is reported to the daemon once, and gives one record for the audit log. It holds the
  tool that was chosen, whether or not the call was made or succeeded.

`src/` is the library, verified with [Verus](https://github.com/verus-lang/verus). It plans every
step and sends nothing: `CeoEngine::route_instruction` gives the first step, `CeoEngine::advance`
the next one from what came of the request before it.

| Module | What it holds |
|---|---|
| `text` | string operations and the functions on character sequences that they compute |
| `json` | JSON values, lookup, compact text |
| `types` | tool entries, routing results, responses |
| `http` | requests to the daemon and their outcomes, as plain values |
| `ceo_helpers` | tool definitions, menu and prompt, replies of the model, suggestions, path parameters |
| `ceo_fallback` | the keyword table |
| `ceo_dispatch` | the request that calls a tool |
| `engine` | the engine and its steps |
| `ceo_routes` | the answer that is sent back |
| `ceo_audit` | the audit log and the circuit breaker |
| `laws` | what holds of the library as a whole |

What the proofs rest on without proof is small: one item each for `String::push`,
`str::to_lowercase`, the string display of `serde_json`, `regex_lite`, `urlencoding::encode` and the
clock. Each says in its doc comment what it claims.

`app/` is ordinary Rust around the library: the HTTP client and server, the database, shared state,
and the JSON parser that `CeoEngine::advance` is handed. `tests/` runs the library.
