# oproxy (verified core)

The decision-making core of the oproxy inspection proxy, written in Verus:
every function in `src/` carries a `requires`/`ensures` contract over a
mathematical model (sequences of characters for text, `Seq`/`Map` views for
collections, `Json` for JSON documents) and is proved against it.

- `src/` — the verified library, one module per concern (`wire`, `engine`,
  `decompression`, `request_flow` for the proxy path; `auth`, `login`, `storage`, `config`,
  `env` for the management plane; `listing`, `traffic`, `metrics`, `diff`
  for captured sessions; `compose` for composed requests and WebSocket
  frames; `assistant`, `actions`, `contracts`, `tools`, `dispatch`, `chat`,
  `pending`, `compat`, `probe`, `fingerprint` for the assistant; `json`, `text`, `order` as shared models).
  Calls into `regex`, `similar`, `reqwest`/`http`/`url`, `serde_json`, `sha2`,
  `flate2`, `brotli`, `zstd` and `base64` sit behind small trusted wrappers
  whose contracts name or state what the crate returns.
- `tests/` — tests of the library on concrete values.
- `app/` — the command-line shell: loading the YAML configuration with
  environment overrides, JSON conversions, report rendering, and the loops
  that drive the library's state machines for a compatibility run and a
  chat turn against a chat provider.
