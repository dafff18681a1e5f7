# VanceSender

A sender of FiveM `/me` and `/do` role-play lines, with AI text generation,
presets, statistics and an HTTP API, whose logic is written in Verus and
proved against its contracts.

## Layout

- `src/` — the verified library (`vancesender`). Every executable function
  carries `requires`/`ensures` over mathematical models (`Seq`, `Map`, the
  `Yaml` tree), and the laws that span several functions stand there as
  public proof functions (`law_*`).
  - `yaml`, `config`, `config_defaults`: the configuration tree, typed
    lookups, the deep merge and its laws (lookup, replacement, kept keys,
    idempotence), reading and writing the configuration file's text,
    provider management and the built-in configuration.
  - `json`: JSON text read into the same value tree, and written back.
  - `presets`, `history`, `ai_history`, `stats`, `notifications`: the stores.
  - `sender`: the batch sender as a state machine (`BatchRun`): each answer
    (focus, cancel, clipboard) gives the keystrokes to perform and the next
    question; each line gets one attempt plus `retry_count` retries.
  - `ai_client`, `ai_stream`: provider choice, prompts, request building,
    reply parsing, the server-sent-event decoder and the stream relay.
  - `update_checker`, `public_config`, `port_guard`, `startup`, `network`:
    the decisions of the update check, the announcement fetch, the startup
    port check and the listening address.
  - `gui`, `status_overlay`, `quick_overlay`: window state, notices, the
    overlay's timing and placement, and hotkey polling.
  - `api`: token checks, query parsing and the request rules of the HTTP API.
- `app/` — the program around the library: the command line, the HTTP
  server (axum), file storage, network requests (reqwest) and the keyboard
  side. It runs headless; it performs what the library decides.
- `tests/` — tests of the library on concrete values.

## Trusted calls

Calls into other crates (`regex`, `chrono`, `uuid`, `serde_json`,
`serde_yaml`, `url`) and a few `std` string functions are reached through
small `#[verifier::external_body]` wrappers whose contracts state what those
functions return; where that takes pages to state, the result is given a
name (`pub uninterp spec fn`) and the library's own contracts speak of it.
