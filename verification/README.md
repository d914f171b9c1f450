# knightingale_core

The decision-making core of Knightingale, a voice-dictation daemon and its
command-line client, written in Verus: the functions in `src/` carry a
`requires`/`ensures` contract that Verus proves (every public function does).

## Layout

- `src/` — the verified library.
  - `hotkey` parses bindings such as `super+k` and walks the per-platform
    fallback chain; `session` is the daemon's state machine (idle,
    recording, transcribing) and its request handling; `ipc` the protocol's
    responses.
  - `audio` trims edge silence and downmixes PCM; `scoring` and `metrics`
    count word, character and sentence errors (edit distance), and `edits`
    proves that distance the least number of single-element edits.
  - `config`, `env`, `secret` hold the configuration, its per-user paths,
    the `.env` rewrite and its permission check; `stt` the providers, client
    configuration, endpoints and error classification; `model` and
    `hardware` the model catalog, checksum check and recommendation;
    `report` the `doctor` and `config show` tables; `setup`, `focus`,
    `injection`, `status`, `cli` the remaining decisions of the client and
    daemon.
  - `text` and `number` are the string and integer helpers the rest is
    built on.
- `tests/` — tests run against the compiled library.
- `app/` — the `knightingale` binary: command-line parsing, prompts, files,
  sockets, microphone capture, HTTP, hotkey registration, typing and
  notifications, around the library's decisions. `knightingale daemon`
  runs the daemon.

Calls into other crates and into parts of `std` that Verus has no
specification for go through a few small wrappers marked
`#[verifier::external_body]`; their doc comments say what is assumed of
them.
