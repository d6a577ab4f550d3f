# glide

The logic of Glide, a dictation app (record, transcribe, clean up, paste),
as a Verus library: each function states what it does in `requires` /
`ensures` and Verus proves it.

## Layout

- `src/` — the verified library.
  - `text` — character-level string helpers (trimming, case-insensitive
    search, lowercasing) that the rest is stated over.
  - `provider`, `config/` — providers, credentials and the configuration
    (validation, prompt defaults, hotkeys, key storage and the keychain mirror).
  - `lifecycle` — the download registry: at most one run per model, stale
    runs have no effect, cancellation flags the current run.
  - `parakeet`, `local_models` — the on-device models: install plans,
    archive paths, progress, the Apple helper's answers and caches.
  - `catalog`, `defaults`, `remote`, `sorting`, `model_check` — the model
    pickers, smart defaults, provider listings and the check of the shipped
    model lists.
  - `pipeline`, `stt`, `llm`, `net`, `state` — one dictation: its steps,
    style choice, replacements, request building, retries and the shared
    app state.
- `tests/` — tests of the library, run against the compiled crate.
- `app/` — the unverified shell: configuration files, keychain, HTTP,
  helper processes, threads, and the parts that use floating point.
