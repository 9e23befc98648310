# mor_lms

A local-first spaced-repetition vault, written in Verus: the data formats,
the encryption envelopes, keyslot management, the progress database and the
decisions of the authentication flows and the native-messaging host carry
contracts that Verus proves.

## Layout

- `src/` — the verified library.
  - `keyvault/` — the DEK vault: the `.enc` header and DEK manifest formats
    (`format`), the chunked ChaCha20-Poly1305 STREAM file (`bulk`), the
    age-wrapped keyslots (`age_keys`), the sibling file names (`paths`) and
    the operations `init`, `open_to`, `enroll_device`, `rotate_dek` (`vault`).
  - `envelope` — the password envelope (Argon2 + ChaCha20-Poly1305) and the
    local crypto provider's session.
  - `tracker` — node kinds and the progress database (`Vault<S>`).
  - `srs` — the integer part of the SM-2 schedule and the review grades.
  - `schema`, `text` — decks, cards and cards mined from page extracts.
  - `auth`, `session` — OIDC / Web3 / Steam flows and the Rauthy adapter's
    decisions (CSRF state, PKCE verifier, session expiry, redirect parsing).
  - `bridge`, `sensor`, `desktop` — the native-messaging host's decisions,
    the browser sensor's payloads, panel and stored vault, and the desktop
    shell's view state.
- `tests/` — tests run against the compiled library with the real outside
  crates.
- `app/` — the programs around the library: file, network and keyring I/O,
  terminal and native-messaging front ends, serde formats and the
  floating-point SM-2 ease arithmetic.

Calls into `age`, `chacha20poly1305`, `argon2`, `base64`, `rand` and `std` that the
library makes stand behind small trusted wrappers, each with a doc comment
saying what its contract claims of the call.
