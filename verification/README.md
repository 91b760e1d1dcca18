# Rescope

The logic of a standalone emulator for an authentication API, written and proved in Verus:
signing up and in with a password, sessions and their revocation, a two-screen sign-in flow,
seeding, project snapshots, and the log line of each request.

## Layout

- `src/` is the verified library.
  - `routes/` holds one decision function per endpoint. A handler takes the request and what has
    been done for it so far, and says what is to be done next: ask a store, sign a token, or
    answer. Its contract is a relation (`signin_is`, `next_is`, ...) that pins the step down for
    every combination of answers.
  - `routes/auth/laws.rs` states what holds across the handlers; the other laws stand at the end
    of the module that they are about, as `law_...`.
  - `store/` holds the flow executions and the boundaries of logouts from everywhere, one store of
    them for refresh tokens and one for session tokens.
  - `request_log.rs` classifies requests, captures bodies up to a cap and assembles the line.
  - `passwords.rs`, `json.rs` and `headers.rs` hold the calls into bcrypt, serde_json and http,
    each with the contract that is relied upon.
- `tests/` runs the library, with small in-memory stores in place of the real ones.
- `app/` is the axum side: it performs the steps on a `Backend` and hands the outcome back.

The page assets of the flow (`config.json`, `signIn.html`, `signInPassword.html`) are handed to
the app as part of its configuration.
