# warden_twofactor

Two-factor authentication for a Bitwarden-compatible vault on Cloudflare Workers, as a verified
library: TOTP, emailed codes, YubiKey one-time passwords and WebAuthn keys.

`src/` is verified with Verus. It decides what every request does; it performs no input or output.

- `handlers/twofactor.rs` starts requests. Each returns a `Step`: an `Action` to perform and the
  `Flow` to go on from, or the end of the request.
- `handlers/gate.rs` goes on: `step` takes a `Flow` and the `Event` that answers its action. The
  password of a signed-in user is checked there before anything else is done.
- `handlers/{totp,email,yubikey,webauthn}.rs` hold the rules of the providers, `handlers/commit.rs`
  the changes that a request makes, and `handlers/laws.rs` what requests that succeed have done.
- `exchange.rs` lists the actions and the events, `store.rs` the statements and what they do to the
  records.
- `webauthn.rs` and `yubico.rs` hold the WebAuthn ceremonies and the YubiCloud protocol, `mail.rs`
  the emails.
- `models/` holds the records and the bodies of requests, `error.rs` the errors and their words,
  `json.rs` the documents that clients are answered with.
- `sorting.rs`, `text.rs`, `cbor.rs` and `crypto.rs` are what the rest is built on.
- `outside.rs` declares the functions of other crates that the library calls, with what it relies on
  of each of them. Nothing else is taken on trust.

`app/` is the Worker around the library: HTTP handlers, the database, outbound requests and JSON. It
performs the actions and hands back the events. What the rest of the service provides (accounts,
passwords, TOTP, signatures) it takes from a `Host`.

`tests/` runs the library.
