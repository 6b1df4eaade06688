# webability_rust

Client for the WebAbility HTTP API (managed DNS, mail), verified with Verus.

- `src/` is the verified library: request signing (`build_message`,
  `WaApi::digest`, `WaApi::sign` and the `get`/`post`/`put`/`delete` helpers),
  the DNS paths and JSON bodies (`dns`), percent-encoding of path segments,
  the interpretation of the server's replies (`interpret_reply`), and the mail
  service stubs. HMAC-SHA256 comes from the `hmac`/`sha2` crates and JSON string
  quoting from `serde_json`, each behind one trusted wrapper.
- `app/` is the transport: it reads the clock, sends the signed requests with
  `ureq`, and decodes JSON replies with `serde`.
- `tests/` exercises the library on concrete values.
