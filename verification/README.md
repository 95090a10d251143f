# asap

Generation and validation of ASAP tokens (JSON web tokens signed by a
service, with an issuer, an audience, a nonce and a short lifetime),
verified with Verus.

Layout:

- `src/` — the verified library:
  - `claims` — the claims of a token, their JSON text and cache key, and
    the claims builder;
  - `json` — claim values and the JSON text written for them;
  - `generator` — signing tokens, with an optional token cache;
  - `validator` — the ASAP checks on incoming claims, the validator
    builder, the key cache and nonce memory, and the laws they obey;
  - `keyserver` — keyserver errors, HTTP keyserver settings and the
    decisions of a key lookup;
  - `jwt`, `util`, `cache`, `text` — the calls into `jsonwebtoken`, `pem`,
    `rand`, `chrono`, `lru_time_cache` and std, each behind a contract;
  - `cli` — the logic of the command line tool;
  - `key_host` — the decisions of the keyserver used in tests.
- `app/` — the command line tool and the network side: argument parsing,
  files, HTTP requests, and the test keyserver.
- `tests/` — tests of the library on concrete values, and tokens signed and
  validated end to end with keys generated for the tests.
