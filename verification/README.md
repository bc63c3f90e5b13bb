# common-rust

The shared crates of one deployment, as a single library whose logic is
verified with Verus:

- `config` — the layered configuration loader: the schema a struct registers,
  argv parsing, the TOML file, the environment, the precedence merge, typed
  reads with their refusals, `--help` and `--print-config`, and the prod/dev
  class check, run at load under the deployment the loaded struct reports.
- `logging` — the logging vocabulary: designators and their filter, level
  parsing, the resolved logging configuration, request ids, and the human
  line format.
- `oidc` — identity and authorization: the caller, the predicate algebra,
  the session and login-flow stores, the redirect and callback decisions,
  session resolution, bearer validation's status rules, and the config
  section.
- `names` — planning the rename statements a name feed asks for, and the
  sync cursor arithmetic.
- `secrets` — the secret store's URLs, form, status rules and kv fields.
- `routing` — the signature analysis behind client-exported handlers.

`src/` is the verified library. `app/` is the plain Rust around it: reading
the process, installing the tracing subscriber, the axum routes and
extractors, HTTP and SQL, and the token work of the derives.
