# saas-api

The verified core of a multi-tenant SaaS back end: sign-up and sign-in rules,
TOTP multi-factor authentication with recovery codes, session cookies and CSRF
checks, password reset tokens, tenant member administration, the platform
console's tenant summary, Stripe request building and webhook verification,
and the service configuration.

- `src/` is the library, written in Verus. Its functions carry contracts
  and are proved against them, except the small functions that call the
  cryptographic and encoding crates (in `crypto.rs` and `encoding.rs`) and
  `text::push_char`: their contracts state what those crates and std
  document, and are trusted, not proved.
- `tests/` runs the library on concrete values.
- `app/` is the HTTP server (axum, sqlx, lettre, reqwest): it reads requests
  and the database, hands plain values to the library and acts on what it
  decides.
