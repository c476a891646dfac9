# demo

Session handling for a small account web site, verified with Verus.

`src/` is the library:

- `text`: the text operations the rest is built from (separator
  replacement, splitting, joining), each with its model.
- `headers`: the request headers as the `http` crate holds them, and the
  readability rule of a header value.
- `cookie`: the model of a `Cookie` header and its parsing, with the laws
  that a client's cookie header reads back the values it was given.
- `auth::views`: reading cookies from a request.
- `auth::check`: the session check, as steps: which key file to read and
  which token to open, and when the check is over.
- `auth::password`: PBKDF2 password hashes (through the `pbkdf2` crate).
- `auth::accreditation`, `auth::handlers`: the decisions of the login,
  sign-up and profile pages, the cookies and paths they write.
- `sqlx`: the same for the handler variant that keeps the key location in
  cookies; its law says that a login's cookies lead the session check back
  to the key file the login wrote.

`app/` is the server: pools, routes, database queries, key files, token
encryption and template rendering. `tests/` runs the library.
