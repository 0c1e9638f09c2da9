# Bero Admin — verified core

Bero Admin is an htmx admin dashboard (Axum, SeaORM, Redis). This crate holds
its decisions and renderings as a Verus library, each with a contract proved
by Verus; the server around it lives in `app/`.

## Layout

- `src/` — the verified library:
  - `rbac` — the permission matrix, a user's permissions through their roles
    and the authorization decision;
  - `rbac_toggle` — the writes that flip one cell of the matrix, with the
    proofs that a toggle changes exactly that cell, never touches the cells of
    other roles, and that the matrix is what authorization enforces;
  - `login` — login throttling (failure counting and lockout) and the login decision;
  - `auth` — session validity, access to protected pages, the permission
    guard of handlers (401 / 403 and their texts), cache keys;
  - `csrf` — the double-submit cookie decision and the constant-time comparison;
  - `dto` — form and query validation (lengths, username shape, email, status),
    form bodies, audit filters and page count;
  - `views`, `time` — dates, relative times, badges, CSV export lines;
  - `services`, `sidebar`, `pages`, `pagination`, `notify`, `config`, `ui` —
    the remaining rules of the screens;
  - `text`, `ids`, `security` — text helpers, UUID text, HTML sanitizing
    (through ammonia).
- `tests/` — tests of the library on concrete values.
- `app/` — the HTTP server: routes, middlewares, database and cache access,
  templates. It reads the stored rows, hands them to the library and writes
  the outcome back.

Instants are microseconds since the Unix epoch; UUIDs are their 128-bit value.
