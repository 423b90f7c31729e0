# kakapo

The rules of the kakapo data server as a verified library.

- `src/` is the library, with its proofs: permissions and the guards of
  actions, the history of table schemas and its replay (with its laws in
  `history.rs`), the SQL text of schema changes and of row statements,
  rows kept in name order, table data layouts, the answers of entity
  actions, session claims and tokens, and channels.
- `tests/` runs the library on concrete values.
- `app/` holds what the library does not decide: the JSON forms of its
  types, statements sent to PostgreSQL, password hashing, token signing and
  the embedded Python interpreter.
