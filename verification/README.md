# realtyflow

The request-handling rules of a small real-estate agency back office (properties,
owners, clients, deals, reports), written in Verus with their contracts proved.

- `src/` is the verified library: sessions and roles (`auth`), form rules and stored
  values (`forms`), the property search filter (`search`), audit rows and the outcome
  of a change (`audit`), page frames (`pages`), errors and their HTTP answers
  (`error`), report exports (`export`, `reports`), the administrator's SQL console
  (`console`, with `json` for reading result rows through `serde_json`), and the text
  helpers they share (`text`).
- `app/` is the web server around it: axum routes, PostgreSQL queries through sqlx,
  askama page templates, and the conversions between HTTP and database values and the
  library's types.
- `tests/` runs the library on concrete values.
