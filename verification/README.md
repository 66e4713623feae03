# saelora

A small chat service ("Saelora") with invite-only accounts, login links by
mail, scheduled ("hourly", "daily", "weekly") conversations, and a memory of
earlier conversations built from summaries and embeddings.

- `src/` is the verified library: settings and their normalisation, the
  e-mail lists, account and token rules, rate limiting, origin checks, the
  decisions of the HTTP endpoints (the store queries and their sequencing
  stay in app/), server-sent-event framing, the planning of
  conversation summaries, and the administration console: its state, what
  every key and every finished background job does to it, and its prompt
  editor. Calls into
  outside crates (hashing, randomness, the clock, URI parsing, character
  widths) go through a few trusted wrappers whose contracts say what the
  crates document.
- `tests/` exercises the library.
- `app/` is the program around it: command line, logging, the axum server,
  the SQLite stores, the backend and Mailjet clients, background memory
  workers, and the terminal loop of the console (drawing, and running the
  jobs the library hands out).
