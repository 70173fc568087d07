# collab_board

The verified core of a collaborative whiteboard and quiz service, written in
Verus.

- `src/` is the library. Every function is verified except the small
  wrappers marked `external_body` that call bson, argon2, uuid, serde_json
  and std; their contracts are trusted:
  - `ident`: object ids as 96-bit numbers, their bytes and their text form;
  - `auth`: bearer tokens, session and account lookups, password checks with
    Argon2, signup, the `whoami` view;
  - `access`: who may see, update, share or delete a board or quiz, and the
    answers to requests for missing or forbidden documents;
  - `share`: resolving usernames, planning a grant or revocation, and what
    that change does to the stored grants;
  - `edits`: the fields an update overwrites;
  - `rooms`: the board server's rooms of websocket sessions;
  - `session`: admission to a board's room and the handling of client
    messages;
  - `records`, `error`, `config`: the documents, failures and settings.
- `app/` is the actix-web server and the MongoDB calls around the library.
- `tests/` runs the library on concrete values.
