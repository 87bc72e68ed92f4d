# peer-registry

The peers of a rendezvous server: how they register a public key, how they are
looked up, and how a peer is given another id.

- `src/` is the verified library. It decides; it does not talk to anything.
  - `query`: the statements on the peer table and the values bound to them.
  - `database`: the configuration of the database, its errors, and the rename of
    a peer as a sequence of queries and replies.
  - `peer`: the peers in memory, registration, look-up and rename.
  - `table`: a model of the peer table, statement by statement.
  - `laws`: what holds of renames and registrations as a whole.
  - `text`, `json`: substring search, decimal counts and JSON strings.
- `app/` holds what surrounds it: SQLite connections, locks, the environment.
- `tests/` runs the library by itself and with a SQLite database in memory.
