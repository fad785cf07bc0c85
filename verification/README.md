# worldsync

The verified core of a service that keeps the world of a game server in
sync between the players who take turns hosting it: a central server keeps
the saves and the accounts, and a desktop client downloads the world before
hosting and uploads it afterwards.

- `src/` is the library, written in Verus. Every function carries a
  contract, and the laws of the library (what an update does to a
  directory, how the host life cycle moves, what a session resolves to,
  that a stored password opens its account, ...) are public proof
  functions.
  - `sync`: directory listings, saves, the update that turns a directory
    into a save, and building new saves.
  - `world`: a save with its per-platform executables; hosting checks.
  - `protocol`: the values client and server exchange, with their texts.
  - `host`: the host life cycle as a state machine.
  - `sessions`, `rpc`, `userdb`, `admin`: sessions, request checks,
    accounts and the administration tool's decisions.
  - `peer`: where a connection comes from (proxy protocol headers).
  - `client`, `transfer`, `mc`, `download`, `localjava`: the client's
    decisions, its world transfers, watching the game server it runs, the
    java download and the local java install.
  - `text`, `paths`, `logging`: number and address formatting, paths,
    and which log records are reported.
- `tests/` runs the library on concrete values.
- `app/` is a small command line program around the library: listing
  directories, reading the local java version, managing the account
  database, editing an account, mirroring one directory into another
  through an object store, and reporting where connections come from.
