# db-operator

A Kubernetes operator for PostgreSQL databases and the grants on them. It
reconciles `DatabaseServer` and `Database` resources, and optionally creates and
deletes databases on the referenced servers.

## Layout

- `src/` decides. It is written in Verus, and every function states what it
  returns. A pass over a resource is a machine: it asks for one thing at a time
  (a statement to run, an event to publish, a secret to fetch, a status to
  write), and is resumed with the answer.
  - `controllers/database/plan.rs` says which tasks a pass over a database has,
    `pass.rs` how it goes through them, `laws.rs` and `progress.rs` what holds of
    every pass, whatever it is answered.
  - `controllers/database_server/pass.rs` and `laws.rs` do the same for servers.
  - `connection.rs` and `controllers/secrets.rs` resolve connection details.
  - `outside.rs` holds the contracts of what comes from other crates.
- `app/` performs. It talks to the cluster and to the servers, and hands the
  answers back. `crdgen` as its first argument prints the resource definitions.
- `tests/` runs the passes on concrete values.

## What is shown of a pass

- Only databases and users of usable names are named in statements, and a
  comment cannot leave the string that it is written into.
- Creation and deletion are optional, and a created database is not created
  again.
- A pass runs the planned statements, in order and without others, by the time
  it writes the status, and the status tells what was seen.
- A failed statement or an unreachable server does not fail a pass; only an
  event that cannot be published or a status that cannot be written does.
- Every pass ends.
