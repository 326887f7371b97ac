# node_db

A database for EVM execution that answers with the latest chain state, and into which accounts, code
and storage slots can be put that the chain does not have.

- What was put in is marked custom and answered as it is. It is never overwritten by what the chain
  says; only the caller and execution change it.
- Everything else is fetched from the chain each time it is read, so it is never out of date. If the
  chain cannot be asked, its error is given.
- What a transaction changed can be committed to the database.
- The storage slots that are read can be recorded, to find out where a contract keeps a value.

## Layout

`src/` is the library, verified with Verus. Its contracts speak of `DbView`, the content of a
database.

| module | what it holds |
|---|---|
| `primitives`, `account`, `error` | the values that the database works on |
| `wide_map` | a map over 256-bit keys |
| `abi`, `hashing` | encoded words, Keccak-256, code hashes and mapping slots, through `alloy` and `revm` |
| `db` | the database and the model of its content |
| `backend`, `sync_db` | reads and insertions over a backend that answers at once |
| `steps` | the same reads and insertions in steps, for a backend that is awaited |
| `commit` | taking over what a transaction changed |
| `provider`, `bridge`, `search` | the decisions of a node's backend, of waiting on a runtime, and of a slot search |
| `laws`, `commit_laws` | what holds of the database as a whole |

`app/` puts the library behind revm's database traits and onto a reth node's own database, and holds
examples of its use. `tests/` runs the library, against the real outside crates where it calls them.
