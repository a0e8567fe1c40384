# XaeroFlux

An event sync engine for meshes of peers. Nodes exchange events over gossip, learn from each other
which groups they are in, hand snapshots of groups to newcomers, share blobs, and publish how they
are found.

- `src/` is the library: every decision that a node takes, written in Verus and proved against its
  contracts. What it takes from other crates (digests, signatures, the reading of JSON and of
  identifiers, the clock, randomness) stands behind small functions whose contracts are believed;
  each says above it what is claimed.
- `app/` is the bootstrap program around the library: sockets, the database, files, timers.
- `tests/` runs the library with the real crates.

The laws of the library, those that relate several functions, are the public proof functions whose
names start with `law_`.

To build the program, add `iggy`, `iroh-gossip`, `rusqlite` and `iroh`'s feature
`discovery-local-network` to the dependencies: `Cargo.toml` lists what the library and its tests
need.
