# hurry

Really, really fast builds: a cache for what Cargo builds of a project's dependencies.

`hurry cargo build` asks Cargo which units a build consists of, restores those that the
cache has, runs the build, and saves the units that were built. The cache is a remote
service, or a directory on the local disk.

The logic of the tool is a library that is verified with Verus. What touches files,
processes and the network is a thin program around it.

## Layout

- `src/` is the verified library.
  - `cargo/` knows what Cargo writes: build plans, units and their files, fingerprints,
    dep-info files, the output of build scripts, and paths that do not depend on the
    machine.
  - `cargo/cache/` saves and restores units. A restore, and a save, is a session that is
    stepped through: each step says what is to be done next.
  - `cache/` is where content is stored, and under which names.
  - `cmd/` are the commands: what each does, in which order, and when it refuses.
  - `client.rs` and `cas.rs` are the requests to the remote service, and what its
    answers mean.
  - `text.rs`, `path.rs`, `sort.rs` and `hash.rs` are what the rest is made of.
- `tests/` are tests of the library.
- `app/` is the program.

## What is trusted

The library calls outside crates through small functions whose contracts are taken as
given: hashing (`blake3`, `rustc-stable-hash`), compression (`async-compression`),
hexadecimal text (`hex`), concurrent sets and maps (`dashmap`), addresses (`url`), and
the messages of Cargo (`cargo_metadata`). They stand in `stable_hash.rs`, `hash.rs`,
`zstd.rs`, `dash.rs`, `client.rs` and `cmd/debug.rs`, and each says what it claims. All
else in the library is proved.

Paths are Unix paths. On Windows every command is passed on to Cargo as it is.
