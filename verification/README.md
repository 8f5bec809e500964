# bulls

A verified core for BullSaddle, a local inventory of Git repositories and
working trees: discovery and reconciliation of repositories, observation of
their Git state, read models and advisories over what was observed, the
versioned JSON protocols, and the command-line grammar with its exit codes.

The functions under `src/` are checked by Verus against their `requires` /
`ensures` contracts, but for three small wrappers around the standard library
(UTF-8 decoding, building a `String` from characters, building a `Duration`),
whose contracts are trusted. The ports in `src/ports/` are the traits through which the
core reaches the filesystem, Git, the clock and the state store; their
implementations live outside this crate. The ports promise nothing, so the
operations keep a ghost record of each call they make and the answer they
got, and their contracts say how every answer is used: what is asked next,
what becomes an issue or a failure, and what is returned.

Layout:

- `src/` — the library. `identity`, `path`, `time`, `git`, `topology` and
  `observation` model the domain; `discovery`, `observe` and `reset` run the
  operations over the ports; `projection`, `query`, `read_models` and
  `advisory` answer queries from persisted state; `protocol` and
  `operational_protocol` build the JSON documents; `cli`, `exit_status`,
  `locale`, `age` and `presentation` decide what the command line accepts,
  how it exits and what it shows.
- `tests/` — tests of the library on concrete values.
- `app/` — the `bulls` executable: arguments, environment, signals, the
  runtime that implements the ports, the message catalog and the JSON writers.
