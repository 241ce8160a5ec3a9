# marlowe-api

Extended Marlowe contracts, verified with Verus: a YAML reader and writer for
contracts, a type checker, a one-transaction simulator with input preview, a
bounded safety analysis with automatic repair, and the decisions of an HTTP
service and a command-line tool built on them.

- `src/`: the library. Every function states its behaviour in `requires` /
  `ensures` over spec models (`Seq`, `Map`, `int`), and Verus proves it.
  Properties that span several functions (a written contract reads back as
  itself, a transaction is refused as not ready exactly when the checker finds
  blockers, an offending party is never an allowed one, a transaction keeps
  each token's money, a proposed repair applies and changes only the place it
  names, ...) stand as public
  proof functions.
- `tests/`: the tests, run against the compiled library.
- `app/`: the program around the library: argument parsing, files, the HTTP
  server, JSON encoding, and the `z3` process that the deadline analysis asks
  for a witness.
