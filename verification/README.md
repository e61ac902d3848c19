# cache_warden_cli

The logic of the `cache-warden` command line and daemon, written in Verus: each
executable function under `src/` carries a contract, and Verus proves it.

- `namespace`, `mode`, `config`, `defs`, `otp_type`, `fda`: namespaces and
  qualified keys, reveal and dry-run mode, the entries of configuration and
  definition files, value types.
- `wire`: the requests and responses of the control socket.
- `cli`, `args`: command routing, where options end, help pages, and what a
  client prints for each reply.
- `daemon`: what the daemon answers and does. `handler`, `set`, `get`, `claim`,
  `guard`, `entries` and `otp_adapter` decide single steps from what was
  observed; `requests` and `dispatch` run them against any `store::SecretStore`;
  `approval` asks the user before a guarded value is read; `server` and `startup`
  cover start and stop.
- `text`, `path`, `chain`: strings and Unix paths as mathematical sequences, and
  chains of states.

`app/` is the program around the library: arguments, sockets, signals, files,
JSON and TOML, and a store in memory. Verus does not look at it.

Nothing is promised of what a store, a connection or a file answers. The
contracts name the calls that are made of them, with what, in what order and what
follows from each answer: that a refused write leaves the store alone, that a
value leaves only by a get that every gate let through, that a guarded one leaves
only after the user approved and the guard was held against the requester once
more, and that a dry run goes the whole way of the reveal and says what it comes
to.
