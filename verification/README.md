# raft_engine

The deciding parts of a Raft node, written in Rust and proved with Verus.

- `src/` is the library. It holds the engine's elections, leases, planned
  handoff and retirement; the queue of commands to the runtime and the coalescing
  of its commits; the bookkeeping for applying committed entries page by page;
  and the steps of a call into the core task. Contracts are stated over the views
  of the types; what spans several operations is stated in the functions whose
  names begin with `law_`.
- `tests/` runs the library on concrete values.
- `app/` is the runtime around it: channels, timeouts, task joins and the
  serialised form of the handoff messages.

The library reads neither a clock nor a random number. Each operation that needs
the time, or a random number to draw an election timeout from, takes it as an
argument.
