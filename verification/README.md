# xynok_std

A small standard library of engine utilities, verified with Verus.

- `src/` — the verified library:
  - `collection/`: `XyHashMap` (open addressing over parallel key/value vectors, Fx hash,
    tombstones, entry API), `Queue`, `LazyGrowList`, `BitBuffer`, `FlagsBuffer` and the
    `FlagSet8/16/32` flag sets, `DataSet`, flag-name descriptions, and the laws of the map.
  - `action_invoker`: multicast delegates `Action` / `Action0` with persistent and
    fire-once handlers.
  - `binding`: `BinderInner`, a value with listeners notified on change.
  - `patterns`: the `LinearMachine` state machine and its `TState` / `TTransit` traits.
  - `enum_dispatcher`, `getter`: the decisions behind the attribute macros (which trait
    methods can be dispatched, type substitutions, deferred trait/enum links, accessor plans).
  - `file::toml`: UTF-8 decoding and the folder rules of TOML loading.
- `app/` — what Verus does not take: raw-pointer wrappers, `Arc`/`Rc` owners, the shared
  `Binder`, file I/O with serde/toml, attribute-macro code generation with syn/quote, and the
  declarative macros (`state_machine!`, `data_set!`, `heap_define!`).
- `tests/` — the test suite, run against the compiled library.
