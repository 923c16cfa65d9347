# evm_staking

Staking through the EVM, verified with Verus.

A chain lets EVM contracts stake: they call a precompile at a fixed address, which answers from the
chain's state or has a runtime call dispatched for them. It also lets the owner of a neuron tie an
EVM address to it. This crate holds the rules of both.

- `src/precompile/`: the staking precompile (`staking_v2`), the older one (`staking_v1`), the
  allowances with which an address lets another transfer its stake, the gas that views charge, and
  what holds across calls (`laws`).
- `src/evm/`: associating EVM addresses with neurons by signature, the index of them in both
  directions, the migration that fills it, and what holds over any number of changes (`laws`).
- `src/storage_table.rs`, `src/u256.rs`, `src/primitives.rs`: tables, 256-bit numbers, addresses.
- `app/`: entry points, the way from them to the functions, and storage on a node.
- `tests/`: scenarios on a chain in memory.

State that is not the crate's own is read through the `Runtime` trait, of which nothing is taken for
granted. Dispatching is left to the caller: a function that wants a runtime call made returns it.
