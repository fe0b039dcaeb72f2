# verified_substreams

Substreams modules for the Verified Network pool contracts, written in Verus.
They find the pools that the primary, secondary and margin pool factories
create, decode the `Subscription`, `TradeReport` and `MarginTradeReport`
events those pools emit, and turn them into records, store writes, per-pool
groupings, key-value operations, database changes and JSON lines.

## Layout

- `src/` is the verified library.
  - `block`, `abi`: the parts of a block the modules read, and event decoding
    (topic check, 32-byte words through `ethabi`).
  - `hexstr`, `uint`, `proto`: lowercase hex text, decimal text of 256-bit
    words, and the Protocol Buffers wire encoding of the records.
  - `records`, `group`, `tracker`: the output records, grouping by pool, and
    the logic shared by the factory modules.
  - `margin_factory`, `primary_factory`, `secondary_factory`: the factory
    modules.
  - `primary_pool`, `secondary_pool`, `pools`, `kv`, `db_out`: the pool
    modules, their stores, key-value output and database changes.
  - `laws`: properties that relate the modules to one another.
- `tests/` runs the library against `ethabi`, `prost` and `tiny-keccak`.
- `app/` holds the Substreams handlers' plumbing: conversion from the
  Firehose block, store reads, serde and logging.

Verify with `verus` on `src/lib.rs`. The public functions of `src/` carry
`requires`/`ensures` contracts over mathematical views, and the calls into outside crates stand behind
small trusted wrappers whose doc comments say what they assume.
