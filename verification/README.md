# desmos_contracts

The logic of the Desmos smart contracts, written in Verus and verified against
contracts stated over mathematical models.

Each contract is a state struct with handlers. A handler takes what the chain
answered for a message (validated addresses, query answers, replies) as plain
values and returns the new state and the response to emit, so every decision
of the contract is verified.

- `src/` is the library: coins (merging, sorting, fee coverage), the tips and
  social tips contracts, three POAP contracts and their manager, Remarkables,
  DTag auctions, tokenomics and post filtering. Laws that relate several
  handlers stand as public proof functions named `law_*` in the module they are
  about.
- `src/outside.rs` holds the trusted calls into `cosmwasm-std`, `url` and
  `cw-utils`, each with the contract that the outside source shows.
- `app/` is the chain glue: entry points, storage, queries to the Desmos chain
  and the conversion of messages, with the serde copies of the library types.
- `tests/` exercises the library on concrete values.
