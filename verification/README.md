# terp_accounts

Account tokens for Terp Network: a marketplace ("manifold") that mints
account names and trades them through bids, cooldowns and hooks, and a cw721
collection whose tokens carry text records, an image, an associated address
and reverse mappings of non-native addresses.

- `src/` is the verified library. Each contract's state is a plain value
  (`Market`, `Collection`) with a well-formedness invariant; every message is
  a method that takes what the chain or another contract answered as plain
  arguments and returns the messages to send and, where the contract reports
  one, its event (`src/events.rs`). Contracts are stated over the views of
  these values; `src/laws.rs` proves the properties that span several
  operations (placing, withdrawing and bulk-refunding bids move exactly the
  escrowed amounts, a sale pays out exactly its price, a cancelled purchase
  pays back the bid, a hook removal undoes its addition, an association is
  found again by lookup, no two asks share an id, a descending bid page from
  the top is a complete ascending listing reversed and cut to its limit,
  removing a text record twice is removing it once, ...).
- `app/` holds the CosmWasm entry points: storage, chain queries, JSON
  messages and the base cw721 collection.
- `tests/` runs the marketplace and the collection through the scenarios of
  the deployment suite, on concrete values.
