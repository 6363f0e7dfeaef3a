# xca

Verified logic of a set of CosmWasm contracts that pass cross-chain requests
through Wormhole: a cross-chain account, an account factory, a chain registry,
a shouter, a smart wallet and a staking contract.

- `src/byte_utils.rs`: big-endian integers and fixed-width fields, with the
  encode/decode round-trip lemmas.
- `src/contracts/`: each contract's decisions and wire formats (the account's
  request layout and its round-trip laws, the registry's upsert and lookup, the
  staking arithmetic, the wallet's dispatch and archive check, the factory's
  mail and reply handling).
- `src/xca/`: the messages and records the contracts exchange.
- `src/json.rs`: the trusted calls into `cosmwasm_std::to_binary`.
- `app/`: the entry points: storage, queries, and JSON encoding of messages.
