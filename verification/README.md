# song_contract

A CosmWasm NFT contract for song tracks, written in Verus.

- `src/` is the verified library. The contract's storage is CosmWasm's
  `MemoryStorage`, seen as a map from keys to bytes; every operation states
  how it changes that map and what it answers.
  - `storage`, `codec`, `response`, `ownership`: the calls into CosmWasm,
    `cw-storage-plus`, `cw721-base`, `cw-ownable`, `bincode`, `bincode2` and
    `serde_json`, with their contracts, and the byte layouts they write.
  - `records`: the keys of the records and what each record means. A
    token's owner is its owner record, or else the owner in `cw721-base`'s
    record of it.
  - `listing`, `paging`: finding the tokens storage holds, by walking its
    keys, and handing them out in ascending pages.
  - `song`: reading and writing owners, state, approvals and token metadata.
  - `contract`: setup, mint, burn, transfer, send, approve and revoke, one
    token at a time or for all tokens of an owner.
  - `queries`: the standard NFT queries; owners and token lists are read
    from storage.
  - `nft`: a single-token contract that keeps one NFT as JSON.
  - `laws`: properties that span operations.
- `tests/` runs the library against the real crates.
- `app/` holds the serde forms of messages and records and entry points
  that run the library on a mock chain.
