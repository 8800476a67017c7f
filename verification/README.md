# soroban_templates

Verified core of a family of Soroban smart-contract templates: a merkle-proof
airdrop, an all-or-nothing crowdfunding campaign, a commit-reveal lottery,
Dutch-auction pricing, and the helpers they share (basis-point fees, deadline
checks, rate limiting, merkle single- and multi-proofs, cursor pagination).
The completeness of multi-proofs generated from a complete tree is proved in
`merkle_tree`.

## Layout

- `src/` — the library, verified with Verus. Each contract's decisions are
  methods on a plain value that holds the contract's instance storage
  (`AirdropContract`, `CrowdfundContract`, `LotteryContract`); per-address
  records and host facts (current ledger, stored flags, balances) are passed
  in, and what to store or pay is handed back. Contracts state exactly what
  each call returns and how the state changes; laws relating several calls
  are public proof functions (`lemma_*`).
  SHA-256 is the one call into the Soroban host made from the library
  (`crypto::sha256`); its digest is named by `sha256_digest`.
- `tests/` — tests of the library on concrete values.
- `app/` — the Soroban contracts themselves: host storage, authorisation,
  token transfers, signature checks and events around the library.
