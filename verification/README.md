# locking_contract

A vote-escrow locking contract for a CosmWasm chain: governance tokens are
locked for one of two periods in exchange for vtokens, whose balance at the
height of a proposal is the holder's voting power. Proposals of an app list
its extended pairs and the pools of the exchange app; holders vote, bribe
pairs, claim bribes, and receive a rebase after the emission of a proposal.
Voting power can be delegated to addresses that charge fees.

## Layout

- `src/` is the verified library. Every operation is a function from the
  contract's tables (`store::ContractStore`, whose tables keep the history of
  their writes so that they can be read at a past height), the block, the
  message and what the chain answered, to the new tables and the response.
  Its `ensures` state the outcome through spec functions named `*_outcome`
  and `*_result`; `laws.rs` states and proves the properties that span
  several operations.
- `tests/` runs the library on concrete values.
- `app/` is the contract on the chain: entry points, the serialized forms of
  messages and tables, and the queries to the chain whose answers the library
  takes as values.
