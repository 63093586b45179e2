# pqc_staking

A delegated staking pool for a chain with post-quantum keys, and the host functions
with which contracts on that chain check post-quantum signatures. The library is
written and proved in Verus.

## Library (`src/`)

| Module | Contents |
|---|---|
| `pool` | The pool: every action, with what the pool's account has to do next |
| `pool_rules` | The state of a pool, and what each action makes of it or why it is refused |
| `pool_error` | The refusals and their texts |
| `shares` | Share prices, fees, and how rewards and losses are attributed |
| `delegator` | The records of the delegators |
| `books` | Sums over the records; the laws of the books |
| `laws` | The laws on rewards, deposits, locks, unbonding, claims and the owner |
| `staking_key` | Staking keys, from text to Borsh encoding |
| `host` | The host functions: parameters, gas, memory, verdict |
| `signatures` | The three signature schemes, by the `pqcrypto` crates |
| `muldiv` | Exact multiply-then-divide on 128-bit numbers |
| `text` | Decimal numerals |

An action of the pool takes a `CallContext`, which holds what the chain tells about
the call, and returns the payments and stake actions to perform. A refused action
leaves the pool as it was.

What is believed without proof: that the `pqcrypto` parsers go by length, that their
verifiers, of which only the portable ones are built, and the `bs58` decoder answer
by their arguments alone, and what an implementation of `PqcHostContext` says of
itself.

## Contract (`app/`)

The pool as a NEAR contract. It keeps the records in the chain's storage, hands the
library those that a call touches, and performs the actions that come back.
