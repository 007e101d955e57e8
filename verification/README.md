# pulse_protocol

The contracts of a prediction market on Soroban, verified with Verus:

- `prediction_market`: markets on yes-or-no questions, bets, fees, payouts,
  refunds, and the withdrawal of fees.
- `pulse_token`: the token in which participants are rewarded.
- `leaderboard`: time-weighted scores, the list of the best players, deferred
  rewards.
- `referral_registry`: display names, paid for by the byte.

## How a contract is written

A contract is a struct that holds all that the contract stores. A call takes the
struct, the ledger it runs in and its arguments, and either refuses, leaving the
contents as they are, or changes them. What it wants of the host (authorization,
transfers, calls of other contracts, longer lifetimes, events) it appends to a list
of effects, in order. Replies of other contracts that a decision needs are
arguments.

In each directory of `src/`, `types.rs` has the data, `model.rs` says as
mathematics when a call is refused and what an accepted one does, the other files
have the calls, and the files of laws prove what holds across calls: that balances
add up to the supply, that payouts and the rest make up the pool, that nobody is
paid twice, that the list of the best players stays in order.

`app/` runs the contracts on the host: it reads from storage what a call needs,
makes the call, writes back what has changed and carries out the effects.
`tests/` runs the library on examples.
