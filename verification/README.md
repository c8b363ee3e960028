# smile4money

Two Soroban smart contracts for staking on chess matches, written as
verified state machines:

* **escrow** — players create a match, deposit their stakes, and the oracle's
  report of the result pays the pot out (or refunds a drawn or cancelled
  match). An admin can pause the contract and rotate the oracle.
* **oracle** — an on-chain record of verified game results, kept by a trusted
  admin (the off-chain oracle service).

## Layout

* `src/invocation.rs` — addresses, what the host passes to a call (its
  signers and ledger sequence), and `Failure`, which tells a contract error
  from a missing authorization.
* `src/escrow/`, `src/oracle/` — for each contract: `error.rs`, `types.rs`,
  `spec.rs` (the contract as a function from state and call to result and
  next state, including the events, token transfers and time-to-live
  extensions the call asks of the host), `contract.rs` (the executable state, proved to follow
  `spec.rs`), and `laws.rs` (properties across calls: well-formedness is
  kept, funds are accounted to their match, the lifecycle only moves forward,
  only entitled parties act, recorded results never change, ...).
* `tests/` — scenario tests.
* `app/` — the Soroban entry points: they load the storage entries a call
  reads into the library's state, run the verified transition, and write
  storage back, apply the time-to-live extensions, make the token transfers
  and publish the events it produced. Authorization is asked of the host only when the
  transition reports that it needs an address's signature.
