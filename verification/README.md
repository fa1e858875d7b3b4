# tipjar lending

The lending protocol of the tip jar contract as a verified library.

Lenders deposit tokens into per-token pools; borrowers lock collateral and
borrow from a pool; interest accrues at a utilisation-based annual rate; the
lenders' share of interest paid is distributed pro-rata to their deposits
through a per-pool interest index and paid out with withdrawals; loans whose
health factor falls below 1.0 can be liquidated.

- `src/` — the library, verified with Verus. Every operation (`deposit`,
  `withdraw`, `open_loan`, `repay`, `accrue`, `liquidate`, and the rate,
  interest, utilisation and health-factor computations) is a function from
  the stored records it reads and the ledger time to the records it writes,
  the amounts it moves, or the reason the transaction aborts, with a contract
  that states that outcome exactly. `src/lending/laws.rs` holds the
  properties that relate operations (a withdrawal undoes a deposit, lender
  balances are net deposits, interest is shared pro-rata, accrual is
  idempotent, a fresh loan is healthy, pool borrows track loan principal, the
  active-loan mapping stays consistent over any sequence of loan
  operations, and so on). Where the logic compares addresses, as storage
  does, it compares their strkeys as bytes, which `app/` supplies.
  `src/host.rs` declares the Soroban host types and the few host calls the
  logic makes; it is the only unproved part.
- `tests/` — tests of the library on concrete values.
- `app/` — the Soroban side: storage records with their contract derives,
  and entry points that read storage, call the library, then write storage,
  transfer tokens and publish events.
