# vertex_dtl

A settlement ledger for payment tickets, written in Verus.

A payer opens a ticket by signing its terms (Ed25519 over a domain-separated
BLAKE3 digest of their canonical JSON); the amount moves from the payer's
balance into the ticket. The beneficiary later signs a release naming the
digest of the route it observed; the ticket's amount is then paid out to the
beneficiary, the route's fee recipient and its rebate recipient.

Layout:

- `src/amount.rs`, `src/ids.rs`, `src/codec.rs`: bounded amounts, 32-byte
  identifiers, domain-separated hashing and the canonical JSON encoding.
- `src/crypto.rs`: identities, signatures and key pairs.
- `src/route.rs`, `src/ticket.rs`, `src/release.rs`: route rules, signed
  tickets and signed releases.
- `src/table.rs`, `src/account.rs`, `src/journal.rs`, `src/ledger.rs`: the
  ledger, its invariant (sorted unique identifiers, valid tickets, supply
  conservation) and the laws of opening and settling tickets.
- `src/history.rs`: the ledger as a function of its accepted operations,
  and the laws over a whole history (supply, nonces, ticket life cycle).
- `src/scenarios.rs`: the demonstration scenarios and their proven outcomes.
- `app/main.rs`: the command-line runner that prints a scenario's report.
