# atomic_ip

A verified model of an IP commitment registry and of a marketplace that sells
the committed IP through atomic swaps, written in Verus.

- `src/ip_registry`: timestamped commitments `sha256(secret || blinding)`,
  ownership, transfers, revocation, versions, Merkle proofs, disputes,
  stakes, arbitration, delegation, licences and access grants.
- `src/atomic_swap`: swaps from listing to completion or refund, fees,
  collateral, insurance, disputes and arbitration, auctions, instalments,
  batches, and the price oracle's bounds.
- `src/crypto.rs`: the one call into the host, SHA-256, with the hashes
  built on it.
- `*/laws.rs`: properties proved across operations.
- `app/`: runs both ledgers in a Soroban environment (authorization,
  ledger time, token transfers, events, signatures, oracle calls).

Operations return the token transfers they require as data; the host
performs them.
