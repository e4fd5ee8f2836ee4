# star_escrow

A verified model of the StarEscrow protocol: programmable escrow for
freelance payments on Stellar, with a Soroban escrow contract, an escrow
factory, a reputation contract and a command-line client.

- `src/` is the library, verified with Verus. Each contract is a model of
  its instance storage with one method per contract call; a call returns
  what it asks of the ledger (signatures, token payments, a yield deposit,
  events, a report to the reputation contract) and its contract states
  exactly when it fails and what it does.
  - `escrow/`: the single-escrow contract (state machine, fees, recurring
    releases, yield routing, allowlist, rate limit).
  - `factory.rs`: many escrows with sequential ids and per-party lists.
  - `reputation.rs`: completion and cancellation counts and the score.
  - `cli.rs`, `text.rs`: the client's argument building, fee parsing,
    setup texts and decisions, and the reading and listing of escrow
    events (read through serde_json).
  - `documents.rs`: the JSON documents the client prints and exports; the
    library chooses their members, serde_json only writes them.
  - `assoc.rs`, `types.rs`: an address-keyed map and the address type.
- `app/` holds what runs around it: the Soroban contracts themselves, which
  keep the library's state in instance storage and carry out its effects,
  and the CLI, which talks to the network through the `stellar` tool.
- `tests/` exercise the library on the scenarios of the protocol.
