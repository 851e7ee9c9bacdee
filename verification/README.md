# near_ibc

The bookkeeping of an IBC implementation on NEAR and of the contracts around it
(channel escrows, wrapped tokens, the token and escrow factories), written in
Verus: each public function states what it returns or changes, and Verus proves
it.

Where a contract refuses a call by failing, the library has two functions for
it: `f`, whose `requires` leaves out the calls that the contract refuses and
which states what an accepted call does, and `try_f`, which returns the error
with which the contract fails, or what `f` does.

## Layout

- `src/` — the verified library.
  - `ordering`, `keyed_entries`, `index_window`, `view_map`, `state_book` — the
    collections the rest is built on: ordered keys, keyed entries, a window of
    indices, insertion-ordered maps and maps of maps. The contracts keep these
    in NEAR storage through `near_sdk`'s collections; here they are held as
    vectors of entries, each with a map as its view.
  - `indexed_lookup_queue`, `ascending_queues`, `queue_viewer` — the indexed
    queues that hold the history of IBC events and other bounded histories.
  - `link_map` — a map of values with a linked list over its keys, into which
    every inserted key goes as the new head.
  - `ibc_store` — what the IBC implementation stores of clients, connections,
    channels, packets and events; `packet_events` — queries over the events.
  - `near_ibc_contract` — the contract's own rules: who may call what, with what
    deposit and gas, which calls follow, and the governance and testnet functions.
  - `channel_escrow`, `wrapped_token`, `token_factory`, `escrow_factory` — the
    other contracts' rules; `accounts`, `deposit`, `text`, `types` — shared parts.
  - `ledger` — the NEP-141 ledger of `near-contract-standards` that the wrapped
    token holds: its balances and total supply, and the calls that move them.
  - `outside` — the calls into `ibc`, `near-sdk`, `tendermint`, `borsh`, `hex`
    and `serde_json`, with the contracts that the library relies on.
- `tests/` — tests of the library on concrete values; they run the ledger on
  `near-sdk`'s mocked blockchain.
- `app/` — the NEAR side: JSON forms of the library's types, the event log, and
  the entry points that read the runtime, ask the library and act on its answer.
