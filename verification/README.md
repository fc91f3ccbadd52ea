# mbp_channel

A payment channel for several users and an operator. Balances are hidden in Pedersen commitments over
BLS12-381. A payer proves with a range proof that the balance covers a payment, the payee signs the
proof blindly, the users vote on the payment with signatures that add up, and the operator commits it.
The channel is opened and closed through a contract on a chain.

- `src/` is the library. Its functions are verified with Verus against the contracts they carry.
  - `encoding`, `text`, `names`: byte encodings, texts, maps from names to values.
  - `crypto`: scalars and points (`wrapper`), parameters (`common`), commitments, signatures
    (`multisig`), blind signatures and range proofs. `backend` states what is taken on trust of the
    curve crates.
  - `network`: the messages, the decisions of the operator and of a user, and what holds of the nodes
    together (`protocol`).
  - `blockchain`, `config`: calls of the contract, configuration.
- `tests/` runs the library.
- `app/` is the program around the library: command line, sockets, serialisation and the chain client.
  It reads `config.toml`.
