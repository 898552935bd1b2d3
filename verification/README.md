# ethereum_bridge

The Ethereum side of a bridge between two chains, written in Verus.

- `src/` decides: it turns requests into transactions, finds and reads the stored record of a
  transfer, and turns the logs of the initiating contract into events. Verus proves what
  it does against the contracts stated there.
- `app/` connects: it opens the RPC and websocket connections, sends what `src/` hands it and
  gives the answers back.
- `tests/` runs the library on concrete values.

| module | what it holds |
| --- | --- |
| `config` | the configuration, its defaults, and what it takes to connect |
| `client` | the client of the initiating contract |
| `storage` | storage slots, and the record that the contract keeps of a transfer |
| `events` | from logs to events |
| `monitoring` | the log filter, and the stream of events |
| `types` | the values, events and errors of a transfer |
| `rlp`, `uint`, `hexadecimal` | the encodings that the others are stated with |

What is believed of other crates stands in the contracts of the functions marked
`external_body`, each with a comment that says what it claims.

The RPC URL may name any transport that `alloy-provider` has been built with. A URL with
`http` needs its `reqwest` feature.
