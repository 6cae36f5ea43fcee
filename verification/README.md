# l1_proxy

The decisions of an L1 RPC proxy that detects cross-chain calls, written in Verus.

The proxy sits in front of the L1 RPC and forwards requests as they came. It intercepts
`eth_sendRawTransaction`: a transaction that makes cross-chain calls is queued for the builder and
answered with its hash. Gas estimates for cross-chain proxies are answered without L1.

- `src/` is the verified library. It computes from values alone.
  - `exchange`: one HTTP request, from its method to its reply
  - `detection`: tracing a transaction and finding its cross-chain calls
  - `wait`: waiting for the code of a transaction's destination
  - `discovery`: what the search for hidden calls is told
  - `transaction`: raw signed transactions, and the price that orders them
  - `hex`, `json`, `text`: the formats that these are written in
  - `server`: accepting connections
- `app/` runs the library: sockets, HTTP requests and the clock. Its trait `Composer` stands for the
  other parts of the composer.
- `tests/` runs the library on concrete values.

`exchange`, `detection` and `wait` are state machines. A step takes the state and what happened, and
gives the next state and what to do; the caller does it and tells what came of it. Functions whose
names begin with `law_` state what holds of whole runs.
