# buffett_bots

The decisions of a transaction-throughput benchmark client and of a token
service front end, verified with Verus.

- `src/` is the library: settings read from option values (`config`,
  `numparse`), the token flow's turning points (`direction`), the batch queue
  between the generator and the sender threads (`batches`), the airdrop and
  barrier-confirmation watches (`airdrop`, `barrier`), the wait for the
  gossip table (`convergence`), node sampling and naming (`sampling`) and the
  whole-number part of the final report (`report`).
- `app/` runs the two programs around it: argument handling, the network
  client and service, threads, timing, metrics, and the floating-point rates.
- `tests/` runs the library on concrete values.
