# gasbench

A command-line tool that benchmarks the gas cost of smart contract functions:
it calls each function with sample parameters, estimates its gas over several
iterations, aggregates the figures per function and derives optimization
suggestions.

The library in `src/` is verified with Verus:

- `abi.rs`, `text.rs`, `token.rs`, `json.rs`: Solidity parameter types, ABI
  tokens and the conversion of JSON sample values into tokens.
- `call.rs`: the call data of a function (selector, then encoded arguments).
- `config.rs`: the benchmark configuration and the order of the runs.
- `results.rs`, `stats.rs`: run records and their per-function aggregation.
- `suggest.rs`: the suggestion rules.
- `error.rs`: errors and their messages.
- `bindings.rs`: the calls into `ethers` (address and decimal parsing, selector
  and ABI encoding) and `hex`, with the contracts that the proofs rely on.

`app/` holds the executable: argument handling, reading the functions file,
talking to the RPC endpoint, the floating-point average and standard deviation,
and printing the report.
