# transaction_bench

The verified core of a load generator for Solana validators and clusters, and the
program around it. It generates transfer transactions and sends them over QUIC to
current and upcoming leaders.

The library (`src/`) holds what the program decides and computes, with contracts
that Verus proves:

- `cli`: the command line as plain values; how the priority-fee settings resolve to
  a mode, the grammar of fee tiers, URLs and durations.
- `priority_fee`: the additional fee of each transaction (random, premium plan,
  sawtooth schedule), and the statistics of what was paid.
- `wire`: keypairs, instructions and signed transactions, from plain values to bytes.
- `generator::transaction_builder`: transfer transactions, legacy and V1.
- `generator::simple_transfers_generator`: batches of them.
- `generator::transaction_generator`: when a batch is due, how large it is, from
  which payers it draws and to which channel it goes.
- `blockhash_updater`: which blockhash is published when; aged blockhashes.
- `run_client`: a run from end to end, and how its batches are sized.
- `startup`: what each command does, and what is refused at once.
- `text`, `web_address`: splitting, trimming and numbers; the scheme and port of a URL.
- `error`: the errors of a run.

Whatever waits or talks to the outside is in `app/`: it performs what the library
asks for and reports what happened. Floating-point arithmetic is there too; its
rounded outcomes are handed to the library.

Laws that span several functions are public proof functions named `law_..`, next to
the functions they speak of.
