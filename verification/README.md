# Replaying historical blocks

A benchmark that takes a Solana snapshot and the blocks that followed it, leaves
out the votes, and sends the other transactions through a banking stage.

`src/` is the library, verified with Verus. It holds every rule of the benchmark:

- `network`: the known clusters, their names and addresses
- `snapshot`: which snapshot to use, and what its file is called
- `download`: the course of a download, step by step
- `encoded`, `message`: transactions as RPC nodes send them, and decoded
- `decode`: decoding one transaction
- `transactions`: decoding blocks and leaving out the votes
- `results`: gathering results
- `wire`, `packets`: the size of a transaction, and packing
- `replay`: waiting for the transactions to be processed and recorded
- `solana`: the calls into the Solana crates and `bs58`, with the contracts that
  are taken on trust

`app/` is the program around it: the command line, the network, the file system
and the banking stage itself. `tests/` runs the library on concrete values.
