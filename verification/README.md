# swf_robot

The decision logic of the robot demonstration, written in Verus and proved
against its contracts.

- `src/gate.rs`: the dispatch gate. Every task action is permitted or
  rejected (stop, invalid timestamp, stale observation) by a function whose
  result is stated exactly; laws cover the evaluation order and the threshold.
- `src/protocol.rs`, `src/session.rs`: the lock-step bridge protocol as a
  state machine from state and event to next state and action. The laws say
  that every failure closes the session, that a decision is sent only for an
  accepted proposal and echoes its identity, and that a dispatch is counted
  only after a permit and a matching outcome.
- `src/evidence.rs`: evidence records, the evidence directory layout, and the
  SHA-256 digests of evidence files (through `sha2` and `hex`).
- `src/receipt.rs`, `src/transcripts.rs`, `src/history.rs`,
  `src/sampling.rs`, `src/messages.rs`: benchmark receipts. Cache-clear
  transcripts, cache counters and Build History documents are parsed into
  samples, and a receipt is accepted only when every sample, clear and parent
  seed is consistent; the accepted-receipt law states what acceptance means.
- `src/commands.rs`, `src/text.rs`: identifiers, numbers and text helpers.

`app/` is the command-line program around the library: argument parsing,
files, processes, JSON and the floating-point summaries.
