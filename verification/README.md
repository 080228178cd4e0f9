# silver_gpu

GPU acceleration for SilverBitcoin mining, as a Verus-verified library.

- `src/lib.rs`: backends, device descriptions, configuration and its builders.
- `src/errors.rs`: the error type and its messages.
- `src/text.rs`: decimal rendering used by the messages.
- `src/gpu_context.rs`: device detection (CPU fallback) and device memory
  accounting, with the invariant that no more is handed out than the device
  holds.
- `src/gpu_miner.rs`: the SHA-512 proof-of-work search; its contract states
  that a batch returns the hash of the first nonce whose hash does not exceed
  the target, and how many hashes were counted.
- `app/lib.rs`: the statistics record with floating-point rates, error types
  with `Display`, and async / thread-safe handles around the miner and the
  context.

SHA-512 itself comes from the `sha2` crate and the CPU counts from
`num_cpus`; their results are trusted, not proved.
