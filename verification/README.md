# wifi_densepose

A verified library for the vendor-neutral MediaTek Filogic MIMO CSI transport,
written in Verus.

- `src/mediatek_csi.rs` — frame model: report kinds, chipset profiles, element
  formats, flags, payloads, errors, and frame validation. `f32` fields are held
  as their IEEE-754 bit patterns.
- `src/wire.rs` — little-endian field readers and the CRC-32 (IEEE) that seals frames.
- `src/codec.rs` — `CsiFrame::to_bytes` and `CsiFrame::from_bytes`, each with a
  contract that gives its exact result as a specification of the wire format.
- `src/laws.rs` — proofs that decoding inverts encoding (and, for canonical
  input, the other way round), that decoding reads nothing past its frame, that
  truncated frames are refused as too short, that any one-byte change after the
  length field (CRC trailer included) is caught by the CRC, and the CRC residue.
- `src/frame_eq.rs` — equality of frames and payloads, comparing the `f32`
  fields as numbers.
- `src/simulator.rs` — the deterministic simulator: configuration checks,
  frames, sequence and clock, and the xorshift noise of its samples.
- `src/summary.rs` — bounded frame summaries.
- `src/cli.rs` — command-line profiles and seed parsing.
- `src/secrets.rs` — the `secrets.yaml` importer (parsed with `serde_yaml`).

`app/` is the unverified shell: the simulator binary (argument parsing, UDP and
file output), the `f32` waveform, serializable copies of the frame types,
amplitude statistics, and reading `secrets.yaml` from disk.

Verify with Verus on `src/lib.rs`; the tests in `tests/` run against the compiled library.
