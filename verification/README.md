# slotpilot

Verified core of an attended FT8/WSPR station service, written in Verus.

- `src/` is the library, verified by Verus. Its contracts pin results down
  where the inputs determine them; where a result depends on other threads,
  the clock, or a trait the caller implements (callback sample buffers, the
  spectrum transform, clock sources), they state what holds of every
  outcome. It covers identifiers, callsigns and radio values
  (`domain`), receive-audio configuration, capture queues, the FT8 receive
  timeline and the waterfall model (`audio`), clock health and rig state
  (`operations`), the FT8 message codec adapter and RIFF/WAVE PCM files
  (`protocol`), the versioned command API (`api`), local IPC framing and peer
  policy (`ipc`), the idempotent command processor, the receive lifecycle and the receive
  worker's per-observation decisions (`daemon`) and table
  rendering (`cli`). Calls into `mfsk-core` and `crossbeam-queue` go through
  small trusted wrappers whose contracts restate what those crates document.
- The FT8 receive timeline states its output exactly: each accepted batch
  yields the canonical 12 kHz resampling of the source samples since the
  anchor, and a window for every slot covered from its first tick, once,
  in order; a slot whose capture started late is withheld. The callback
  records, per chunk, whether it was queued or dropped, and each queued
  batch is stated by value.
- `tests/` exercises the library with the real outside crates linked.
- `app/` is the unverified platform glue: the native audio backend, the
  floating-point FFT and FT8 signal processing, JSON wire forms, sockets,
  pipes and file locks.
