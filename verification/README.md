# chitin_net

Wire format, addressing and outbound queueing for a mesh of nodes and services
that exchange prioritized frames over multiplexed streams, verified with Verus.

- `src/` — the verified library: frame codec with Internet checksum, endpoint /
  mesh-key / resource packing, flag fields, compact (base-59) and hex text forms,
  address labels, service bitmaps, the outbound priority queue, the serial
  protocol and PCM audio payloads, connection state and stream framing. Laws about these
  (codec round trips, checksum error detection, queue order) are proof functions
  next to the code they speak of.
- `app/` — the I/O side: the yamux session (`MuxSession`) with its poller,
  reader and writer tasks, serde forms of the control messages, and the
  `f32` conversion of audio samples.
- `tests/` — tests of the library.
