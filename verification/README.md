# tango

Netplay for Mega Man Battle Network 6 on an emulated Game Boy Advance, with its
logic verified by Verus.

The library (`src/`) holds what decides the course of a match:

- `negotiation`: the commit-and-reveal handshake between peers (SHAKE128
  commitments, constant-time comparison, the shared PCG seed and the coin toss:
  both peers seed the same generator state and exactly one of them wins).
- `battle`, `input`: the battles of a match, the delayed input queues of both
  players, turns waiting to go out, and what each local tick commits.
- `fastforwarder`: the plan of a fast-forward from the committed state to the
  present, with predicted remote inputs.
- `bn6`: where the game keeps its netplay state, where the hooks of a match and of
  a fast-forward are planted in its code and what each does to the machine, and
  what the comm menu does while it waits for a friend.
- `mgba`: a model of the emulated machine (byte memory, the ARM core's registers
  and Thumb pipeline) and the breakpoint trapper.
- `replay`: the replay file format (records compressed with zstd), and the older
  format with two initial states that the replay viewer reads.
- `signor`, `matchmaking`, `protocol`: the messages exchanged with the signalling
  server and between peers.
- `compat`, `config`, `tps`, `audio`, `gui`, `loaded`: the compatibility list, the
  settings and their defaults, the tick-rate counter, the audio stream mux (which
  stream is heard, and the order in which the streams are filled), the link-code
  dialog, the overlays' toggles, key binding and the frame buffer.

`app/` is the command-line front end: file I/O, the serde and bincode encodings,
and the TOML files. `tests/` exercises the library on concrete values.
