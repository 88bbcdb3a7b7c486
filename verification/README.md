# nxe_plugins

The integer side of two audio plugins, Pumice (dynamic resonance suppression)
and Sparkleur (five-band up-and-down dynamics), proved with Verus.

- `src/pumice/quality.rs` — the transform size for each `QUALITY` step at a
  sample rate (in whole hertz), its hop and latency, and the longest latency.
- `src/pumice/stft.rs` — the overlap-add clock: which ring slot a sample goes
  to, when a frame runs, where a frame starts.
- `src/pumice/engine.rs` — the dry path's chunking and how far back it is read.
- `src/pumice/plugin.rs` — when the host is told the latency moved, and how
  many channels the engine is handed.
- `src/pumice/nodes.rs` — where a click places a node, and which node a point
  of the figure is.
- `src/sparkleur/bands.rs` — band roles, soloing, and the band the curve shows.
- `src/sparkleur/crossover.rs` — the shape of the crossover tree.
- `src/sparkleur/noise.rs` — the deterministic noise the measurements use.

`app/` holds the floating-point signal paths, the nih-plug wrappers and the
windows, which call into the library for every decision above.
