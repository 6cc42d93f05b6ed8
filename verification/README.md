# riced

A Wayland shell daemon (per-output Background windows, bars, an overlay and a
Settings panel) whose decision logic is a library verified with Verus.

- `src/` — the verified library:
  - `cli.rs`: the command-line grammar and the one-line command-file protocol
    between `riced open-settings` and the running daemon.
  - `config.rs`: the configuration tree, runtime patches and the file-stamp
    watch that drives hot reloading.
  - `geometry.rs`: outputs, rectangles, layer-shell anchors and surface specs.
  - `layers.rs`: the surfaces the daemon opens and the area a Background window
    gets once the bars on its output have taken their exclusive zones.
  - `table.rs`: a small integer-keyed map viewed as a `Map`.
  - `registry.rs`: every window the daemon owns, with one Background per output.
  - `plots.rs`: the daemon state and the transitions of its update loop.
  - `input.rs`: pointer release classification, redraw scopes and timing rules.
- `tests/` — tests of the library on concrete values.
- `app/` — the program around the library: the toolkit event loop, rendering,
  file and Wayland I/O, and the floating-point drawing and hit-testing.
