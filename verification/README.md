# nu_plugin_explore

A fast *interactive explorer* for *structured data*, as a Nushell plugin, whose logic is verified
with Verus.

- `src/` is the verified library: the model of the data (`value`, `types`, `display`), changing a
  cell (`cells`), tables and their transposition (`table`), the configuration and its parsing
  (`config`, `parsing`), key presses (`keys`), the editor (`editor`), the state of the explorer and
  how it answers keys (`app`, `navigation`, `handler`), and what the interface shows (`ui`, `tui`,
  `strings`, `cell_path`).
- `app/` is the plugin itself: it reads the input and the configuration from Nushell, draws the
  interface in the terminal, reads the key presses and carries out what the library decides,
  reading and writing NUON for the editor.
- `tests/` runs the library on concrete data.
