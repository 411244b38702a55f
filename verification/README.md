# xtreme

The bookkeeping of the Xtreme editor, written in Verus: every function in
`src/` carries a contract, and Verus proves each body against it.

## Layout

- `src/editor/shortcuts` — key codes, modifiers, shortcuts and the shortcut
  manager (both lookup directions, kept consistent), with the default
  bindings and the actions a frame's key presses trigger.
- `src/editor/prefab` — property paths and overrides, prefab references and
  instances, instance ids, parent links inside a prefab, which properties
  an instance inherits, change propagation planning, the resolution guard,
  and the prefab cache (`registry`): path resolution, staleness,
  least-recently-used eviction.
- `src/editor/panels` — the decisions of the editor panels: asset listing
  (directories first, stable case-insensitive order, hidden files left
  out), the console's bounded log buffer, tallies and search filter, tool
  keys, the hierarchy's rows (search results or the expanded tree),
  inspector flags.
- `src/editor/viewport.rs` — the shader cache (pipelines and compile errors
  by path) and which shaders sample a texture.
- `src/editor/{selection,scene,project}.rs` — selection, scene state and
  window title, project defaults.
- `src/input` — keyboard and mouse button state across frames.
- `src/math`, `src/physics`, `src/particles` — isometric depth order, grid
  cells, particle handles and the emitters' seed generator.
- `src/text.rs`, `src/paths.rs`, `src/assoc.rs` — string helpers (search,
  comparison, decimal numerals), the standard-library path functions the
  editor relies on, and association lists.
- `app/` — the host side: file and log I/O, egui input, serde forms of the
  records, and the floating-point math (snapping, projection, mouse motion).
- `tests/` — tests of the library's public functions.

Laws that relate several operations (a binding followed by a lookup, a
stored prefab being served, the console buffer staying bounded, and so on)
are public proof functions next to the code they are about.
