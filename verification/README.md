# wallshader

A verified library for a Wayland shader-wallpaper daemon: the decisions of
the daemons, stated in Verus contracts and proved. Where a decision rests on
what the disk holds, the library states the outcome for every answer the
disk can give, and a verified function takes those answers as arguments.

- `src/` — the library, every item of it verified:
  - `text`, `fspath`, `setup`: character-sequence and path helpers, the
    directory bootstrap plan, directory sources, bundled-defaults actions.
  - `shadertoy`: shader handles, path expansion, shader-pack manifests and
    packs, the layout of a cached Shadertoy download, repository decisions.
  - `multiconfig`, `scheduler`: playlist configurations and their
    validation, per-surface playlist scheduling (continuous, or shuffled:
    each item once per drawn order, a new order drawn when one is used up).
  - `renderer`: channel bindings, option parsers, the keyboard texture,
    frame cadence, export-buffer arithmetic, surface geometry.
  - `hyshadew`, `wallshader`, `wax11`, `lambdash`: the daemons' command-line
    values, directories, channel bindings of packs, start-up plans and the
    multi-surface playlist engine.
- `tests/` — tests of the library on concrete values.
- `app/` — the `hyshadew` program around the library: command line, files,
  network, clock and Hyprland queries. It has no GPU renderer.

Outside crates are reached only through a few trusted wrappers (URL
parsing and joining, Unicode lower-casing, `Debug` of string lists,
`humantime` durations, the random generator and shuffling, the home
directory, the clock and disk probes), each documented where it stands.
