# aquarium_espresso

A desktop aquarium: tropical fish, a bubbling air stone and caustic light
rippling over a choice of five tank backdrops.

The library (`src/`) holds the integer core, verified with Verus:

- `light`: the caustic light field (wave tables, per-row phases, gain),
  the gain sampled at a point, the lighting of a backdrop row, and the
  loading (JPEG decoding and tone mapping) of a backdrop.
- `trail`: the ring of recent points a swimmer's body follows.
- `behavior`: creature kinds, temperaments and the rules by which each kind
  moves between its activities.
- `tank`: the stocking of a fresh tank (with the custom character in the
  place of some guppies when there is one), the guppy roster and the random order
  of the neon schools.
- `bubbles`: the slot rings of the air stone's bubbles and pops.
- `controls`: start-up options and the viewer's key commands.

`app/` is the program around it: the window, input and texture upload
(macroquad), reading the backdrop files, the floating-point wave and bubble
motion, the drawing primitives, and the row-parallel rendering (rayon). It
shows the lit backdrops and the air stone; the species tables and sprites the
fish are drawn from are not part of this crate.
Run it with `--bg N` to pick backdrop `N` (0 to 4; random otherwise) and
`--fps N` to set the frame rate (24 by default).
