# oneko

A desktop cat that chases the mouse pointer, wanders, sits, washes and sleeps,
drawn as a 32×32 sprite on Wayland layer surfaces (one per screen) or, on
macOS, in a borderless window.

- `src/` — the verified library (Verus):
  - `pet.rs`: the cat's directions, actions and sprites; how it picks its next
    action, which way it faces, which sprite it shows, and its integer state
    (`Pet`) with one method per event of a tick.
  - `render.rs`: decoding XBM sprite/mask bitmaps into ARGB pixels, their
    little-endian buffer bytes, and the input region of a surface as maximal
    horizontal spans.
  - `ppm.rs`: the P6 screenshot parser and the scan for a long flat ledge.
  - `outputs.rs`: the table of screens and which one holds the cat.
- `app/` — the programs: Wayland client (`wayland.rs`), macOS window
  (`macos.rs`), screenshots, and the floating-point movement of the cat.
  The sprite bitmaps (`app/sprites.rs`: the XBM arrays `CAT_*`, their
  `*_MASK`s and `BLANK`) are kept outside this tree.
- `tests/` — tests of the library.
