# hex_island

A hexagon island map, verified with Verus.

- `src/hex.rs`: tiles, the grid (stored row by row) and its mathematical view
  `GridView`; creating a grid, reading a cell, marking a click, the RGBA texture
  and the printed text of the map.
- `src/terrain_generator.rs`: laying an island (a land mask, one flag per cell)
  into the grid.
- `src/rendering.rs`: drawing the screen on the CPU from the cell under each pixel.
- `src/input.rs`: what a key press does.
- `src/laws.rs`: properties that hold across these operations.
- `app/`: the game itself (window, shaders, camera, noise and hexagon geometry in
  floating point), built on ggez; it hands the library plain values.
- `tests/`: tests of the library on concrete values.
