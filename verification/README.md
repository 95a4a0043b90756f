# qwy3

The logic of Qwy3, a voxel game, as a library verified with Verus.

- `coords`: coordinates of blocks and chunks, axes and directions, rectangular areas of the
  voxel grid and the order in which their blocks are listed, and a 3x3x3 cube of bits.
- `block_types`: the types of blocks and the table that gives each an id.
- `chunk_blocks`: the blocks of a chunk, stored as a palette of blocks and a grid of
  bit-packed keys that widen as the palette grows; the culling information of chunk faces.
- `chunk_meshing`: which faces of the blocks of a chunk are drawn (those that no opaque
  neighbour covers, with the opaqueness around each block for ambient occlusion), and the
  opaqueness of the one-block-thick layer around a chunk, indexed by a bijection between the
  blocks of the layer and the bits of a bit vector.
- `face_mesh`: the meshes of blocks in integers: for a face of a solid block, its corners in
  half blocks, texture corners, ambient occlusion levels, and the diagonal and winding of its
  two triangles; for an X-shaped block, its two crossed quads seen from both sides.
- `font`: where each character of the bitmap font is taken from in the texture atlas.
- `game_controls`: what each control action does to the player's settings and what it asks of
  the game (editing the world with the held block, throwing it, toggles and views).
- `saves`: the deflate compression of save files (with `flate2`).
- `bits`: the bit vectors of the `bitvec` crate, seen as sequences of booleans.
- `table_allocator`, `interval_order`: which entries of a table are free, as sorted intervals.
- `controls`: the control bindings file.
- `lang`: Qwy Script, the statically typed command language: tokenizing, parsing with typing,
  evaluation, and the proofs that evaluation keeps the types that parsing gives and that a
  program that parses fails only by declaring a variable twice.
- `world_gen`, `entities`, `physics`: world generator choices and block placing, unique ids,
  what a falling block does when it lands, and the decisions about jumping.

`app/` holds a small program that runs Qwy Script commands and reads the control bindings
file; `tests/` holds the tests.
