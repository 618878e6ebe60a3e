# smeagol

Verified building blocks of a Game of Life simulator.

- `src/lib.rs`: cells, positions and bounding boxes (combine, intersect, offset, pad).
- `src/node.rs`: 16 by 16 leaf grids packed in sixteen `u16` lanes, their lane-wise
  operators, the quadrant masks, `center`, and the quadtree node types.
- `src/gpu.rs`: the integer state of the GPU-driven simulation: which cell buffer is
  current, where cells are written, workgroup counts, rules and grid size.
- `app/lib.rs`: the browser front end that drives `wgpu` with the values `gpu` computes.
- `tests/`: tests on concrete values.
