# engene core

The verified core of the engene game engine, written in Verus.

- `src/memory`: entity ID pool with generation counters, LRU streaming cache
  with entry and memory bounds, per-component dirty flags and binary
  component deltas, per-subsystem memory accounting, asset request
  bookkeeping, and the decisions of crash-safe saves.
- `src/navigation`: dirty-cell tracking for navmesh and cover updates, a path
  cache, and shortest paths on a passability grid (A* from `pathfinding`).
- `src/graphics`: render pipeline validation tables, shader source storage,
  decal classes and eviction, and the seeded weather generator.
- `src/input`: game actions, their default bindings and per-frame state.
- `app/`: what stays outside verification: file and thread I/O, the
  process-wide memory tracker, serde forms of save data, and floating-point
  code (LOD, noise, decal ageing, world-to-cell conversions).
- `tests/`: tests of the library on concrete values.
