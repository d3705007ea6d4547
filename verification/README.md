# phrtf_distance_proximity

A parametric-HRTF binaural spatialiser (per-ear peak/notch cascade, ITD/ILD,
head shadow, distance gain, air absorption, proximity EQ), with its exact
parts written in Verus and proved.

- `src/` — the verified library:
  - `noise.rs`: the xorshift32 generator that drives the turbulence noise
    (exact step, non-zero state, seed 0 ≡ seed 1);
  - `delay.rs`: the circular storage of the ITD delay line (slot and
    position arithmetic, write/advance/reset);
  - `phrtf.rs`: the notch-trajectory selector;
  - `params.rs`: the plugin's parameter table in exact fixed point (ids
    contiguous, defaults inside non-empty ranges);
  - `manifest.rs`: the bundle-manifest rewrite, specified line by line and
    proved idempotent.
- `tests/` — tests of the library.
- `app/` — the floating-point signal path (filters, geometry, renderer), the
  plugin front end and the bundling task, which use the library.
