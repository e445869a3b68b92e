# rt-next-week

A Monte Carlo path tracer (Cornell box scene, multiple importance sampling, BVH,
Perlin textures) whose integer logic is a Verus-verified library.

- `src/` — the verified library:
  - `denoise` — channel-wise median filter with clamped borders, and its laws
    (uniform images and radius 0 are left unchanged, a lone outlier never survives,
    every output value comes from its window, the filter is monotone);
  - `camera` — per-row seeds of seeded renders (distinct per row), the stratified
    sample grid (integer square root), the resolved image height;
  - `perlin` — lattice permutation tables (Fisher–Yates, always permutations) and
    corner hashing (always a valid gradient index);
  - `scene` — triangle indices of tessellated spheres and quads, material slots, and
    the index side of a whole scene mesh (every corner a vertex, every material slot a
    material, at least one material);
  - `color_io`, `texture` — 10-to-16-bit channel scaling, checker parity, texel
    addressing of image textures;
  - `gpu` — the CUDA driver probe's report and the diagnostics status;
  - `pdf` — the direction-density type;
  - `rng` — draws from rand's `SmallRng`.
- `app/` — the renderer around it: vectors, rays, geometry, materials, shading and
  everything else in floating point, parallel rendering, PNG output, command line.
- `tests/` — tests of the library.
