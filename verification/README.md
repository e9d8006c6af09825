# weathergraph

Support library for a graph neural weather forecasting model (ERA5 grid,
H3 mesh, encoder / processor / decoder message passing), written in Verus:
the library's functions carry `requires` / `ensures` contracts that Verus
proves.

## Layout

- `src/` — the verified library.
  - `config.rs`: run configuration, artifact paths, forecast request checks.
  - `features.rs`: array metadata of `.npz.gz` artifacts, lookups, summaries,
    index conversion.
  - `geometry.rs`: grid and mesh node lists and counts (mesh cells from `h3o`).
  - `graph.rs`: graph kinds, artifact file selection, sender/receiver arrays.
  - `model.rs`: the checkpoint contract and the inspection of a tensor list.
  - `contract.rs`: laws of the checkpoint contract (tensor count, layout of
    a perceptron's tensors, distinct canonical keys, required flags) and of
    how inspection reports each of its tensors.
  - `checkpoint.rs`: reading a safetensors header, inspecting it, and the
    `F32` gate before loading.
  - `npz.rs`: decompressing `.npz.gz` artifacts and choosing each array's
    element type and shape.
  - `loader.rs`: which checkpoint tensors each layer is built from.
  - `layout.rs`: packing and unpacking of pressure-level fields.
  - `matrix.rs`: row/column rearrangements and shape checks of the kernels.
  - `forecast.rs`, `normalizer.rs`, `solar.rs`, `tensor.rs`: rollout timing,
    statistics bookkeeping, forcing constants, index checks.
  - `text.rs`, `paths.rs`: text and path helpers.
- `tests/` — tests of the library.
- `app/` — the command-line tool: file and NetCDF I/O, `candle` tensors, the
  floating-point kernels and the floating-point trials of `.npz` decoding.
  Its other decisions (which arrays and tensors, element types, shapes,
  files, checks) are made by calling the library.
