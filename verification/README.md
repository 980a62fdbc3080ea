# harness

A benchmark harness. A benchmark is a list of programs and a number of iterations; every
iteration runs every program once, and each iteration starts one program further down the
list than the one before, so that over a full rotation every program runs once at every
position. The first iterations can be run as a warm-up and left out of the report.

- `src/notsofine/` — the verified core: the rotation and its laws (`schedule.rs`), programs
  made of plain functions (`simple.rs`), and the runner that measures one run and steps a
  benchmark through its iterations (`mod.rs`).
- `src/workloads.rs` — a busy-loop workload.
- `app/` — the benchmark programs: command lines, loading GeoJSON, the geo and GEOS
  workloads, printing progress, pausing, and writing the report as JSON.
