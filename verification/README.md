# sbm_core

The discrete core of an astrodynamics planning suite (debris breakup simulation,
Clohessy-Wiltshire rendezvous planning, three-body transfer design), written in Verus
and proved against its contracts.

## Layout

- `src/` — the verified library:
  - `rng.rs` — the xorshift64 generator that drives the breakup sampler, with the
    proof that its stream never reaches the absorbing zero state;
  - `json.rs`, `json_laws.rs` — the JSON tree reader through which `app/` loads
    trained operator weights, specified as a recursive reader over characters, and the
    law that every well-formed tree written out canonically is read back unchanged;
  - `autoorbit.rs` — prediction horizons, activations chosen by name, the flattened
    weight layouts and the windows of adaptive average pooling;
  - `cr3bp.rs`, `rpo.rs`, `service.rs`, `cli.rs` — the name-driven choices of the
    command line and of the planning service, event-crossing detection, and the
    framing of orbit ephemeris messages;
  - `ranking.rs` — selection of the leading entries of a report (largest keys first,
    ties in original order), with the laws that the selection is determined by the keys
    and that a shorter selection is the head of a longer one;
  - `text.rs`, `types.rs` — string helpers and shared classifications.
- `tests/` — executable tests of the library.
- `app/` — the programs around the library: the command line (`breakup`, `rpo`,
  `transfer`, `help`), the local planning daemon (`serve`: HTTP routes, static cockpit
  pages, JSON requests and responses), and the floating-point engines they drive
  (breakup sampling, relative motion, three-body dynamics and families, the
  successive-convexification transfer optimizer, and the FNO1d model with its loader).
  Every discrete decision is a call into the library.
  Not carried here: the AutoOrbit predictor around the model (orbital elements,
  perturbation physics, maneuver correction, reference orbits) and the optimizer's
  drag benchmark problem, all floating point throughout.
