# renormalization_group

Renormalization-group tools for multi-scale fleet analysis: agents are
coarse-grained into blocks, coupling parameters flow from scale to scale,
fixed points are classified by their relevant and irrelevant directions, and
universality classes are compared by their critical exponents.

## Layout

- `src/` — the verified core (Verus). It holds everything that does not
  depend on floating-point values, with contracts and proofs:
  - `block_spin`: which agents form each block, the number of blocks
    (ceil(n / b)), and proofs that every agent lands in exactly one block and
    that block sizes add up to the agent count;
  - `fixed_point`: counting relevant / irrelevant / marginal directions,
    codimension, parameter labels;
  - `critical_surface`: the phase decision and the bisection's moves;
  - `flow`: the flow equation trait, flow evolution with its scale
    bookkeeping, and the convergence window;
  - `universality`, `scaling`: exponent lookup by name, pairing of two
    classes' exponents, constructors;
  - `linalg`: matrix shape checks and transpose.
- `app/` — the floating-point side (agents with real beliefs and positions,
  the flow equations, Jacobians and eigenvalues, scaling functions, the
  predefined universality classes) with serde support; it calls the verified
  core for every decision above.
- `tests/` — tests of the verified core.
