# free_energy

The containers of a free-energy-principle toolkit — generative models,
recognition densities and homeostatic systems — written in Verus, generic over
the number type they hold.

- `src/` is the verified library: construction, the guarded updates of a
  generative model and the lookups, each with a contract over a mathematical
  view of the container, and proof functions for the laws that relate them
  (an accepted update is read back, a refused one changes nothing, updates are
  local, commute, and keep the model well formed).
- `app/` holds the floating-point arithmetic (free energy, KL divergences,
  prediction errors, regulation steps) on the `f64` instances of these
  containers; Verus does not reason about `f64`.
- `tests/` runs the library on `f64` and on integer element types.
