//! Free energy principle for agent homeostasis: the shape-carrying parts.
//!
//! The containers of the free-energy toolkit (generative models, recognition
//! densities and homeostatic systems) are generic over the number type that
//! they hold. Their construction, the guarded updates and the lookups are
//! verified here for every element type; the arithmetic on `f64` values lives
//! beside the library, in the application crate.
use vstd::prelude::*;

pub mod generative_model;
pub mod homeostasis;
pub mod recognition_density;

verus! {

/// The sequence of `n` copies of `v`.
pub open spec fn filled<T>(n: nat, v: T) -> Seq<T> {
    Seq::new(n, |_i: int| v)
}

/// A vector of `n` copies of `v`.
pub(crate) fn filled_vec<T: Copy>(n: usize, v: T) -> (out: Vec<T>)
    ensures
        out@ == filled(n as nat, v),
{
    let mut out: Vec<T> = Vec::new();
    let mut i: usize = 0;
    while i < n
        invariant
            i <= n,
            out@ == filled(i as nat, v),
        decreases n - i,
    {
        out.push(v);
        i = i + 1;
        assert(out@ =~= filled(i as nat, v));
    }
    out
}

} // verus!
