//! A recognition density (approximate posterior) over hidden states.
use vstd::prelude::*;

use crate::filled;
use crate::filled_vec;

verus! {

/// A Gaussian recognition density: one mean and one precision (inverse
/// variance) per dimension.
#[derive(Clone, Debug)]
pub struct RecognitionDensity<T> {
    pub means: Vec<T>,
    /// inverse variances
    pub precisions: Vec<T>,
    pub dim: usize,
}

/// The mathematical content of a [`RecognitionDensity`].
#[verifier::ext_equal]
pub struct DensityView<T> {
    pub means: Seq<T>,
    pub precisions: Seq<T>,
    pub dim: nat,
}

impl<T> View for RecognitionDensity<T> {
    type V = DensityView<T>;

    open spec fn view(&self) -> DensityView<T> {
        DensityView { means: self.means@, precisions: self.precisions@, dim: self.dim as nat }
    }
}

impl<T> DensityView<T> {
    /// The density built from the given parameters; its dimension is the number
    /// of means.
    pub open spec fn from_params(means: Seq<T>, precisions: Seq<T>) -> Self {
        DensityView { means, precisions, dim: means.len() }
    }

    /// The density of dimension `dim` with every mean `mean` and every
    /// precision `precision`.
    pub open spec fn constant(dim: nat, mean: T, precision: T) -> Self {
        DensityView { means: filled(dim, mean), precisions: filled(dim, precision), dim }
    }

    /// Means and precisions both have one entry per dimension.
    pub open spec fn consistent(self) -> bool {
        self.means.len() == self.dim && self.precisions.len() == self.dim
    }

    /// The deterministic sample of the density: its means (the MAP estimate of
    /// a Gaussian).
    pub open spec fn sample(self) -> Seq<T> {
        self.means
    }
}

impl<T: Copy> RecognitionDensity<T> {
    /// Creates a density of dimension `dim` whose means are all `mean` and whose
    /// precisions are all `precision` (a standard density takes zero and one).
    pub fn new(dim: usize, mean: T, precision: T) -> (d: Self)
        ensures
            d@ == DensityView::constant(dim as nat, mean, precision),
            d@.consistent(),
            d.dim == dim,
            d@.means.len() == dim,
            d@.precisions.len() == dim,
            forall|i: int| 0 <= i < dim ==> #[trigger] d@.means[i] == mean,
            forall|i: int| 0 <= i < dim ==> #[trigger] d@.precisions[i] == precision,
    {
        RecognitionDensity { means: filled_vec(dim, mean), precisions: filled_vec(dim, precision), dim }
    }
}

impl<T> RecognitionDensity<T> {
    /// Creates a density with the given means and precisions; its dimension is
    /// the number of means.
    pub fn with_params(means: Vec<T>, precisions: Vec<T>) -> (d: Self)
        ensures
            d@ == DensityView::from_params(means@, precisions@),
            d@.means == means@,
            d@.precisions == precisions@,
            d.dim == means@.len(),
    {
        let dim = means.len();
        RecognitionDensity { means, precisions, dim }
    }

    /// Samples deterministically from the density: returns its means.
    pub fn sample_deterministic(&self) -> (r: &[T])
        ensures
            r@ == self@.sample(),
    {
        self.means.as_slice()
    }
}

/// The deterministic sample of a density built from parameters gives back its
/// means, and the density has one dimension per mean; it is consistent exactly
/// when there are as many precisions as means.
pub proof fn lemma_params_round_trip<T>(means: Seq<T>, precisions: Seq<T>)
    ensures
        DensityView::from_params(means, precisions).sample() == means,
        DensityView::from_params(means, precisions).dim == means.len(),
        DensityView::from_params(means, precisions).means == means,
        DensityView::from_params(means, precisions).precisions == precisions,
        DensityView::from_params(means, precisions).consistent() <==> precisions.len() == means.len(),
{
}

/// A constant density has `dim` dimensions, every mean equal to the given mean
/// and every precision equal to the given precision; its sample is the common
/// mean, once per dimension.
pub proof fn lemma_constant_sample<T>(dim: nat, mean: T, precision: T)
    ensures
        DensityView::constant(dim, mean, precision).sample() == filled(dim, mean),
        DensityView::constant(dim, mean, precision).consistent(),
        DensityView::constant(dim, mean, precision).dim == dim,
        DensityView::constant(dim, mean, precision).means.len() == dim,
        DensityView::constant(dim, mean, precision).precisions.len() == dim,
        forall|i: int| 0 <= i < dim ==> #[trigger] DensityView::constant(dim, mean, precision).means[i] == mean,
        forall|i: int|
            0 <= i < dim ==> #[trigger] DensityView::constant(dim, mean, precision).precisions[i] == precision,
{
}

} // verus!
