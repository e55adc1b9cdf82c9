use vstd::prelude::*;

verus! {

/// The arithmetic and the block transform that a filter runs on.
///
/// `Real` is a sample or a power, `Bin` one complex value of a spectrum. No
/// method carries a contract of its own: the filter's contracts speak of what
/// an operation returned through `call_ensures`, so they hold of every
/// implementation and claim nothing of any.
pub trait Numeric {
    type Real: Copy;

    type Bin: Copy;

    /// The real that stands for the whole number `n`.
    fn whole(&self, n: u64) -> Self::Real;

    /// `a + b`.
    fn sum(&self, a: Self::Real, b: Self::Real) -> Self::Real;

    /// `a - b`.
    fn difference(&self, a: Self::Real, b: Self::Real) -> Self::Real;

    /// `a * b`.
    fn product(&self, a: Self::Real, b: Self::Real) -> Self::Real;

    /// `a / b`.
    fn quotient(&self, a: Self::Real, b: Self::Real) -> Self::Real;

    /// The complex value `re + i im`.
    fn bin(&self, re: Self::Real, im: Self::Real) -> Self::Bin;

    /// The real part of `c`.
    fn re(&self, c: Self::Bin) -> Self::Real;

    /// The squared magnitude of `c`.
    fn norm_sqr(&self, c: Self::Bin) -> Self::Real;

    /// The complex conjugate of `c`.
    fn conj(&self, c: Self::Bin) -> Self::Bin;

    /// The complex sum `a + b`.
    fn bin_sum(&self, a: Self::Bin, b: Self::Bin) -> Self::Bin;

    /// The complex product `a * b`.
    fn bin_product(&self, a: Self::Bin, b: Self::Bin) -> Self::Bin;

    /// `c` with both parts divided by the real `d`.
    fn bin_quotient(&self, c: Self::Bin, d: Self::Real) -> Self::Bin;

    /// The forward transform of one block.
    fn forward(&self, block: Vec<Self::Bin>) -> Vec<Self::Bin>;

    /// The inverse transform of one block, not divided by its length.
    fn inverse(&self, block: Vec<Self::Bin>) -> Vec<Self::Bin>;
}

/// Both transforms hand back a block as long as the one they were given.
pub open spec fn keeps_length<K: Numeric>(k: &K) -> bool {
    &&& forall|b: Vec<K::Bin>, r: Vec<K::Bin>| #[trigger]
        call_ensures(K::forward, (k, b), r) ==> r@.len() == b@.len()
    &&& forall|b: Vec<K::Bin>, r: Vec<K::Bin>| #[trigger]
        call_ensures(K::inverse, (k, b), r) ==> r@.len() == b@.len()
}

} // verus!
