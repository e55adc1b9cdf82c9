use crate::numeric::Numeric;
use vstd::prelude::*;

verus! {

/// The smoothing factor of the power estimate is this many fiftieths.
pub const SMOOTHING_NUMERATOR: u64 = 49;

/// The smoothing factor of the power estimate is 49 / 50.
pub const SMOOTHING_DENOMINATOR: u64 = 50;

/// The stability floor that is added to a power before dividing by it is one
/// part in this many.
pub const FLOOR_DENOMINATOR: u64 = 10_000_000_000;

/// `out` is the real sample `x` as a complex value with no imaginary part.
pub open spec fn lifted<K: Numeric>(k: &K, x: K::Real, out: K::Bin) -> bool {
    exists|zero: K::Real|
        {
            &&& call_ensures(K::whole, (k, 0u64), zero)
            &&& call_ensures(K::bin, (k, x, zero), out)
        }
}

/// `out` is the quotient of the whole numbers `num` and `den`.
pub open spec fn ratio<K: Numeric>(k: &K, num: u64, den: u64, out: K::Real) -> bool {
    exists|n: K::Real, d: K::Real|
        {
            &&& call_ensures(K::whole, (k, num), n)
            &&& call_ensures(K::whole, (k, den), d)
            &&& call_ensures(K::quotient, (k, n, d), out)
        }
}

/// `out` is the smoothed power `lambda * p + (1 - lambda) * |x|^2`, computed in
/// this order.
pub open spec fn smoothed<K: Numeric>(
    k: &K,
    lambda: K::Real,
    p: K::Real,
    x: K::Bin,
    out: K::Real,
) -> bool {
    exists|power: K::Real, kept: K::Real, one: K::Real, rest: K::Real, fresh: K::Real|
        {
            &&& call_ensures(K::norm_sqr, (k, x), power)
            &&& call_ensures(K::product, (k, lambda, p), kept)
            &&& call_ensures(K::whole, (k, 1u64), one)
            &&& call_ensures(K::difference, (k, one, lambda), rest)
            &&& call_ensures(K::product, (k, rest, power), fresh)
            &&& call_ensures(K::sum, (k, kept, fresh), out)
        }
}

/// `out` is the real part of `c` divided by the block length `n`.
pub open spec fn normalised<K: Numeric>(k: &K, c: K::Bin, n: u64, out: K::Real) -> bool {
    exists|part: K::Real, length: K::Real|
        {
            &&& call_ensures(K::re, (k, c), part)
            &&& call_ensures(K::whole, (k, n), length)
            &&& call_ensures(K::quotient, (k, part, length), out)
        }
}

/// `out` is the weight `w + (conj(x) * e / (p + floor)) * mu`, computed in this
/// order, with the step size `mu` taken as a complex value.
pub open spec fn adapted<K: Numeric>(
    k: &K,
    w: K::Bin,
    x: K::Bin,
    e: K::Bin,
    p: K::Real,
    floor: K::Real,
    mu: K::Real,
    out: K::Bin,
) -> bool {
    exists|
        mirrored: K::Bin,
        raw: K::Bin,
        power: K::Real,
        scaled: K::Bin,
        step: K::Bin,
        delta: K::Bin,
    |
        {
            &&& call_ensures(K::conj, (k, x), mirrored)
            &&& call_ensures(K::bin_product, (k, mirrored, e), raw)
            &&& call_ensures(K::sum, (k, p, floor), power)
            &&& call_ensures(K::bin_quotient, (k, raw, power), scaled)
            &&& lifted(k, mu, step)
            &&& call_ensures(K::bin_product, (k, scaled, step), delta)
            &&& call_ensures(K::bin_sum, (k, w, delta), out)
        }
}

/// The real sample `x` as a complex value.
pub fn lift<K: Numeric>(k: &K, x: K::Real) -> (out: K::Bin)
    ensures
        lifted(k, x, out),
{
    let zero = k.whole(0);
    k.bin(x, zero)
}

/// The quotient of two whole numbers as a real.
pub fn ratio_of<K: Numeric>(k: &K, num: u64, den: u64) -> (out: K::Real)
    ensures
        ratio(k, num, den, out),
{
    let n = k.whole(num);
    let d = k.whole(den);
    k.quotient(n, d)
}

/// One bin of the power estimate after a block with the value `x` in that bin.
pub fn smooth<K: Numeric>(k: &K, lambda: K::Real, p: K::Real, x: K::Bin) -> (out: K::Real)
    ensures
        smoothed(k, lambda, p, x, out),
{
    let power = k.norm_sqr(x);
    let kept = k.product(lambda, p);
    let one = k.whole(1);
    let rest = k.difference(one, lambda);
    let fresh = k.product(rest, power);
    k.sum(kept, fresh)
}

/// One time-domain sample out of an inverse transform of length `n`.
pub fn normalise<K: Numeric>(k: &K, c: K::Bin, n: u64) -> (out: K::Real)
    ensures
        normalised(k, c, n, out),
{
    let part = k.re(c);
    let length = k.whole(n);
    k.quotient(part, length)
}

/// One weight after the normalised gradient step of its bin.
pub fn adapt<K: Numeric>(
    k: &K,
    w: K::Bin,
    x: K::Bin,
    e: K::Bin,
    p: K::Real,
    floor: K::Real,
    mu: K::Real,
) -> (out: K::Bin)
    ensures
        adapted(k, w, x, e, p, floor, mu, out),
{
    let mirrored = k.conj(x);
    let raw = k.bin_product(mirrored, e);
    let power = k.sum(p, floor);
    let scaled = k.bin_quotient(raw, power);
    let step = lift(k, mu);
    let delta = k.bin_product(scaled, step);
    k.bin_sum(w, delta)
}

} // verus!
