use crate::formulas::{adapt, adapted, lift, lifted, normalise, normalised, smooth, smoothed};
use crate::numeric::{keeps_length, Numeric};
use vstd::prelude::*;

verus! {

/// `out` is the complex zero.
pub open spec fn zero_bin<K: Numeric>(k: &K, out: K::Bin) -> bool {
    exists|zero: K::Real|
        {
            &&& call_ensures(K::whole, (k, 0u64), zero)
            &&& call_ensures(K::bin, (k, zero, zero), out)
        }
}

/// `block` holds the samples of `time`, each as a complex value.
pub open spec fn lifted_block<K: Numeric>(k: &K, time: Seq<K::Real>, block: Seq<K::Bin>) -> bool {
    &&& block.len() == time.len()
    &&& forall|i: int| 0 <= i < time.len() ==> lifted(k, time[i], #[trigger] block[i])
}

/// `spectrum` is the forward transform of the samples of `time`.
pub open spec fn spectrum_of<K: Numeric>(
    k: &K,
    time: Seq<K::Real>,
    spectrum: Seq<K::Bin>,
) -> bool {
    exists|input: Vec<K::Bin>, output: Vec<K::Bin>|
        {
            &&& lifted_block(k, time, input@)
            &&& call_ensures(K::forward, (k, input), output)
            &&& output@ == spectrum
        }
}

/// `after` is the power estimate `before` smoothed, bin by bin, with the power
/// of the same bin of `spectrum`.
pub open spec fn psd_smoothed<K: Numeric>(
    k: &K,
    lambda: K::Real,
    before: Seq<K::Real>,
    spectrum: Seq<K::Bin>,
    after: Seq<K::Real>,
) -> bool {
    &&& after.len() == before.len()
    &&& forall|i: int|
        0 <= i < before.len() ==> smoothed(k, lambda, before[i], spectrum[i], #[trigger] after[i])
}

/// `out` holds the product of `a` and `b`, bin by bin.
pub open spec fn products<K: Numeric>(
    k: &K,
    a: Seq<K::Bin>,
    b: Seq<K::Bin>,
    out: Seq<K::Bin>,
) -> bool {
    &&& out.len() == a.len()
    &&& forall|i: int|
        0 <= i < a.len() ==> call_ensures(K::bin_product, (k, a[i], b[i]), #[trigger] out[i])
}

/// `echo` is the echo estimate of one frame: the inverse transform of the
/// weighted spectrum, each sample divided by the block length, of which the
/// first `frame` samples are dropped and the next `frame` samples kept.
pub open spec fn echo_of<K: Numeric>(
    k: &K,
    weights: Seq<K::Bin>,
    spectrum: Seq<K::Bin>,
    frame: nat,
    echo: Seq<K::Real>,
) -> bool {
    exists|input: Vec<K::Bin>, output: Vec<K::Bin>|
        {
            &&& products(k, weights, spectrum, input@)
            &&& call_ensures(K::inverse, (k, input), output)
            &&& echo.len() == frame
            &&& forall|j: int|
                0 <= j < frame ==> normalised(
                    k,
                    output@[frame + j],
                    weights.len() as u64,
                    #[trigger] echo[j],
                )
        }
}

/// `error` is the microphone frame less the echo estimate, sample by sample.
pub open spec fn errors<K: Numeric>(
    k: &K,
    mic: Seq<K::Real>,
    echo: Seq<K::Real>,
    error: Seq<K::Real>,
) -> bool {
    &&& error.len() == mic.len()
    &&& forall|j: int|
        0 <= j < mic.len() ==> call_ensures(
            K::difference,
            (k, mic[j], echo[j]),
            #[trigger] error[j],
        )
}

/// `block` is `n` long; it is zero but for the samples of `error`, which stand
/// behind as many zeros as there are samples.
pub open spec fn padded_block<K: Numeric>(
    k: &K,
    error: Seq<K::Real>,
    n: nat,
    block: Seq<K::Bin>,
) -> bool {
    &&& block.len() == n
    &&& forall|i: int|
        0 <= i < n ==> if error.len() <= i < 2 * error.len() {
            lifted(k, error[i - error.len()], #[trigger] block[i])
        } else {
            zero_bin(k, block[i])
        }
}

/// `spectrum` is the forward transform of the zero-padded error frame.
pub open spec fn error_spectrum_of<K: Numeric>(
    k: &K,
    error: Seq<K::Real>,
    n: nat,
    spectrum: Seq<K::Bin>,
) -> bool {
    exists|input: Vec<K::Bin>, output: Vec<K::Bin>|
        {
            &&& padded_block(k, error, n, input@)
            &&& call_ensures(K::forward, (k, input), output)
            &&& output@ == spectrum
        }
}

/// `after` holds the weights `before`, each moved by the normalised gradient of
/// its own bin.
pub open spec fn weights_adapted<K: Numeric>(
    k: &K,
    before: Seq<K::Bin>,
    spectrum: Seq<K::Bin>,
    error_spectrum: Seq<K::Bin>,
    psd: Seq<K::Real>,
    floor: K::Real,
    mu: K::Real,
    after: Seq<K::Bin>,
) -> bool {
    &&& after.len() == before.len()
    &&& forall|i: int|
        0 <= i < before.len() ==> adapted(
            k,
            before[i],
            spectrum[i],
            error_spectrum[i],
            psd[i],
            floor,
            mu,
            #[trigger] after[i],
        )
}

/// The forward transform of the far-end window.
pub fn far_spectrum<K: Numeric>(k: &K, window: &Vec<K::Real>) -> (spectrum: Vec<K::Bin>)
    requires
        keeps_length(k),
    ensures
        spectrum@.len() == window@.len(),
        spectrum_of(k, window@, spectrum@),
{
    let n: usize = window.len();
    let mut block: Vec<K::Bin> = Vec::new();
    let mut i: usize = 0;
    while i < n
        invariant
            n == window@.len(),
            i <= n,
            block@.len() == i,
            forall|j: int| 0 <= j < i ==> lifted(k, window@[j], #[trigger] block@[j]),
        decreases n - i,
    {
        block.push(lift(k, window[i]));
        i += 1;
    }
    let spectrum = k.forward(block);
    spectrum
}

/// Smooths the power estimate with the power of each bin of `spectrum`.
pub fn smooth_psd<K: Numeric>(
    k: &K,
    lambda: K::Real,
    psd: &mut Vec<K::Real>,
    spectrum: &Vec<K::Bin>,
)
    requires
        spectrum@.len() == old(psd)@.len(),
    ensures
        psd_smoothed(k, lambda, old(psd)@, spectrum@, final(psd)@),
{
    let n: usize = psd.len();
    let mut i: usize = 0;
    while i < n
        invariant
            n == old(psd)@.len(),
            psd@.len() == n,
            spectrum@.len() == n,
            i <= n,
            forall|j: int|
                0 <= j < i ==> smoothed(k, lambda, old(psd)@[j], spectrum@[j], #[trigger] psd@[j]),
            forall|j: int| i <= j < n ==> psd@[j] == old(psd)@[j],
        decreases n - i,
    {
        let p = smooth(k, lambda, psd[i], spectrum[i]);
        psd.set(i, p);
        i += 1;
    }
}

/// The echo estimate of one frame of `frame` samples.
pub fn echo_estimate<K: Numeric>(
    k: &K,
    weights: &Vec<K::Bin>,
    spectrum: &Vec<K::Bin>,
    frame: usize,
) -> (echo: Vec<K::Real>)
    requires
        keeps_length(k),
        spectrum@.len() == weights@.len(),
        2 * frame <= weights@.len(),
    ensures
        echo_of(k, weights@, spectrum@, frame as nat, echo@),
{
    let n: usize = weights.len();
    let mut block: Vec<K::Bin> = Vec::new();
    let mut i: usize = 0;
    while i < n
        invariant
            n == weights@.len(),
            spectrum@.len() == n,
            i <= n,
            block@.len() == i,
            forall|j: int|
                0 <= j < i ==> call_ensures(
                    K::bin_product,
                    (k, weights@[j], spectrum@[j]),
                    #[trigger] block@[j],
                ),
        decreases n - i,
    {
        block.push(k.bin_product(weights[i], spectrum[i]));
        i += 1;
    }
    let output = k.inverse(block);
    let mut echo: Vec<K::Real> = Vec::new();
    let mut j: usize = 0;
    while j < frame
        invariant
            n == weights@.len(),
            output@.len() == n,
            2 * frame <= n,
            j <= frame,
            echo@.len() == j,
            forall|t: int|
                0 <= t < j ==> normalised(k, output@[frame + t], n as u64, #[trigger] echo@[t]),
        decreases frame - j,
    {
        echo.push(normalise(k, output[frame + j], n as u64));
        j += 1;
    }
    echo
}

/// The error frame: what is left of the microphone frame without the echo
/// estimate.
pub fn error_signal<K: Numeric>(
    k: &K,
    mic: &[K::Real],
    echo: &Vec<K::Real>,
) -> (error: Vec<K::Real>)
    requires
        echo@.len() == mic@.len(),
    ensures
        errors(k, mic@, echo@, error@),
{
    let f: usize = mic.len();
    let mut error: Vec<K::Real> = Vec::new();
    let mut j: usize = 0;
    while j < f
        invariant
            f == mic@.len(),
            echo@.len() == f,
            j <= f,
            error@.len() == j,
            forall|t: int|
                0 <= t < j ==> call_ensures(
                    K::difference,
                    (k, mic@[t], echo@[t]),
                    #[trigger] error@[t],
                ),
        decreases f - j,
    {
        error.push(k.difference(mic[j], echo[j]));
        j += 1;
    }
    error
}

/// The forward transform of the error frame behind its zero padding, in a block
/// of `n` values.
pub fn error_spectrum<K: Numeric>(
    k: &K,
    error: &Vec<K::Real>,
    n: usize,
) -> (spectrum: Vec<K::Bin>)
    requires
        keeps_length(k),
        2 * error@.len() <= n,
    ensures
        spectrum@.len() == n,
        error_spectrum_of(k, error@, n as nat, spectrum@),
{
    let f: usize = error.len();
    let zero = k.whole(0);
    let nothing = k.bin(zero, zero);
    let mut block: Vec<K::Bin> = Vec::new();
    let mut i: usize = 0;
    while i < n
        invariant
            f == error@.len(),
            2 * f <= n,
            i <= n,
            block@.len() == i,
            zero_bin(k, nothing),
            forall|t: int|
                0 <= t < i ==> if f <= t < 2 * f {
                    lifted(k, error@[t - f], #[trigger] block@[t])
                } else {
                    zero_bin(k, block@[t])
                },
        decreases n - i,
    {
        if f <= i && i - f < f {
            block.push(lift(k, error[i - f]));
        } else {
            block.push(nothing);
        }
        i += 1;
    }
    let spectrum = k.forward(block);
    spectrum
}

/// Moves every weight by the normalised gradient of its bin.
pub fn adapt_weights<K: Numeric>(
    k: &K,
    weights: &mut Vec<K::Bin>,
    spectrum: &Vec<K::Bin>,
    error_spectrum: &Vec<K::Bin>,
    psd: &Vec<K::Real>,
    floor: K::Real,
    mu: K::Real,
)
    requires
        spectrum@.len() == old(weights)@.len(),
        error_spectrum@.len() == old(weights)@.len(),
        psd@.len() == old(weights)@.len(),
    ensures
        weights_adapted(
            k,
            old(weights)@,
            spectrum@,
            error_spectrum@,
            psd@,
            floor,
            mu,
            final(weights)@,
        ),
{
    let n: usize = weights.len();
    let mut i: usize = 0;
    while i < n
        invariant
            n == old(weights)@.len(),
            weights@.len() == n,
            spectrum@.len() == n,
            error_spectrum@.len() == n,
            psd@.len() == n,
            i <= n,
            forall|j: int|
                0 <= j < i ==> adapted(
                    k,
                    old(weights)@[j],
                    spectrum@[j],
                    error_spectrum@[j],
                    psd@[j],
                    floor,
                    mu,
                    #[trigger] weights@[j],
                ),
            forall|j: int| i <= j < n ==> weights@[j] == old(weights)@[j],
        decreases n - i,
    {
        let w = adapt(k, weights[i], spectrum[i], error_spectrum[i], psd[i], floor, mu);
        weights.set(i, w);
        i += 1;
    }
}

} // verus!
