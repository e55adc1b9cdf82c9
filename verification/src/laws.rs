use crate::filter::FilterState;
use crate::formulas::{lifted, normalised};
use crate::numeric::Numeric;
use crate::stages::{
    echo_of, error_spectrum_of, lifted_block, padded_block, products, spectrum_of,
};
use crate::geometry::lemma_two_frames_fill_block;
use crate::window::{lemma_two_frames_replace_window, lemma_window_follows_history, most_recent};
use vstd::prelude::*;

verus! {

/// Every value of `block` is `value`.
pub open spec fn all_equal<T>(block: Seq<T>, value: T) -> bool {
    forall|i: int| 0 <= i < block.len() ==> #[trigger] block[i] == value
}

/// In the arithmetic of `k`, `zero` and `nothing` behave as the real and the
/// complex zero: they are what the whole number 0 gives, transforms of a block
/// of nothing give nothing, nothing times nothing is nothing, its real part is
/// zero, zero divided by a whole number from 1 on is zero, and a real less zero
/// is that real.
pub open spec fn zero_is_neutral<K: Numeric>(k: &K, zero: K::Real, nothing: K::Bin) -> bool {
    &&& forall|r: K::Real| #[trigger] call_ensures(K::whole, (k, 0u64), r) ==> r == zero
    &&& forall|c: K::Bin| #[trigger] call_ensures(K::bin, (k, zero, zero), c) ==> c == nothing
    &&& forall|b: Vec<K::Bin>, r: Vec<K::Bin>| #[trigger]
        call_ensures(K::forward, (k, b), r) && all_equal(b@, nothing) ==> all_equal(r@, nothing)
    &&& forall|b: Vec<K::Bin>, r: Vec<K::Bin>| #[trigger]
        call_ensures(K::inverse, (k, b), r) && all_equal(b@, nothing) ==> all_equal(r@, nothing)
    &&& forall|c: K::Bin| #[trigger]
        call_ensures(K::bin_product, (k, nothing, nothing), c) ==> c == nothing
    &&& forall|r: K::Real| #[trigger] call_ensures(K::re, (k, nothing), r) ==> r == zero
    &&& forall|n: u64, d: K::Real, r: K::Real|
        n >= 1 && #[trigger] call_ensures(K::whole, (k, n), d) && #[trigger] call_ensures(
            K::quotient,
            (k, zero, d),
            r,
        ) ==> r == zero
    &&& forall|m: K::Real, r: K::Real| #[trigger]
        call_ensures(K::difference, (k, m, zero), r) ==> r == m
}

/// A filter that has heard nothing yet and hears a silent far-end frame gives
/// the microphone frame back as it is, in every arithmetic in which zero
/// behaves as zero.
pub proof fn lemma_silent_start_passes_microphone<K: Numeric>(
    before: FilterState<K>,
    far: Seq<K::Real>,
    mic: Seq<K::Real>,
    after: FilterState<K>,
    error: Seq<K::Real>,
    zero: K::Real,
    nothing: K::Bin,
)
    requires
        before.wf(),
        before.fresh(),
        zero_is_neutral(&before.kernel, zero, nothing),
        far.len() == before.frame_size,
        mic.len() == before.frame_size,
        all_equal(far, zero),
        before.processed(far, mic, after, error),
    ensures
        error == mic,
{
    let k = &before.kernel;
    let (spectrum, echo, error_spectrum) = choose|
        spectrum: Seq<K::Bin>,
        echo: Seq<K::Real>,
        error_spectrum: Seq<K::Bin>,
    | before.steps_to(far, mic, spectrum, echo, error_spectrum, after, error);
    let f = before.frame_size;
    let n = before.fft_size;
    assert(all_equal(before.window, zero));
    assert(all_equal(after.window, zero));
    assert(all_equal(before.weights, nothing));
    // The far-end spectrum is nothing.
    let (time, out) = choose|time: Vec<K::Bin>, out: Vec<K::Bin>|
        {
            &&& lifted_block(k, after.window, time@)
            &&& call_ensures(K::forward, (k, time), out)
            &&& out@ == spectrum
        };
    assert forall|i: int| 0 <= i < time@.len() implies #[trigger] time@[i] == nothing by {
        assert(lifted(k, after.window[i], time@[i]));
    }
    assert(all_equal(time@, nothing));
    assert(all_equal(spectrum, nothing));
    assert(spectrum.len() == n);
    // So is the weighted spectrum, and the echo estimate is silence.
    let (weighted, back) = choose|weighted: Vec<K::Bin>, back: Vec<K::Bin>|
        {
            &&& products(k, before.weights, spectrum, weighted@)
            &&& call_ensures(K::inverse, (k, weighted), back)
            &&& echo.len() == f
            &&& forall|j: int|
                0 <= j < f ==> normalised(
                    k,
                    back@[f + j],
                    before.weights.len() as u64,
                    #[trigger] echo[j],
                )
        };
    assert forall|i: int| 0 <= i < weighted@.len() implies #[trigger] weighted@[i] == nothing by {
        assert(call_ensures(K::bin_product, (k, before.weights[i], spectrum[i]), weighted@[i]));
    }
    assert(all_equal(weighted@, nothing));
    assert(all_equal(back@, nothing));
    assert(back@.len() == n);
    assert forall|j: int| 0 <= j < f implies #[trigger] echo[j] == zero by {
        assert(normalised(k, back@[f + j], n as u64, echo[j]));
        assert(back@[f + j] == nothing);
    }
    assert forall|j: int| 0 <= j < f implies #[trigger] error[j] == mic[j] by {
        assert(call_ensures(K::difference, (k, mic[j], echo[j]), error[j]));
    }
    assert(error =~= mic);
}

/// Every operation of `k` gives one result for given arguments, and the
/// transforms one block for given values.
pub open spec fn single_valued<K: Numeric>(k: &K) -> bool {
    &&& forall|n: u64, r: K::Real, s: K::Real| #[trigger]
        call_ensures(K::whole, (k, n), r) && #[trigger] call_ensures(K::whole, (k, n), s) ==> r
            == s
    &&& forall|a: K::Real, b: K::Real, r: K::Real, s: K::Real| #[trigger]
        call_ensures(K::sum, (k, a, b), r) && #[trigger] call_ensures(K::sum, (k, a, b), s) ==> r
            == s
    &&& forall|a: K::Real, b: K::Real, r: K::Real, s: K::Real| #[trigger]
        call_ensures(K::difference, (k, a, b), r) && #[trigger] call_ensures(
            K::difference,
            (k, a, b),
            s,
        ) ==> r == s
    &&& forall|a: K::Real, b: K::Real, r: K::Real, s: K::Real| #[trigger]
        call_ensures(K::product, (k, a, b), r) && #[trigger] call_ensures(
            K::product,
            (k, a, b),
            s,
        ) ==> r == s
    &&& forall|a: K::Real, b: K::Real, r: K::Real, s: K::Real| #[trigger]
        call_ensures(K::quotient, (k, a, b), r) && #[trigger] call_ensures(
            K::quotient,
            (k, a, b),
            s,
        ) ==> r == s
    &&& forall|a: K::Real, b: K::Real, r: K::Bin, s: K::Bin| #[trigger]
        call_ensures(K::bin, (k, a, b), r) && #[trigger] call_ensures(K::bin, (k, a, b), s) ==> r
            == s
    &&& forall|c: K::Bin, r: K::Real, s: K::Real| #[trigger]
        call_ensures(K::re, (k, c), r) && #[trigger] call_ensures(K::re, (k, c), s) ==> r == s
    &&& forall|c: K::Bin, r: K::Real, s: K::Real| #[trigger]
        call_ensures(K::norm_sqr, (k, c), r) && #[trigger] call_ensures(K::norm_sqr, (k, c), s)
            ==> r == s
    &&& forall|c: K::Bin, r: K::Bin, s: K::Bin| #[trigger]
        call_ensures(K::conj, (k, c), r) && #[trigger] call_ensures(K::conj, (k, c), s) ==> r
            == s
    &&& forall|a: K::Bin, b: K::Bin, r: K::Bin, s: K::Bin| #[trigger]
        call_ensures(K::bin_sum, (k, a, b), r) && #[trigger] call_ensures(
            K::bin_sum,
            (k, a, b),
            s,
        ) ==> r == s
    &&& forall|a: K::Bin, b: K::Bin, r: K::Bin, s: K::Bin| #[trigger]
        call_ensures(K::bin_product, (k, a, b), r) && #[trigger] call_ensures(
            K::bin_product,
            (k, a, b),
            s,
        ) ==> r == s
    &&& forall|c: K::Bin, d: K::Real, r: K::Bin, s: K::Bin| #[trigger]
        call_ensures(K::bin_quotient, (k, c, d), r) && #[trigger] call_ensures(
            K::bin_quotient,
            (k, c, d),
            s,
        ) ==> r == s
    &&& forall|a: Vec<K::Bin>, b: Vec<K::Bin>, r: Vec<K::Bin>, s: Vec<K::Bin>| #[trigger]
        call_ensures(K::forward, (k, a), r) && #[trigger] call_ensures(K::forward, (k, b), s)
            && a@ == b@ ==> r@ == s@
    &&& forall|a: Vec<K::Bin>, b: Vec<K::Bin>, r: Vec<K::Bin>, s: Vec<K::Bin>| #[trigger]
        call_ensures(K::inverse, (k, a), r) && #[trigger] call_ensures(K::inverse, (k, b), s)
            && a@ == b@ ==> r@ == s@
}

/// A frame has one outcome: where every operation of the arithmetic gives one
/// result, the state and the error frame after a call are fixed by the state
/// before it and the two frames.
pub proof fn lemma_process_has_one_outcome<K: Numeric>(
    before: FilterState<K>,
    far: Seq<K::Real>,
    mic: Seq<K::Real>,
    after: FilterState<K>,
    error: Seq<K::Real>,
    other_after: FilterState<K>,
    other_error: Seq<K::Real>,
)
    requires
        before.wf(),
        single_valued(&before.kernel),
        far.len() == before.frame_size,
        mic.len() == before.frame_size,
        before.processed(far, mic, after, error),
        before.processed(far, mic, other_after, other_error),
    ensures
        error == other_error,
        after == other_after,
{
    let k = &before.kernel;
    let (x1, echo1, e1) = choose|x: Seq<K::Bin>, echo: Seq<K::Real>, e: Seq<K::Bin>|
        before.steps_to(far, mic, x, echo, e, after, error);
    let (x2, echo2, e2) = choose|x: Seq<K::Bin>, echo: Seq<K::Real>, e: Seq<K::Bin>|
        before.steps_to(far, mic, x, echo, e, other_after, other_error);
    assert(after.window == other_after.window);
    assert(x1 == x2) by {
        lemma_one_spectrum(k, after.window, x1, x2);
    }
    assert(after.psd =~= other_after.psd);
    assert(echo1 =~= echo2) by {
        lemma_one_echo(k, before.weights, x1, before.frame_size, echo1, echo2);
    }
    assert(error =~= other_error);
    assert(e1 == e2) by {
        lemma_one_error_spectrum(k, error, before.fft_size, e1, e2);
    }
    assert(after.weights =~= other_after.weights);
}

proof fn lemma_one_spectrum<K: Numeric>(
    k: &K,
    time: Seq<K::Real>,
    first: Seq<K::Bin>,
    second: Seq<K::Bin>,
)
    requires
        single_valued(k),
        spectrum_of(k, time, first),
        spectrum_of(k, time, second),
    ensures
        first == second,
{
    let (a, r) = choose|a: Vec<K::Bin>, r: Vec<K::Bin>|
        {
            &&& lifted_block(k, time, a@)
            &&& call_ensures(K::forward, (k, a), r)
            &&& r@ == first
        };
    let (b, s) = choose|b: Vec<K::Bin>, s: Vec<K::Bin>|
        {
            &&& lifted_block(k, time, b@)
            &&& call_ensures(K::forward, (k, b), s)
            &&& s@ == second
        };
    assert(a@ =~= b@);
}

proof fn lemma_one_echo<K: Numeric>(
    k: &K,
    weights: Seq<K::Bin>,
    spectrum: Seq<K::Bin>,
    frame: nat,
    first: Seq<K::Real>,
    second: Seq<K::Real>,
)
    requires
        single_valued(k),
        echo_of(k, weights, spectrum, frame, first),
        echo_of(k, weights, spectrum, frame, second),
    ensures
        first =~= second,
{
    let (a, r) = choose|a: Vec<K::Bin>, r: Vec<K::Bin>|
        {
            &&& products(k, weights, spectrum, a@)
            &&& call_ensures(K::inverse, (k, a), r)
            &&& first.len() == frame
            &&& forall|j: int|
                0 <= j < frame ==> normalised(
                    k,
                    r@[frame + j],
                    weights.len() as u64,
                    #[trigger] first[j],
                )
        };
    let (b, s) = choose|b: Vec<K::Bin>, s: Vec<K::Bin>|
        {
            &&& products(k, weights, spectrum, b@)
            &&& call_ensures(K::inverse, (k, b), s)
            &&& second.len() == frame
            &&& forall|j: int|
                0 <= j < frame ==> normalised(
                    k,
                    s@[frame + j],
                    weights.len() as u64,
                    #[trigger] second[j],
                )
        };
    assert(a@ =~= b@);
    assert(r@ == s@);
    assert forall|j: int| 0 <= j < frame implies first[j] == second[j] by {
        assert(normalised(k, r@[frame + j], weights.len() as u64, first[j]));
        assert(normalised(k, s@[frame + j], weights.len() as u64, second[j]));
    }
}

proof fn lemma_one_error_spectrum<K: Numeric>(
    k: &K,
    error: Seq<K::Real>,
    n: nat,
    first: Seq<K::Bin>,
    second: Seq<K::Bin>,
)
    requires
        single_valued(k),
        error_spectrum_of(k, error, n, first),
        error_spectrum_of(k, error, n, second),
    ensures
        first == second,
{
    let (a, r) = choose|a: Vec<K::Bin>, r: Vec<K::Bin>|
        {
            &&& padded_block(k, error, n, a@)
            &&& call_ensures(K::forward, (k, a), r)
            &&& r@ == first
        };
    let (b, s) = choose|b: Vec<K::Bin>, s: Vec<K::Bin>|
        {
            &&& padded_block(k, error, n, b@)
            &&& call_ensures(K::forward, (k, b), s)
            &&& s@ == second
        };
    assert(a@ =~= b@);
}

/// The far-end window of a filter is the tail of everything played: where it
/// holds the most recent samples of `history` before a frame, it holds the most
/// recent samples of `history` and the frame after it.
pub proof fn lemma_process_keeps_most_recent<K: Numeric>(
    before: FilterState<K>,
    far: Seq<K::Real>,
    mic: Seq<K::Real>,
    after: FilterState<K>,
    error: Seq<K::Real>,
    history: Seq<K::Real>,
)
    requires
        before.wf(),
        far.len() == before.frame_size,
        before.processed(far, mic, after, error),
        before.fft_size <= history.len(),
        before.window == most_recent(history, before.fft_size),
    ensures
        after.window == most_recent(history + far, before.fft_size),
        after.window.len() == before.fft_size,
{
    lemma_window_follows_history(history, far, before.fft_size);
}

/// From its second frame on, a filter for blocks of more than one sample holds
/// the last two far-end frames in its window, the earlier one first, and
/// nothing else.
pub proof fn lemma_two_frames_fill_window<K: Numeric>(
    before: FilterState<K>,
    first_far: Seq<K::Real>,
    first_mic: Seq<K::Real>,
    between: FilterState<K>,
    first_error: Seq<K::Real>,
    second_far: Seq<K::Real>,
    second_mic: Seq<K::Real>,
    after: FilterState<K>,
    second_error: Seq<K::Real>,
)
    requires
        before.wf(),
        before.fft_size > 1,
        first_far.len() == before.frame_size,
        second_far.len() == before.frame_size,
        before.processed(first_far, first_mic, between, first_error),
        between.processed(second_far, second_mic, after, second_error),
    ensures
        after.window == first_far + second_far,
{
    lemma_two_frames_fill_block(before.fft_size);
    lemma_two_frames_replace_window(before.window, first_far, second_far);
}

} // verus!
