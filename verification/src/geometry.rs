use vstd::arithmetic::power2::{lemma_pow2_adds, lemma_pow2_pos, lemma_pow2_unfold, pow2};
use vstd::prelude::*;

verus! {

/// `n` is one of 1, 2, 4, 8, ...
pub open spec fn is_power_of_two(n: nat) -> bool {
    exists|e: nat| n == pow2(e)
}

/// The number of samples one frame holds for a transform block of `fft_size`.
pub open spec fn frame_size_of(fft_size: nat) -> nat {
    fft_size / 2
}

/// A transform length the filter accepts.
pub open spec fn valid_fft_size(fft_size: nat) -> bool {
    fft_size > 0 && is_power_of_two(fft_size)
}

/// An odd number above one times a power of two is not a power of two.
proof fn lemma_odd_factor_excludes(n: nat, m: nat, e: nat)
    requires
        n == m * pow2(e),
        m > 1,
        m % 2 == 1,
    ensures
        !is_power_of_two(n),
{
    if is_power_of_two(n) {
        let k = choose|k: nat| n == pow2(k);
        lemma_pow2_pos(e);
        lemma_pow2_pos(k);
        if k <= e {
            let d = (e - k) as nat;
            lemma_pow2_adds(k, d);
            lemma_pow2_pos(d);
            assert(m * (pow2(k) * pow2(d)) == pow2(k));
            assert(false) by (nonlinear_arith)
                requires
                    m * (pow2(k) * pow2(d)) == pow2(k),
                    m > 1,
                    pow2(k) > 0,
                    pow2(d) > 0,
            ;
        } else {
            let d = (k - e) as nat;
            lemma_pow2_adds(e, d);
            assert(m * pow2(e) == pow2(e) * pow2(d));
            assert(m == pow2(d)) by (nonlinear_arith)
                requires
                    m * pow2(e) == pow2(e) * pow2(d),
                    pow2(e) > 0,
            ;
            lemma_pow2_unfold(d);
            assert(false);
        }
    }
}

/// Whether `n` is a power of two.
pub fn power_of_two(n: usize) -> (b: bool)
    ensures
        b == is_power_of_two(n as nat),
{
    if n == 0 {
        proof {
            assert forall|e: nat| 0 != #[trigger] pow2(e) by {
                lemma_pow2_pos(e);
            }
        }
        return false;
    }
    let mut m: usize = n;
    let ghost e: nat = 0;
    proof {
        assert(pow2(0) == 1) by {
            lemma_pow2_unfold(1);
            vstd::arithmetic::power2::lemma2_to64();
        }
        assert(n == m * pow2(0)) by (nonlinear_arith)
            requires
                n == m,
                pow2(0) == 1,
        ;
    }
    while m % 2 == 0
        invariant
            m >= 1,
            n == m * pow2(e),
        decreases m,
    {
        proof {
            lemma_pow2_unfold(e + 1);
            assert(n == (m / 2) * pow2(e + 1)) by (nonlinear_arith)
                requires
                    n == m * pow2(e),
                    m % 2 == 0,
                    pow2(e + 1) == 2 * pow2(e),
            ;
            e = e + 1;
        }
        m = m / 2;
    }
    if m == 1 {
        proof {
            assert(n == pow2(e)) by (nonlinear_arith)
                requires
                    n == m * pow2(e),
                    m == 1,
            ;
        }
        true
    } else {
        proof {
            lemma_odd_factor_excludes(n as nat, m as nat, e);
        }
        false
    }
}

/// A power of two above one is twice its half, so two frames fill one block.
pub proof fn lemma_two_frames_fill_block(fft_size: nat)
    requires
        valid_fft_size(fft_size),
        fft_size > 1,
    ensures
        2 * frame_size_of(fft_size) == fft_size,
{
    let e = choose|e: nat| fft_size == pow2(e);
    if e == 0 {
        vstd::arithmetic::power2::lemma2_to64();
    } else {
        lemma_pow2_unfold(e);
    }
}

} // verus!
