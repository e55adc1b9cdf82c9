use crate::error::AecError;
use crate::formulas::{
    ratio, ratio_of, FLOOR_DENOMINATOR, SMOOTHING_DENOMINATOR, SMOOTHING_NUMERATOR,
};
use crate::geometry::{frame_size_of, power_of_two, valid_fft_size};
use crate::numeric::{keeps_length, Numeric};
use crate::stages::{
    adapt_weights, echo_estimate, echo_of, error_signal, error_spectrum, error_spectrum_of,
    errors, far_spectrum, psd_smoothed, smooth_psd, spectrum_of, weights_adapted, zero_bin,
};
use crate::window::{slid, slide};
use vstd::prelude::*;

verus! {

/// What a filter is, as mathematics: its geometry, its parameters and the three
/// vectors that it adapts.
pub struct FilterState<K: Numeric> {
    /// The arithmetic and the transform that the filter runs on.
    pub kernel: K,
    /// The length of a transform block.
    pub fft_size: nat,
    /// The number of samples taken and given per call.
    pub frame_size: nat,
    /// The adaptive filter's taps, one per frequency bin.
    pub weights: Seq<K::Bin>,
    /// The most recent far-end samples, oldest first.
    pub window: Seq<K::Real>,
    /// The smoothed power of the far-end spectrum, one per frequency bin.
    pub psd: Seq<K::Real>,
    /// The adaptation step size.
    pub step_size: K::Real,
    /// The smoothing factor of the power estimate.
    pub smoothing: K::Real,
    /// The stability floor added to a power before dividing by it.
    pub floor: K::Real,
}

impl<K: Numeric> FilterState<K> {
    /// The shape that every filter has at all times.
    pub open spec fn wf(self) -> bool {
        &&& valid_fft_size(self.fft_size)
        &&& self.fft_size <= usize::MAX
        &&& self.frame_size == frame_size_of(self.fft_size)
        &&& self.weights.len() == self.fft_size
        &&& self.window.len() == self.fft_size
        &&& self.psd.len() == self.fft_size
        &&& keeps_length(&self.kernel)
        &&& ratio(&self.kernel, SMOOTHING_NUMERATOR, SMOOTHING_DENOMINATOR, self.smoothing)
        &&& ratio(&self.kernel, 1, FLOOR_DENOMINATOR, self.floor)
    }

    /// The state of a filter that has heard nothing yet: no echo path learnt,
    /// silence in the window, unit power in every bin.
    pub open spec fn fresh(self) -> bool {
        &&& forall|i: int|
            0 <= i < self.weights.len() ==> zero_bin(&self.kernel, #[trigger] self.weights[i])
        &&& forall|i: int|
            0 <= i < self.window.len() ==> call_ensures(
                K::whole,
                (&self.kernel, 0u64),
                #[trigger] self.window[i],
            )
        &&& forall|i: int|
            0 <= i < self.psd.len() ==> call_ensures(
                K::whole,
                (&self.kernel, 1u64),
                #[trigger] self.psd[i],
            )
    }

    /// One frame, step by step: `after` and `error` are what the far-end frame
    /// `far` and the microphone frame `mic` make of `self`, where `spectrum` is
    /// the far-end spectrum, `echo` the echo estimate and `error_spectrum` the
    /// spectrum of the padded error met on the way.
    pub open spec fn steps_to(
        self,
        far: Seq<K::Real>,
        mic: Seq<K::Real>,
        spectrum: Seq<K::Bin>,
        echo: Seq<K::Real>,
        error_spectrum: Seq<K::Bin>,
        after: Self,
        error: Seq<K::Real>,
    ) -> bool {
        let k = &self.kernel;
        &&& after.kernel == self.kernel
        &&& after.fft_size == self.fft_size
        &&& after.frame_size == self.frame_size
        &&& after.step_size == self.step_size
        &&& after.smoothing == self.smoothing
        &&& after.floor == self.floor
        &&& after.window == slid(self.window, far)
        &&& spectrum_of(k, after.window, spectrum)
        &&& psd_smoothed(k, self.smoothing, self.psd, spectrum, after.psd)
        &&& echo_of(k, self.weights, spectrum, self.frame_size, echo)
        &&& errors(k, mic, echo, error)
        &&& error_spectrum_of(k, error, self.fft_size, error_spectrum)
        &&& weights_adapted(
            k,
            self.weights,
            spectrum,
            error_spectrum,
            after.psd,
            self.floor,
            self.step_size,
            after.weights,
        )
    }

    /// `after` and `error` are what one frame makes of `self`.
    pub open spec fn processed(
        self,
        far: Seq<K::Real>,
        mic: Seq<K::Real>,
        after: Self,
        error: Seq<K::Real>,
    ) -> bool {
        exists|spectrum: Seq<K::Bin>, echo: Seq<K::Real>, error_spectrum: Seq<K::Bin>|
            self.steps_to(far, mic, spectrum, echo, error_spectrum, after, error)
    }
}

/// An acoustic echo canceller: a frequency-domain adaptive filter that
/// processes audio frame by frame with the overlap-save method.
pub struct FdafAec<K: Numeric> {
    fft_size: usize,
    frame_size: usize,
    kernel: K,
    weights: Vec<K::Bin>,
    far_end_buffer: Vec<K::Real>,
    mu: K::Real,
    psd: Vec<K::Real>,
    smoothing_factor: K::Real,
    floor: K::Real,
}

impl<K: Numeric> View for FdafAec<K> {
    type V = FilterState<K>;

    closed spec fn view(&self) -> FilterState<K> {
        FilterState {
            kernel: self.kernel,
            fft_size: self.fft_size as nat,
            frame_size: self.frame_size as nat,
            weights: self.weights@,
            window: self.far_end_buffer@,
            psd: self.psd@,
            step_size: self.mu,
            smoothing: self.smoothing_factor,
            floor: self.floor,
        }
    }
}

impl<K: Numeric> FdafAec<K> {
    /// A filter for transform blocks of `fft_size` samples that adapts with the
    /// step size `step_size` and computes with `kernel`.
    ///
    /// `fft_size` must be a power of two; the filter then takes and gives
    /// frames of half that many samples.
    pub fn new(fft_size: usize, step_size: K::Real, kernel: K) -> (made: Result<Self, AecError>)
        requires
            keeps_length(&kernel),
        ensures
            match made {
                Ok(aec) => {
                    &&& valid_fft_size(fft_size as nat)
                    &&& aec@.wf()
                    &&& aec@.fresh()
                    &&& aec@.kernel == kernel
                    &&& aec@.fft_size == fft_size
                    &&& aec@.step_size == step_size
                },
                Err(e) => e == AecError::InvalidConfiguration && !valid_fft_size(fft_size as nat),
            },
    {
        if fft_size == 0 || !power_of_two(fft_size) {
            return Err(AecError::InvalidConfiguration);
        }
        let frame_size: usize = fft_size / 2;
        let zero = kernel.whole(0);
        let one = kernel.whole(1);
        let nothing = kernel.bin(zero, zero);
        let smoothing_factor = ratio_of(&kernel, SMOOTHING_NUMERATOR, SMOOTHING_DENOMINATOR);
        let floor = ratio_of(&kernel, 1, FLOOR_DENOMINATOR);
        let mut weights: Vec<K::Bin> = Vec::new();
        let mut far_end_buffer: Vec<K::Real> = Vec::new();
        let mut psd: Vec<K::Real> = Vec::new();
        let mut i: usize = 0;
        while i < fft_size
            invariant
                i <= fft_size,
                weights@.len() == i,
                far_end_buffer@.len() == i,
                psd@.len() == i,
                forall|j: int| 0 <= j < i ==> #[trigger] weights@[j] == nothing,
                forall|j: int| 0 <= j < i ==> #[trigger] far_end_buffer@[j] == zero,
                forall|j: int| 0 <= j < i ==> #[trigger] psd@[j] == one,
            decreases fft_size - i,
        {
            weights.push(nothing);
            far_end_buffer.push(zero);
            psd.push(one);
            i += 1;
        }
        let aec = FdafAec {
            fft_size,
            frame_size,
            kernel,
            weights,
            far_end_buffer,
            mu: step_size,
            psd,
            smoothing_factor,
            floor,
        };
        Ok(aec)
    }

    /// The length of a transform block.
    pub fn fft_size(&self) -> (n: usize)
        ensures
            n == self@.fft_size,
    {
        self.fft_size
    }

    /// The number of samples that `process` takes of each signal and gives
    /// back.
    pub fn frame_size(&self) -> (n: usize)
        ensures
            n == self@.frame_size,
    {
        self.frame_size
    }

    /// The adaptive filter's taps, one per frequency bin.
    pub fn weights(&self) -> (w: &Vec<K::Bin>)
        ensures
            w@ == self@.weights,
    {
        &self.weights
    }

    /// The most recent far-end samples, oldest first.
    pub fn far_end_buffer(&self) -> (b: &Vec<K::Real>)
        ensures
            b@ == self@.window,
    {
        &self.far_end_buffer
    }

    /// The smoothed power of the far-end spectrum, one per frequency bin.
    pub fn psd(&self) -> (p: &Vec<K::Real>)
        ensures
            p@ == self@.psd,
    {
        &self.psd
    }

    /// Removes the echo of the far-end signal from one frame of the microphone
    /// signal, and adapts to what is left.
    ///
    /// Both frames must hold `frame_size` samples, the far-end frame those that
    /// were played while the microphone frame was heard. A frame of another
    /// length is refused, and the filter stays as it was.
    pub fn process(
        &mut self,
        far_end_frame: &[K::Real],
        mic_frame: &[K::Real],
    ) -> (out: Result<Vec<K::Real>, AecError>)
        requires
            old(self)@.wf(),
        ensures
            final(self)@.wf(),
            match out {
                Ok(error) => {
                    &&& far_end_frame@.len() == old(self)@.frame_size
                    &&& mic_frame@.len() == old(self)@.frame_size
                    &&& error@.len() == old(self)@.frame_size
                    &&& old(self)@.processed(far_end_frame@, mic_frame@, final(self)@, error@)
                },
                Err(e) => {
                    &&& e == AecError::FrameSizeMismatch
                    &&& (far_end_frame@.len() != old(self)@.frame_size
                        || mic_frame@.len() != old(self)@.frame_size)
                    &&& *final(self) == *old(self)
                },
            },
    {
        if far_end_frame.len() != self.frame_size || mic_frame.len() != self.frame_size {
            return Err(AecError::FrameSizeMismatch);
        }
        slide(&mut self.far_end_buffer, far_end_frame);
        let x_f = far_spectrum(&self.kernel, &self.far_end_buffer);
        smooth_psd(&self.kernel, self.smoothing_factor, &mut self.psd, &x_f);
        let echo = echo_estimate(&self.kernel, &self.weights, &x_f, self.frame_size);
        let error = error_signal(&self.kernel, mic_frame, &echo);
        let e_f = error_spectrum(&self.kernel, &error, self.fft_size);
        adapt_weights(&self.kernel, &mut self.weights, &x_f, &e_f, &self.psd, self.floor, self.mu);
        proof {
            assert(old(self)@.steps_to(
                far_end_frame@,
                mic_frame@,
                x_f@,
                echo@,
                e_f@,
                self@,
                error@,
            ));
        }
        Ok(error)
    }
}

} // verus!
