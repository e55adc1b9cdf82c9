use fdaf_aec::formulas::{adapt, lift, normalise, ratio_of, smooth};
use fdaf_aec::stages::{echo_estimate, far_spectrum};
use fdaf_aec::{AecError, FdafAec, Numeric};
use nalgebra::DVector;
use num_complex::Complex;
use rustfft::{Fft, FftPlanner};
use std::sync::Arc;

/// Single-precision arithmetic with planned transforms of one length.
struct FloatKernel {
    forward: Arc<dyn Fft<f32>>,
    inverse: Arc<dyn Fft<f32>>,
}

impl FloatKernel {
    fn new(fft_size: usize) -> Self {
        let mut planner = FftPlanner::new();
        FloatKernel {
            forward: planner.plan_fft_forward(fft_size),
            inverse: planner.plan_fft_inverse(fft_size),
        }
    }
}

impl Numeric for FloatKernel {
    type Real = f32;
    type Bin = Complex<f32>;

    fn whole(&self, n: u64) -> f32 {
        n as f32
    }

    fn sum(&self, a: f32, b: f32) -> f32 {
        a + b
    }

    fn difference(&self, a: f32, b: f32) -> f32 {
        a - b
    }

    fn product(&self, a: f32, b: f32) -> f32 {
        a * b
    }

    fn quotient(&self, a: f32, b: f32) -> f32 {
        a / b
    }

    fn bin(&self, re: f32, im: f32) -> Complex<f32> {
        Complex::new(re, im)
    }

    fn re(&self, c: Complex<f32>) -> f32 {
        c.re
    }

    fn norm_sqr(&self, c: Complex<f32>) -> f32 {
        c.norm_sqr()
    }

    fn conj(&self, c: Complex<f32>) -> Complex<f32> {
        c.conj()
    }

    fn bin_sum(&self, a: Complex<f32>, b: Complex<f32>) -> Complex<f32> {
        a + b
    }

    fn bin_product(&self, a: Complex<f32>, b: Complex<f32>) -> Complex<f32> {
        a * b
    }

    fn bin_quotient(&self, c: Complex<f32>, d: f32) -> Complex<f32> {
        c / d
    }

    fn forward(&self, mut block: Vec<Complex<f32>>) -> Vec<Complex<f32>> {
        self.forward.process(&mut block);
        block
    }

    fn inverse(&self, mut block: Vec<Complex<f32>>) -> Vec<Complex<f32>> {
        self.inverse.process(&mut block);
        block
    }
}

fn filter(fft_size: usize, step_size: f32) -> FdafAec<FloatKernel> {
    FdafAec::new(fft_size, step_size, FloatKernel::new(fft_size)).unwrap()
}

/// Uniform noise in [-1, 1) from a linear congruential generator.
struct Noise(u64);

impl Noise {
    fn next(&mut self) -> f32 {
        self.0 = self.0.wrapping_mul(6364136223846793005).wrapping_add(1442695040888963407);
        ((self.0 >> 40) as f32) / ((1u64 << 23) as f32) - 1.0
    }

    fn frame(&mut self, len: usize) -> Vec<f32> {
        (0..len).map(|_| self.next()).collect()
    }
}

/// The same filter written out with matrix operations, one call per step.
struct DirectFilter {
    fft_size: usize,
    frame_size: usize,
    fft: Arc<dyn Fft<f32>>,
    ifft: Arc<dyn Fft<f32>>,
    weights: DVector<Complex<f32>>,
    far_end_buffer: DVector<f32>,
    mu: f32,
    psd: DVector<f32>,
    smoothing_factor: f32,
}

impl DirectFilter {
    fn new(fft_size: usize, step_size: f32) -> Self {
        let mut planner = FftPlanner::new();
        DirectFilter {
            fft_size,
            frame_size: fft_size / 2,
            fft: planner.plan_fft_forward(fft_size),
            ifft: planner.plan_fft_inverse(fft_size),
            weights: DVector::from_element(fft_size, Complex::new(0.0, 0.0)),
            far_end_buffer: DVector::from_element(fft_size, 0.0),
            mu: step_size,
            psd: DVector::from_element(fft_size, 1.0),
            smoothing_factor: 0.98,
        }
    }

    fn process(&mut self, far_end_frame: &[f32], mic_frame: &[f32]) -> Vec<f32> {
        self.far_end_buffer.as_mut_slice().copy_within(self.frame_size.., 0);
        self.far_end_buffer
            .rows_mut(self.frame_size, self.frame_size)
            .copy_from_slice(far_end_frame);
        let mut x_t: Vec<Complex<f32>> =
            self.far_end_buffer.iter().map(|&x| Complex::new(x, 0.0)).collect();
        self.fft.process(&mut x_t);
        let x_f = DVector::from_vec(x_t);
        for i in 0..self.fft_size {
            let power = x_f[i].norm_sqr();
            self.psd[i] =
                self.smoothing_factor * self.psd[i] + (1.0 - self.smoothing_factor) * power;
        }
        let y_f = self.weights.component_mul(&x_f);
        let mut y_t_complex = y_f.as_slice().to_vec();
        self.ifft.process(&mut y_t_complex);
        let n = self.fft_size as f32;
        let y_t: DVector<f32> =
            DVector::from_iterator(self.fft_size, y_t_complex.iter().map(|c| c.re / n));
        let estimated_echo = y_t.rows(self.frame_size, self.frame_size);
        let error_signal: Vec<f32> =
            mic_frame.iter().zip(estimated_echo.iter()).map(|(mic, echo)| mic - echo).collect();
        let mut e_t = vec![Complex::new(0.0, 0.0); self.fft_size];
        for (i, &sample) in error_signal.iter().enumerate() {
            e_t[i + self.frame_size] = Complex::new(sample, 0.0);
        }
        self.fft.process(&mut e_t);
        let e_f = DVector::from_vec(e_t);
        let mut gradient = x_f.map(|c| c.conj()).component_mul(&e_f);
        for i in 0..self.fft_size {
            gradient[i] /= self.psd[i] + 1e-10;
        }
        self.weights += &gradient * Complex::new(self.mu, 0.0);
        error_signal
    }
}

fn energy(frame: &[f32]) -> f64 {
    frame.iter().map(|&x| (x as f64) * (x as f64)).sum()
}

/// The microphone signal for the far-end stream `far`: the stream through the
/// echo path `path`, sample `at` onwards, `len` samples.
fn echo_through(path: &[f32], far: &[f32], at: usize, len: usize) -> Vec<f32> {
    (at..at + len)
        .map(|n| {
            let mut acc = 0.0f32;
            for (m, &h) in path.iter().enumerate() {
                if n >= m {
                    acc += h * far[n - m];
                }
            }
            acc
        })
        .collect()
}

#[test]
fn new_instance_and_process_frame() {
    const FFT_SIZE: usize = 512;
    const FRAME_SIZE: usize = FFT_SIZE / 2;
    const STEP_SIZE: f32 = 0.5;

    let mut aec = filter(FFT_SIZE, STEP_SIZE);

    let far_end_frame = vec![0.0; FRAME_SIZE];
    let mic_frame = vec![0.1; FRAME_SIZE];

    let error_signal = aec.process(&far_end_frame, &mic_frame).unwrap();

    assert_eq!(error_signal.len(), FRAME_SIZE);
    assert!(error_signal.iter().all(|&x| x.is_finite()), "Output contains NaN or Infinity");
}

#[test]
fn test_new_with_non_power_of_two_fft_size() {
    let made = FdafAec::new(511, 0.5, FloatKernel::new(511));
    assert_eq!(made.err(), Some(AecError::InvalidConfiguration));
}

#[test]
fn test_process_with_wrong_frame_size() {
    let mut aec = filter(512, 0.5);
    let far_end_frame = vec![0.0; 128];
    let mic_frame = vec![0.0; 256];
    assert_eq!(aec.process(&far_end_frame, &mic_frame), Err(AecError::FrameSizeMismatch));
}

#[test]
fn new_accepts_512_and_rejects_zero() {
    let aec = filter(512, 0.5);
    assert_eq!(aec.fft_size(), 512);
    assert_eq!(aec.frame_size(), 256);
    let refused = FdafAec::new(0, 0.5, FloatKernel::new(1));
    assert_eq!(refused.err(), Some(AecError::InvalidConfiguration));
}

#[test]
fn fresh_filter_holds_zero_weights_silence_and_unit_power() {
    let aec = filter(8, 0.25);
    assert_eq!(aec.weights(), &vec![Complex::new(0.0f32, 0.0); 8]);
    assert_eq!(aec.far_end_buffer(), &vec![0.0f32; 8]);
    assert_eq!(aec.psd(), &vec![1.0f32; 8]);
}

#[test]
fn output_has_frame_size_samples_for_every_block_length() {
    for &n in &[1usize, 2, 4, 16, 64, 256, 1024] {
        let mut aec = filter(n, 0.5);
        let mut noise = Noise(n as u64);
        for _ in 0..3 {
            let far = noise.frame(n / 2);
            let mic = noise.frame(n / 2);
            assert_eq!(aec.process(&far, &mic).unwrap().len(), n / 2);
        }
    }
}

#[test]
fn block_of_one_sample_takes_empty_frames() {
    let mut aec = filter(1, 0.5);
    assert_eq!(aec.frame_size(), 0);
    assert_eq!(aec.process(&[], &[]), Ok(vec![]));
    assert_eq!(aec.process(&[0.5], &[]), Err(AecError::FrameSizeMismatch));
}

#[test]
fn output_stays_finite_over_many_frames() {
    let mut aec = filter(64, 1.0);
    let mut noise = Noise(7);
    for _ in 0..2000 {
        let far = noise.frame(32);
        let mic = noise.frame(32);
        let error = aec.process(&far, &mic).unwrap();
        assert!(error.iter().all(|x| x.is_finite()));
    }
    assert!(aec.psd().iter().all(|&p| p.is_finite() && p > 0.0));
    assert!(aec.weights().iter().all(|w| w.re.is_finite() && w.im.is_finite()));
}

#[test]
fn silent_far_end_passes_microphone_through_on_first_call() {
    let mut aec = filter(512, 0.5);
    let far = vec![0.0f32; 256];
    let mut noise = Noise(11);
    let mic = noise.frame(256);
    let error = aec.process(&far, &mic).unwrap();
    assert_eq!(error, mic);
}

#[test]
fn wrong_far_end_length_leaves_filter_unchanged() {
    let mut noise = Noise(3);
    let far = noise.frame(256);
    let mic = noise.frame(256);

    let mut fresh = filter(512, 0.5);
    let expected = fresh.process(&far, &mic).unwrap();

    let mut aec = filter(512, 0.5);
    let short = vec![0.25f32; 128];
    assert_eq!(aec.process(&short, &mic), Err(AecError::FrameSizeMismatch));
    assert_eq!(aec.weights(), &vec![Complex::new(0.0f32, 0.0); 512]);
    assert_eq!(aec.far_end_buffer(), &vec![0.0f32; 512]);
    assert_eq!(aec.psd(), &vec![1.0f32; 512]);
    assert_eq!(aec.process(&far, &mic).unwrap(), expected);
}

#[test]
fn wrong_microphone_length_is_refused_too() {
    let mut aec = filter(512, 0.5);
    let far = vec![0.5f32; 256];
    let long = vec![0.5f32; 257];
    assert_eq!(aec.process(&far, &long), Err(AecError::FrameSizeMismatch));
    assert_eq!(aec.far_end_buffer(), &vec![0.0f32; 512]);
}

#[test]
fn far_end_buffer_holds_the_last_block_in_order() {
    let mut aec = filter(8, 0.5);
    let mic = vec![0.0f32; 4];
    aec.process(&[1.0, 2.0, 3.0, 4.0], &mic).unwrap();
    assert_eq!(aec.far_end_buffer(), &vec![0.0, 0.0, 0.0, 0.0, 1.0, 2.0, 3.0, 4.0]);
    aec.process(&[5.0, 6.0, 7.0, 8.0], &mic).unwrap();
    assert_eq!(aec.far_end_buffer(), &vec![1.0, 2.0, 3.0, 4.0, 5.0, 6.0, 7.0, 8.0]);
    aec.process(&[9.0, 10.0, 11.0, 12.0], &mic).unwrap();
    assert_eq!(aec.far_end_buffer(), &vec![5.0, 6.0, 7.0, 8.0, 9.0, 10.0, 11.0, 12.0]);
}

#[test]
fn process_matches_step_by_step_matrix_computation() {
    let mut aec = filter(64, 0.5);
    let mut direct = DirectFilter::new(64, 0.5);
    let mut noise = Noise(5);
    for _ in 0..50 {
        let far = noise.frame(32);
        let mic = noise.frame(32);
        let got = aec.process(&far, &mic).unwrap();
        let want = direct.process(&far, &mic);
        assert_eq!(got, want);
    }
    assert_eq!(aec.weights().as_slice(), direct.weights.as_slice());
    assert_eq!(aec.psd().as_slice(), direct.psd.as_slice());
    assert_eq!(aec.far_end_buffer().as_slice(), direct.far_end_buffer.as_slice());
}

#[test]
fn error_energy_falls_as_the_filter_learns_a_fixed_echo_path() {
    const FFT_SIZE: usize = 128;
    const FRAME: usize = FFT_SIZE / 2;
    const FRAMES: usize = 600;
    let path: Vec<f32> = (0..24)
        .map(|m| {
            let sign = if m % 2 == 0 { 1.0 } else { -1.0 };
            sign * 0.6 * (-(m as f32) / 6.0).exp()
        })
        .collect();
    let mut noise = Noise(2024);
    let far = noise.frame(FRAME * FRAMES);
    let mut aec = filter(FFT_SIZE, 0.5);
    let mut early = 0.0f64;
    let mut late = 0.0f64;
    for t in 0..FRAMES {
        let far_frame = &far[t * FRAME..(t + 1) * FRAME];
        let mic = echo_through(&path, &far, t * FRAME, FRAME);
        let error = aec.process(far_frame, &mic).unwrap();
        if t < 10 {
            early += energy(&error);
        }
        if t >= FRAMES - 10 {
            late += energy(&error);
        }
    }
    assert!(early > 0.0);
    assert!(late < 0.1 * early, "early {} late {}", early, late);
}

#[test]
fn echo_estimate_is_linear_convolution_with_the_weights() {
    const FFT_SIZE: usize = 64;
    const FRAME: usize = FFT_SIZE / 2;
    let kernel = FloatKernel::new(FFT_SIZE);
    let path: Vec<f32> = vec![0.5, -0.25, 0.125, 0.0, 0.3, -0.1, 0.05, 0.2];
    let mut taps: Vec<Complex<f32>> = vec![Complex::new(0.0, 0.0); FFT_SIZE];
    for (m, &h) in path.iter().enumerate() {
        taps[m] = Complex::new(h, 0.0);
    }
    let weights = kernel.forward(taps);

    let mut window = vec![0.0f32; FFT_SIZE];
    window[FRAME + 3] = 1.0;
    let spectrum = far_spectrum(&kernel, &window);
    let echo = echo_estimate(&kernel, &weights, &spectrum, FRAME);
    let want = echo_through(&path, &window, FRAME, FRAME);
    assert_eq!(echo.len(), FRAME);
    for j in 0..FRAME {
        assert!((echo[j] - want[j]).abs() < 1e-5, "sample {}: {} against {}", j, echo[j], want[j]);
    }
    assert!((echo[3] - 0.5).abs() < 1e-5);
    assert!((echo[4] + 0.25).abs() < 1e-5);

    let mut noise = Noise(99);
    let busy = noise.frame(FFT_SIZE);
    let spectrum = far_spectrum(&kernel, &busy);
    let echo = echo_estimate(&kernel, &weights, &spectrum, FRAME);
    let want = echo_through(&path, &busy, FRAME, FRAME);
    for j in 0..FRAME {
        assert!((echo[j] - want[j]).abs() < 1e-4, "sample {}: {} against {}", j, echo[j], want[j]);
    }
}

#[test]
fn smoothing_factor_and_floor_have_their_literal_values() {
    let kernel = FloatKernel::new(2);
    assert_eq!(ratio_of(&kernel, 49, 50), 0.98f32);
    assert_eq!(ratio_of(&kernel, 1, 10_000_000_000), 1e-10f32);
    assert_eq!(fdaf_aec::formulas::SMOOTHING_NUMERATOR, 49);
    assert_eq!(fdaf_aec::formulas::SMOOTHING_DENOMINATOR, 50);
    assert_eq!(fdaf_aec::formulas::FLOOR_DENOMINATOR, 10_000_000_000);
}

#[test]
fn smooth_weighs_old_power_against_new() {
    let kernel = FloatKernel::new(2);
    let got = smooth(&kernel, 0.98, 1.0, Complex::new(3.0, 4.0));
    assert_eq!(got, 0.98f32 * 1.0 + (1.0 - 0.98f32) * 25.0);
    assert!((got - 1.48).abs() < 1e-6);
    assert_eq!(smooth(&kernel, 0.5, 8.0, Complex::new(0.0, 2.0)), 6.0);
}

#[test]
fn normalise_divides_the_real_part_by_the_block_length() {
    let kernel = FloatKernel::new(2);
    assert_eq!(normalise(&kernel, Complex::new(12.0, 99.0), 8), 1.5);
    assert_eq!(normalise(&kernel, Complex::new(-512.0, 0.0), 512), -1.0);
}

#[test]
fn lift_gives_a_real_sample_no_imaginary_part() {
    let kernel = FloatKernel::new(2);
    assert_eq!(lift(&kernel, 0.75), Complex::new(0.75, 0.0));
}

#[test]
fn adapt_steps_along_the_normalised_gradient() {
    let kernel = FloatKernel::new(2);
    let w = Complex::new(1.0f32, -1.0);
    let x = Complex::new(2.0f32, 1.0);
    let e = Complex::new(0.5f32, 0.25);
    // conj(x) * e = (2 - i)(0.5 + 0.25i) = 1.25 + 0i; over (3 + 1) = 0.3125; times 0.5.
    let got = adapt(&kernel, w, x, e, 3.0, 1.0, 0.5);
    assert_eq!(got, Complex::new(1.15625, -1.0));
    let floor = 1e-10f32;
    let got = adapt(&kernel, w, x, e, 3.0, floor, 0.5);
    let mut gradient = x.conj() * e;
    gradient /= 3.0 + floor;
    assert_eq!(got, w + gradient * Complex::new(0.5, 0.0));
}

#[test]
fn two_filters_fed_the_same_frames_agree() {
    let mut one = filter(32, 0.75);
    let mut other = filter(32, 0.75);
    let mut noise = Noise(17);
    for _ in 0..20 {
        let far = noise.frame(16);
        let mic = noise.frame(16);
        assert_eq!(one.process(&far, &mic), other.process(&far, &mic));
    }
    assert_eq!(one.weights(), other.weights());
    assert_eq!(one.psd(), other.psd());
    assert_eq!(one.far_end_buffer(), other.far_end_buffer());
}

#[test]
fn refused_frame_does_not_disturb_a_running_filter() {
    let mut one = filter(32, 0.5);
    let mut other = filter(32, 0.5);
    let mut noise = Noise(23);
    for t in 0..10 {
        let far = noise.frame(16);
        let mic = noise.frame(16);
        if t % 3 == 1 {
            assert_eq!(one.process(&far[..15], &mic), Err(AecError::FrameSizeMismatch));
            assert_eq!(one.process(&far, &[]), Err(AecError::FrameSizeMismatch));
        }
        assert_eq!(one.process(&far, &mic), other.process(&far, &mic));
    }
}
