use rustfft::{num_complex::Complex, FftPlanner};
use spectrum_viz::chart::BarRow;
use spectrum_viz::pacing::{Pacer, Step};
use spectrum_viz::spectrum::Spectrum;
use spectrum_viz::window::FrameWindow;

const SAMPLE_ONE: f32 = 8_388_608.0;
const MAGNITUDE_ONE: f64 = 1_099_511_627_776.0;
const EPSILON: f64 = 1e-10;

fn inner_edges(sample_rate: u32, bands: usize) -> Vec<u64> {
    let log_min = 20.0f64.ln();
    let log_max = (sample_rate as f64 / 2.0).ln();
    (1..bands)
        .map(|b| {
            let f = (log_min + (log_max - log_min) * b as f64 / bands as f64).exp();
            (f * 1000.0).round() as u64
        })
        .collect()
}

fn magnitudes(frame: &[i32]) -> Vec<u64> {
    let n = frame.len();
    let mut buffer: Vec<Complex<f32>> = frame
        .iter()
        .enumerate()
        .map(|(i, &s)| {
            let hann =
                0.5 * (1.0 - (2.0 * std::f32::consts::PI * i as f32 / (n as f32 - 1.0)).cos());
            Complex { re: s as f32 / SAMPLE_ONE * hann, im: 0.0 }
        })
        .collect();
    FftPlanner::<f32>::new().plan_fft_forward(n).process(&mut buffer);
    buffer
        .iter()
        .map(|c| ((c.norm() / n as f32) as f64 * MAGNITUDE_ONE) as u64)
        .collect()
}

fn to_db(level: u64) -> i32 {
    (20.0 * (level as f64 / MAGNITUDE_ONE + EPSILON).log10() * 100.0).round() as i32
}

/// Plays `samples` (mono) through the pipeline and returns the rows of
/// every analysed frame.
fn play(samples: &[f32], sample_rate: u32, fft_size: usize, bands: usize) -> Vec<Vec<BarRow>> {
    let quantised: Vec<i32> = samples.iter().map(|&x| (x * SAMPLE_ONE).round() as i32).collect();
    let mut window = FrameWindow::new(fft_size, 1).unwrap();
    let mut spectrum = Spectrum::new(
        &inner_edges(sample_rate, bands),
        -10000,
        0,
        800,
        fft_size,
        sample_rate,
        150,
    )
    .unwrap();
    let mut pacer = Pacer::new(quantised.len(), fft_size / 2).unwrap();
    let mut frames = Vec::new();
    loop {
        match pacer.step(None) {
            Step::Feed { start, end, analyse } => {
                window.push(&quantised[start..end]);
                if analyse {
                    if let Some(frame) = window.try_frame() {
                        let levels = spectrum.layout().band_levels(&magnitudes(&frame));
                        let db: Vec<i32> = levels.iter().map(|&l| to_db(l)).collect();
                        frames.push(spectrum.render(&db));
                    }
                }
            }
            Step::Wait => {}
            Step::Stop | Step::Finished => break,
        }
    }
    frames
}

fn sine(freq: f32, sample_rate: u32, len: usize) -> Vec<f32> {
    (0..len)
        .map(|i| 0.5 * (2.0 * std::f32::consts::PI * freq * i as f32 / sample_rate as f32).sin())
        .collect()
}

fn assert_peak_band_holds(freq: f32) {
    let frames = play(&sine(freq, 44100, 44100), 44100, 4096, 32);
    assert!(frames.len() >= 19);
    let f_mhz = (freq * 1000.0) as u64;
    for rows in &frames {
        assert_eq!(rows.len(), 32);
        let holder = rows.iter().position(|r| r.low_mhz <= f_mhz && f_mhz < r.high_mhz).unwrap();
        for (b, r) in rows.iter().enumerate() {
            if b != holder {
                assert!(r.db < rows[holder].db, "band {} beats band {} at {} Hz", b, holder, freq);
            }
        }
    }
}

#[test]
fn sine_at_1000_hz_peaks_in_its_band_on_every_frame() {
    assert_peak_band_holds(1000.0);
}

#[test]
fn sine_at_other_frequencies_peaks_in_its_band() {
    assert_peak_band_holds(440.0);
    assert_peak_band_holds(5000.0);
    assert_peak_band_holds(15000.0);
}

#[test]
fn silence_reads_epsilon_floor_and_draws_no_bars() {
    let frames = play(&vec![0.0f32; 44100], 44100, 4096, 32);
    assert!(!frames.is_empty());
    let floor = (20.0 * EPSILON.log10() * 100.0).round() as i32;
    assert_eq!(floor, -20000);
    for rows in &frames {
        for r in rows {
            assert_eq!(r.db, floor);
            assert_eq!(r.bar_len, 0);
        }
    }
}

#[test]
fn band_edges_rise_from_twenty_hz_to_nyquist() {
    let s = Spectrum::new(&inner_edges(44100, 32), -10000, 0, 800, 4096, 44100, 150).unwrap();
    let layout = s.layout();
    assert_eq!(layout.num_bands(), 32);
    assert_eq!(layout.band_edges(0).0, 20_000);
    assert_eq!(layout.band_edges(31).1, 22_050_000);
    for b in 0..31 {
        let (lo, hi) = layout.band_edges(b);
        assert!(lo < hi);
        assert_eq!(hi, layout.band_edges(b + 1).0);
    }
}
