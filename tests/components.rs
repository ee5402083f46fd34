use spectrum_viz::bands::{band_average, BandLayout, LayoutError, MIN_FREQ_MHZ};
use spectrum_viz::chart::{bar_length, BarRow};
use spectrum_viz::smoothing::smooth_step;
use spectrum_viz::spectrum::{Spectrum, SpectrumError};
use spectrum_viz::window::{FrameWindow, WindowError};

#[test]
fn smooth_step_mixes_eight_tenths_of_the_old_value() {
    // 0.8 * -100 dB + 0.2 * -200 dB = -120 dB
    assert_eq!(smooth_step(-10000, -20000, 800), -12000);
    // 0.8 * -50 dB + 0.2 * 0 dB = -40 dB
    assert_eq!(smooth_step(-5000, 0, 800), -4000);
}

#[test]
fn smooth_step_rounds_toward_the_reading() {
    // distance 7, 0.8 * 7 = 5.6 -> 5
    assert_eq!(smooth_step(7, 0, 800), 5);
    // distance -7, 0.8 * -7 = -5.6 -> -5
    assert_eq!(smooth_step(-7, 0, 800), -5);
}

#[test]
fn smooth_step_extremes_of_the_factor() {
    assert_eq!(smooth_step(-3000, 1200, 0), 1200);
    assert_eq!(smooth_step(-3000, 1200, 1000), -3000);
    assert_eq!(smooth_step(i32::MIN, i32::MAX, 500), 0);
    assert_eq!(smooth_step(i32::MAX, i32::MIN, 999), 2143188679);
}

#[test]
fn smoothing_converges_to_a_steady_reading_within_range() {
    let start: i32 = -10000;
    let target: i32 = -3000;
    let mut level = start;
    let mut steps = 0;
    while level != target {
        let next = smooth_step(level, target, 800);
        assert!(next > level && next <= target);
        level = next;
        steps += 1;
        assert!(steps <= 7000);
    }
    assert_eq!(smooth_step(level, target, 800), target);
}

#[test]
fn window_refuses_degenerate_sizes() {
    assert_eq!(FrameWindow::new(0, 2).err(), Some(WindowError::EmptyFrame));
    assert_eq!(FrameWindow::new(4, 0).err(), Some(WindowError::NoChannels));
    assert_eq!(FrameWindow::new(usize::MAX, 2).err(), Some(WindowError::TooLarge));
    assert!(FrameWindow::new(4096, 2).is_ok());
}

#[test]
fn window_has_no_frame_until_full() {
    let mut w = FrameWindow::new(4, 1).unwrap();
    assert!(w.try_frame().is_none());
    w.push(&[1, 2, 3]);
    assert_eq!(w.len(), 3);
    assert!(!w.is_full());
    assert!(w.try_frame().is_none());
    w.push(&[4]);
    assert!(w.is_full());
    assert_eq!(w.try_frame(), Some(vec![1, 2, 3, 4]));
}

#[test]
fn window_evicts_oldest_and_keeps_latest() {
    let mut w = FrameWindow::new(3, 1).unwrap();
    w.push(&[1, 2, 3, 4, 5]);
    assert_eq!(w.len(), 3);
    assert_eq!(w.try_frame(), Some(vec![3, 4, 5]));
    w.push(&[6]);
    assert_eq!(w.try_frame(), Some(vec![4, 5, 6]));
    w.push(&[]);
    assert_eq!(w.try_frame(), Some(vec![4, 5, 6]));
}

#[test]
fn window_never_exceeds_capacity_over_many_pushes() {
    let mut w = FrameWindow::new(8, 2).unwrap();
    let mut all: Vec<i32> = Vec::new();
    for round in 0..50 {
        let block: Vec<i32> = (0..(round % 7) * 2).map(|k| (round * 100 + k) as i32).collect();
        w.push(&block);
        all.extend_from_slice(&block);
        assert!(w.len() <= 16);
        assert_eq!(w.len(), all.len().min(16));
    }
    let frame = w.try_frame().unwrap();
    let tail = &all[all.len() - 16..];
    for i in 0..8 {
        assert_eq!(frame[i], (tail[2 * i] + tail[2 * i + 1]) / 2);
    }
}

#[test]
fn window_downmixes_by_channel_mean() {
    let mut w = FrameWindow::new(3, 2).unwrap();
    w.push(&[2, 4, -3, -4, 7, 8]);
    // means 3, -3.5 -> -3, 7.5 -> 7
    assert_eq!(w.try_frame(), Some(vec![3, -3, 7]));
    assert_eq!(w.frame_len(), 3);
    assert_eq!(w.channels(), 2);
}

#[test]
fn window_downmix_of_extreme_values_does_not_overflow() {
    let mut w = FrameWindow::new(2, 3).unwrap();
    w.push(&[i32::MAX, i32::MAX, i32::MAX, i32::MIN, i32::MIN, i32::MIN]);
    assert_eq!(w.try_frame(), Some(vec![i32::MAX, i32::MIN]));
}

#[test]
fn layout_refuses_bad_configurations() {
    let inner = vec![100_000u64];
    assert_eq!(BandLayout::new(44100, 1000, &inner).err(), Some(LayoutError::FftSize));
    assert_eq!(BandLayout::new(44100, 0, &inner).err(), Some(LayoutError::FftSize));
    assert_eq!(BandLayout::new(44100, 1, &inner).err(), Some(LayoutError::FftSize));
    assert_eq!(BandLayout::new(40, 4096, &vec![]).err(), Some(LayoutError::SampleRateTooLow));
    assert_eq!(
        BandLayout::new(44100, 4096, &vec![100_000, 100_000]).err(),
        Some(LayoutError::EdgesNotRising)
    );
    assert_eq!(
        BandLayout::new(44100, 4096, &vec![20_000]).err(),
        Some(LayoutError::EdgesNotRising)
    );
    assert_eq!(
        BandLayout::new(44100, 4096, &vec![22_050_000]).err(),
        Some(LayoutError::EdgesNotRising)
    );
}

#[test]
fn layout_edges_span_twenty_hz_to_nyquist() {
    let l = BandLayout::new(44100, 4096, &vec![100_000, 1_000_000]).unwrap();
    assert_eq!(l.num_bands(), 3);
    assert_eq!(l.band_edges(0), (MIN_FREQ_MHZ, 100_000));
    assert_eq!(l.band_edges(1), (100_000, 1_000_000));
    assert_eq!(l.band_edges(2), (1_000_000, 22_050_000));
    assert_eq!(l.sample_rate(), 44100);
    assert_eq!(l.fft_size(), 4096);
}

#[test]
fn layout_bins_round_low_down_and_high_up() {
    let l = BandLayout::new(44100, 4096, &vec![25_000, 1_000_000]).unwrap();
    // 20 Hz -> 1.857 -> 1; 25 Hz -> 2.32 -> 3
    assert_eq!(l.band_bins(0), (1, 3));
    // 25 Hz -> 2; 1000 Hz -> 92.88 -> 93
    assert_eq!(l.band_bins(1), (2, 93));
    // 1000 Hz -> 92; 22050 Hz -> 2048 exactly
    assert_eq!(l.band_bins(2), (92, 2048));
}

#[test]
fn band_average_means_and_empty_ranges() {
    let s = vec![1u64, 2, 3, 4];
    assert_eq!(band_average(&s, 1, 3), 2);
    assert_eq!(band_average(&s, 0, 4), 2);
    assert_eq!(band_average(&s, 2, 10), 3);
    assert_eq!(band_average(&s, 3, 3), 0);
    assert_eq!(band_average(&s, 5, 9), 0);
    assert_eq!(band_average(&[u64::MAX, u64::MAX], 0, 2), u64::MAX);
}

#[test]
fn band_levels_of_a_silent_spectrum_are_zero() {
    let l = BandLayout::new(44100, 4096, &vec![100_000, 1_000_000]).unwrap();
    let levels = l.band_levels(&vec![0u64; 4096]);
    assert_eq!(levels, vec![0, 0, 0]);
}

#[test]
fn band_levels_average_each_band() {
    let l = BandLayout::new(44100, 4096, &vec![25_000, 1_000_000]).unwrap();
    let spectrum: Vec<u64> = (0..4096u64).collect();
    // bins [1, 3): mean of 1, 2; [2, 93): mean 47; [92, 2048): mean 1069
    assert_eq!(l.band_levels(&spectrum), vec![1, 47, 1069]);
}

#[test]
fn bar_length_clamps_and_scales() {
    assert_eq!(bar_length(-20000, -10000, 0, 150), 0);
    assert_eq!(bar_length(-10000, -10000, 0, 150), 0);
    assert_eq!(bar_length(-5000, -10000, 0, 150), 75);
    assert_eq!(bar_length(-2500, -10000, 0, 150), 112);
    assert_eq!(bar_length(0, -10000, 0, 150), 150);
    assert_eq!(bar_length(900, -10000, 0, 150), 150);
    assert_eq!(bar_length(i32::MAX - 1, i32::MIN, i32::MAX, usize::MAX), usize::MAX - 4294967297);
}

#[test]
fn spectrum_refuses_bad_configurations() {
    let inner = vec![100_000u64];
    assert_eq!(
        Spectrum::new(&inner, -10000, 0, 800, 3000, 44100, 150).err(),
        Some(SpectrumError::Layout(LayoutError::FftSize))
    );
    assert_eq!(
        Spectrum::new(&inner, 0, 0, 800, 4096, 44100, 150).err(),
        Some(SpectrumError::EmptyDbRange)
    );
    assert_eq!(
        Spectrum::new(&inner, -10000, 0, 1001, 4096, 44100, 150).err(),
        Some(SpectrumError::SmoothFactorAboveOne)
    );
}

#[test]
fn spectrum_starts_at_the_floor() {
    let s = Spectrum::new(&vec![100_000, 1_000_000], -10000, 0, 800, 4096, 44100, 150).unwrap();
    assert_eq!(s.smoothed(), &vec![-10000, -10000, -10000]);
    assert_eq!(s.layout().num_bands(), 3);
    assert_eq!(s.min_db(), -10000);
    assert_eq!(s.max_db(), 0);
    assert_eq!(s.smooth_factor(), 800);
    assert_eq!(s.bar_width(), 150);
}

#[test]
fn spectrum_render_smooths_and_draws_rows() {
    let mut s =
        Spectrum::new(&vec![100_000, 1_000_000], -10000, 0, 800, 4096, 44100, 150).unwrap();
    let rows = s.render(&[-20000, 0, -5000]);
    assert_eq!(s.smoothed(), &vec![-12000, -8000, -9000]);
    assert_eq!(
        rows,
        vec![
            BarRow { low_mhz: 20_000, high_mhz: 100_000, db: -20000, bar_len: 0 },
            BarRow { low_mhz: 100_000, high_mhz: 1_000_000, db: 0, bar_len: 30 },
            BarRow { low_mhz: 1_000_000, high_mhz: 22_050_000, db: -5000, bar_len: 15 },
        ]
    );
    let rows = s.render(&[-20000, 0, -5000]);
    assert_eq!(s.smoothed(), &vec![-13600, -6400, -8200]);
    assert_eq!(rows[1].bar_len, 54);
}

#[test]
fn spectrum_silence_keeps_every_bar_empty() {
    let mut s =
        Spectrum::new(&vec![100_000, 1_000_000], -10000, 0, 800, 4096, 44100, 150).unwrap();
    for _ in 0..100 {
        let rows = s.render(&[-20000, -20000, -20000]);
        for r in &rows {
            assert_eq!(r.bar_len, 0);
            assert_eq!(r.db, -20000);
        }
        for v in s.smoothed() {
            assert!(*v <= -10000 && *v >= -20000);
        }
    }
    assert_eq!(s.smoothed(), &vec![-20000, -20000, -20000]);
}
