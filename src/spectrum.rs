//! The per-band state of the analyser: the band layout, the smoothed
//! levels, and the chart rows drawn from them.
use vstd::prelude::*;

use crate::bands::{full_edges, layout_error, BandLayout, LayoutError};
use crate::chart::{bar_len, bar_length, BarRow};
use crate::smoothing::{lemma_step_stays_between, smooth_step, smooth_value, FACTOR_SCALE};

verus! {

/// Why an analyser cannot be made.
#[derive(Debug, Clone, Copy, PartialEq, Eq)]
pub enum SpectrumError {
    /// The band layout was refused.
    Layout(LayoutError),
    /// `min_db` does not lie below `max_db`.
    EmptyDbRange,
    /// The smoothing factor is above one (1000 thousandths).
    SmoothFactorAboveOne,
}

/// The error that refuses an analyser, if any: the layout is tested first,
/// then the level range, then the smoothing factor.
pub open spec fn spectrum_error(
    sample_rate: nat,
    fft_size: nat,
    inner_edges: Seq<u64>,
    min_db: i32,
    max_db: i32,
    smooth_factor: u32,
) -> Option<SpectrumError> {
    if let Some(e) = layout_error(sample_rate, fft_size, inner_edges) {
        Some(SpectrumError::Layout(e))
    } else if min_db >= max_db {
        Some(SpectrumError::EmptyDbRange)
    } else if smooth_factor > FACTOR_SCALE {
        Some(SpectrumError::SmoothFactorAboveOne)
    } else {
        None
    }
}

/// The analyser's persistent state: which bands there are, how levels map
/// to bars, and the smoothed level of each band.
pub struct Spectrum {
    layout: BandLayout,
    min_db: i32,
    max_db: i32,
    smooth_factor: u32,
    bar_width: usize,
    smoothed_by_band: Vec<i32>,
}

/// The row drawn for a band with edges `low`, `high`, the reading `db` and
/// the smoothed level `smoothed`.
pub open spec fn row_of(
    low: u64,
    high: u64,
    db: i32,
    smoothed: i32,
    min_db: i32,
    max_db: i32,
    width: usize,
) -> BarRow {
    BarRow {
        low_mhz: low,
        high_mhz: high,
        db,
        bar_len: bar_len(smoothed as int, min_db as int, max_db as int, width as nat) as usize,
    }
}

impl Spectrum {
    pub closed spec fn spec_layout(&self) -> &BandLayout {
        &self.layout
    }

    pub closed spec fn spec_min_db(&self) -> i32 {
        self.min_db
    }

    pub closed spec fn spec_max_db(&self) -> i32 {
        self.max_db
    }

    pub closed spec fn spec_smooth_factor(&self) -> u32 {
        self.smooth_factor
    }

    pub closed spec fn spec_bar_width(&self) -> usize {
        self.bar_width
    }

    /// The smoothed level of each band, in hundredths of a decibel.
    pub closed spec fn spec_smoothed(&self) -> Seq<i32> {
        self.smoothed_by_band@
    }

    pub open spec fn wf(&self) -> bool {
        &&& self.spec_layout().wf()
        &&& self.spec_min_db() < self.spec_max_db()
        &&& self.spec_smooth_factor() <= FACTOR_SCALE
        &&& self.spec_smoothed().len() == self.spec_layout().spec_num_bands()
    }

    /// An analyser over the bands that `inner_edges` (millihertz) cut out of
    /// 20 Hz to the Nyquist frequency of `sample_rate`, for spectra of
    /// `fft_size` bins. Levels from `min_db` up to `max_db` (hundredths of a
    /// decibel) map onto bars of up to `bar_width` cells; `smooth_factor`
    /// is in thousandths. Every band starts at `min_db`.
    pub fn new(
        inner_edges: &Vec<u64>,
        min_db: i32,
        max_db: i32,
        smooth_factor: u32,
        fft_size: usize,
        sample_rate: u32,
        bar_width: usize,
    ) -> (r: Result<Spectrum, SpectrumError>)
        ensures
            spectrum_error(
                sample_rate as nat,
                fft_size as nat,
                inner_edges@,
                min_db,
                max_db,
                smooth_factor,
            ) matches Some(e) ==> r == Err::<Spectrum, SpectrumError>(e),
            r is Ok <==> spectrum_error(
                sample_rate as nat,
                fft_size as nat,
                inner_edges@,
                min_db,
                max_db,
                smooth_factor,
            ) is None,
            r matches Ok(s) ==> {
                &&& s.wf()
                &&& s.spec_layout().spec_edges() == full_edges(inner_edges@, sample_rate as nat)
                &&& s.spec_layout().spec_sample_rate() == sample_rate
                &&& s.spec_layout().spec_fft_size() == fft_size
                &&& s.spec_min_db() == min_db
                &&& s.spec_max_db() == max_db
                &&& s.spec_smooth_factor() == smooth_factor
                &&& s.spec_bar_width() == bar_width
                &&& s.spec_smoothed() == Seq::new(
                    s.spec_layout().spec_num_bands(),
                    |i: int| min_db,
                )
            },
    {
        let layout = match BandLayout::new(sample_rate, fft_size, inner_edges) {
            Ok(l) => l,
            Err(e) => {
                return Err(SpectrumError::Layout(e));
            },
        };
        if min_db >= max_db {
            return Err(SpectrumError::EmptyDbRange);
        }
        if smooth_factor > FACTOR_SCALE {
            return Err(SpectrumError::SmoothFactorAboveOne);
        }
        let n: usize = layout.num_bands();
        let mut smoothed_by_band: Vec<i32> = Vec::with_capacity(n);
        let mut i: usize = 0;
        while i < n
            invariant
                i <= n,
                smoothed_by_band@ == Seq::new(i as nat, |j: int| min_db),
            decreases n - i,
        {
            smoothed_by_band.push(min_db);
            i = i + 1;
            assert(smoothed_by_band@ =~= Seq::new(i as nat, |j: int| min_db));
        }
        Ok(Spectrum { layout, min_db, max_db, smooth_factor, bar_width, smoothed_by_band })
    }

    pub fn layout(&self) -> (r: &BandLayout)
        ensures
            r == self.spec_layout(),
    {
        &self.layout
    }

    pub fn smoothed(&self) -> (r: &Vec<i32>)
        ensures
            r@ == self.spec_smoothed(),
    {
        &self.smoothed_by_band
    }

    pub fn min_db(&self) -> (r: i32)
        ensures
            r == self.spec_min_db(),
    {
        self.min_db
    }

    pub fn max_db(&self) -> (r: i32)
        ensures
            r == self.spec_max_db(),
    {
        self.max_db
    }

    pub fn smooth_factor(&self) -> (r: u32)
        ensures
            r == self.spec_smooth_factor(),
    {
        self.smooth_factor
    }

    pub fn bar_width(&self) -> (r: usize)
        ensures
            r == self.spec_bar_width(),
    {
        self.bar_width
    }

    /// Takes this frame's reading of every band (hundredths of a decibel),
    /// smooths each band toward it, and returns the chart rows: each band's
    /// edges, its reading, and a bar for its smoothed level.
    pub fn render(&mut self, band_db: &[i32]) -> (rows: Vec<BarRow>)
        requires
            old(self).wf(),
            band_db@.len() == old(self).spec_layout().spec_num_bands(),
        ensures
            final(self).wf(),
            final(self).spec_layout() == old(self).spec_layout(),
            final(self).spec_min_db() == old(self).spec_min_db(),
            final(self).spec_max_db() == old(self).spec_max_db(),
            final(self).spec_smooth_factor() == old(self).spec_smooth_factor(),
            final(self).spec_bar_width() == old(self).spec_bar_width(),
            final(self).spec_smoothed().len() == band_db@.len(),
            rows@.len() == band_db@.len(),
            forall|b: int|
                0 <= b < band_db@.len() ==> {
                    &&& #[trigger] final(self).spec_smoothed()[b] == smooth_value(
                        old(self).spec_smoothed()[b] as int,
                        band_db@[b] as int,
                        old(self).spec_smooth_factor() as int,
                    )
                    &&& rows@[b] == row_of(
                        old(self).spec_layout().spec_edges()[b],
                        old(self).spec_layout().spec_edges()[b + 1],
                        band_db@[b],
                        final(self).spec_smoothed()[b],
                        old(self).spec_min_db(),
                        old(self).spec_max_db(),
                        old(self).spec_bar_width(),
                    )
                },
    {
        let n: usize = self.layout.num_bands();
        let mut rows: Vec<BarRow> = Vec::with_capacity(n);
        let mut b: usize = 0;
        while b < n
            invariant
                b <= n,
                n == band_db@.len(),
                n == self.layout.spec_num_bands(),
                self.layout == old(self).layout,
                self.min_db == old(self).min_db,
                self.max_db == old(self).max_db,
                self.smooth_factor == old(self).smooth_factor,
                self.bar_width == old(self).bar_width,
                old(self).wf(),
                self.smoothed_by_band@.len() == n,
                rows@.len() == b,
                forall|j: int|
                    b <= j < n ==> self.smoothed_by_band@[j] == old(self).smoothed_by_band@[j],
                forall|j: int|
                    0 <= j < b ==> {
                        &&& #[trigger] self.smoothed_by_band@[j] == smooth_value(
                            old(self).smoothed_by_band@[j] as int,
                            band_db@[j] as int,
                            old(self).smooth_factor as int,
                        )
                        &&& rows@[j] == row_of(
                            old(self).layout.spec_edges()[j],
                            old(self).layout.spec_edges()[j + 1],
                            band_db@[j],
                            self.smoothed_by_band@[j],
                            old(self).min_db,
                            old(self).max_db,
                            old(self).bar_width,
                        )
                    },
            decreases n - b,
        {
            let level: i32 = smooth_step(self.smoothed_by_band[b], band_db[b], self.smooth_factor);
            self.smoothed_by_band.set(b, level);
            let (low_mhz, high_mhz) = self.layout.band_edges(b);
            let bar: usize = bar_length(level, self.min_db, self.max_db, self.bar_width);
            rows.push(BarRow { low_mhz, high_mhz, db: band_db[b], bar_len: bar });
            b = b + 1;
        }
        rows
    }
}

/// A band that sits at or below the floor and reads at or below the floor
/// stays at or below the floor and draws an empty bar.
pub proof fn lemma_quiet_band_stays_dark(
    prev: int,
    reading: int,
    factor: int,
    min_db: int,
    max_db: int,
    width: nat,
)
    requires
        0 <= factor <= FACTOR_SCALE,
        min_db < max_db,
        prev <= min_db,
        reading <= min_db,
    ensures
        smooth_value(prev, reading, factor) <= min_db,
        bar_len(smooth_value(prev, reading, factor), min_db, max_db, width) == 0,
{
    lemma_step_stays_between(prev, reading, factor);
}

} // verus!
