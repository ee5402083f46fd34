//! Log-spaced frequency bands over a magnitude spectrum.
//!
//! A layout is a list of band edges in millihertz. The outer edges are fixed:
//! 20 Hz below and the Nyquist frequency above. The caller hands in the
//! inner edges, which must rise strictly between them. Band `b` runs from
//! edge `b` to edge `b + 1`.
use vstd::prelude::*;

use crate::arith::div_ceil;

verus! {

/// The lower bound of the analysed range: 20 Hz, in millihertz.
pub const MIN_FREQ_MHZ: u64 = 20_000;

/// The Nyquist frequency of `sample_rate`, in millihertz.
pub open spec fn nyquist_mhz(sample_rate: nat) -> nat {
    sample_rate * 500
}

pub open spec fn is_power_of_two(n: nat) -> bool
    decreases n,
{
    if n == 0 {
        false
    } else if n == 1 {
        true
    } else {
        n % 2 == 0 && is_power_of_two(n / 2)
    }
}

/// Each edge lies strictly below the next one.
pub open spec fn rises_strictly(edges: Seq<u64>) -> bool {
    forall|i: int| 0 <= i < edges.len() - 1 ==> #[trigger] edges[i] < edges[i + 1]
}

/// The full edge list of a layout: 20 Hz, the inner edges, the Nyquist
/// frequency.
pub open spec fn full_edges(inner: Seq<u64>, sample_rate: nat) -> Seq<u64> {
    seq![MIN_FREQ_MHZ].add(inner).push(nyquist_mhz(sample_rate) as u64)
}

/// The bin at or below frequency `f` (millihertz):
/// `floor(f / sample_rate * fft_size)`, at most `fft_size`.
pub open spec fn low_bin(f: nat, sample_rate: nat, fft_size: nat) -> nat {
    let b = (f * fft_size) / (sample_rate * 1000);
    if b <= fft_size {
        b
    } else {
        fft_size
    }
}

/// The bin at or above frequency `f` (millihertz):
/// `ceil(f / sample_rate * fft_size)`, at most `fft_size`.
pub open spec fn high_bin(f: nat, sample_rate: nat, fft_size: nat) -> nat {
    let b = div_ceil((f * fft_size) as int, (sample_rate * 1000) as int);
    if b <= fft_size {
        b as nat
    } else {
        fft_size
    }
}

/// Sum of `s[lo..hi]`.
pub open spec fn range_sum(s: Seq<u64>, lo: int, hi: int) -> int
    decreases hi - lo,
{
    if hi <= lo {
        0
    } else {
        range_sum(s, lo, hi - 1) + s[hi - 1]
    }
}

/// The mean, rounded down, of the bins `[lo, hi)` of `s` that exist; zero
/// when there are none.
pub open spec fn bin_mean(s: Seq<u64>, lo: int, hi: int) -> int {
    let end = if hi <= s.len() {
        hi
    } else {
        s.len() as int
    };
    if lo < end {
        range_sum(s, lo, end) / (end - lo)
    } else {
        0
    }
}

/// The error that refuses a layout, if any: the transform size is tested
/// first, then the sample rate, then the edges.
pub open spec fn layout_error(sample_rate: nat, fft_size: nat, inner: Seq<u64>) -> Option<
    LayoutError,
> {
    if !(is_power_of_two(fft_size) && fft_size >= 2) {
        Some(LayoutError::FftSize)
    } else if nyquist_mhz(sample_rate) <= MIN_FREQ_MHZ {
        Some(LayoutError::SampleRateTooLow)
    } else if !rises_strictly(full_edges(inner, sample_rate)) {
        Some(LayoutError::EdgesNotRising)
    } else {
        None
    }
}

/// Why a layout cannot be made.
#[derive(Debug, Clone, Copy, PartialEq, Eq)]
pub enum LayoutError {
    /// The transform size is not a power of two of at least 2.
    FftSize,
    /// The Nyquist frequency does not lie above 20 Hz.
    SampleRateTooLow,
    /// The edges do not rise strictly from 20 Hz to the Nyquist frequency.
    EdgesNotRising,
}

/// The bands of one analysis configuration.
pub struct BandLayout {
    edges: Vec<u64>,
    sample_rate: u32,
    fft_size: usize,
}

impl BandLayout {
    /// All edges in millihertz, lowest first; one more than there are bands.
    pub closed spec fn spec_edges(&self) -> Seq<u64> {
        self.edges@
    }

    pub closed spec fn spec_sample_rate(&self) -> nat {
        self.sample_rate as nat
    }

    pub closed spec fn spec_fft_size(&self) -> nat {
        self.fft_size as nat
    }

    pub open spec fn spec_num_bands(&self) -> nat {
        (self.spec_edges().len() - 1) as nat
    }

    /// Edges from 20 Hz to the Nyquist frequency, rising strictly, over a
    /// transform size that is a power of two of at least 2.
    pub open spec fn wf(&self) -> bool {
        &&& self.spec_edges().len() >= 2
        &&& self.spec_edges()[0] == MIN_FREQ_MHZ
        &&& self.spec_edges().last() == nyquist_mhz(self.spec_sample_rate())
        &&& nyquist_mhz(self.spec_sample_rate()) > MIN_FREQ_MHZ
        &&& rises_strictly(self.spec_edges())
        &&& is_power_of_two(self.spec_fft_size())
        &&& self.spec_fft_size() >= 2
    }

    /// The bins `[lo, hi)` that band `b` averages.
    pub open spec fn spec_bins(&self, b: int) -> (nat, nat) {
        (
            low_bin(self.spec_edges()[b] as nat, self.spec_sample_rate(), self.spec_fft_size()),
            high_bin(
                self.spec_edges()[b + 1] as nat,
                self.spec_sample_rate(),
                self.spec_fft_size(),
            ),
        )
    }

    /// The layout with the given inner edges (millihertz) between 20 Hz and
    /// the Nyquist frequency of `sample_rate`: `inner.len() + 1` bands.
    pub fn new(sample_rate: u32, fft_size: usize, inner: &Vec<u64>) -> (r: Result<
        BandLayout,
        LayoutError,
    >)
        ensures
            layout_error(sample_rate as nat, fft_size as nat, inner@) matches Some(e) ==> r
                == Err::<BandLayout, LayoutError>(e),
            r is Ok <==> layout_error(sample_rate as nat, fft_size as nat, inner@) is None,
            r matches Ok(l) ==> {
                &&& l.wf()
                &&& l.spec_edges() == full_edges(inner@, sample_rate as nat)
                &&& l.spec_sample_rate() == sample_rate
                &&& l.spec_fft_size() == fft_size
                &&& l.spec_num_bands() == inner@.len() + 1
            },
    {
        if !power_of_two(fft_size) || fft_size < 2 {
            return Err(LayoutError::FftSize);
        }
        let nyquist: u64 = sample_rate as u64 * 500;
        if nyquist <= MIN_FREQ_MHZ {
            return Err(LayoutError::SampleRateTooLow);
        }
        let mut edges: Vec<u64> = Vec::new();
        edges.push(MIN_FREQ_MHZ);
        let mut i: usize = 0;
        while i < inner.len()
            invariant
                i <= inner@.len(),
                nyquist == nyquist_mhz(sample_rate as nat),
                nyquist > MIN_FREQ_MHZ,
                is_power_of_two(fft_size as nat),
                fft_size >= 2,
                edges@ == seq![MIN_FREQ_MHZ].add(inner@.subrange(0, i as int)),
                rises_strictly(edges@),
            decreases inner@.len() - i,
        {
            if inner[i] <= edges[edges.len() - 1] {
                proof {
                    let full = full_edges(inner@, sample_rate as nat);
                    assert(full[i as int] == edges@[i as int]);
                    assert(full[i + 1] == inner@[i as int]);
                }
                return Err(LayoutError::EdgesNotRising);
            }
            edges.push(inner[i]);
            i = i + 1;
            assert(edges@ =~= seq![MIN_FREQ_MHZ].add(inner@.subrange(0, i as int)));
        }
        assert(inner@.subrange(0, inner@.len() as int) =~= inner@);
        if nyquist <= edges[edges.len() - 1] {
            proof {
                let full = full_edges(inner@, sample_rate as nat);
                let n = inner@.len() as int;
                assert(full[n] == edges@[n]);
                assert(full[n + 1] == nyquist);
            }
            return Err(LayoutError::EdgesNotRising);
        }
        edges.push(nyquist);
        assert(edges@ =~= full_edges(inner@, sample_rate as nat));
        Ok(BandLayout { edges, sample_rate, fft_size })
    }

    pub fn num_bands(&self) -> (r: usize)
        requires
            self.wf(),
        ensures
            r == self.spec_num_bands(),
    {
        self.edges.len() - 1
    }

    pub fn sample_rate(&self) -> (r: u32)
        ensures
            r == self.spec_sample_rate(),
    {
        self.sample_rate
    }

    pub fn fft_size(&self) -> (r: usize)
        ensures
            r == self.spec_fft_size(),
    {
        self.fft_size
    }

    /// The lower and upper edge of band `b`, in millihertz.
    pub fn band_edges(&self, b: usize) -> (r: (u64, u64))
        requires
            self.wf(),
            b < self.spec_num_bands(),
        ensures
            r == (self.spec_edges()[b as int], self.spec_edges()[b + 1]),
    {
        let _n: usize = self.edges.len();
        (self.edges[b], self.edges[b + 1])
    }

    /// The bins `[lo, hi)` that band `b` averages: its lower edge rounded
    /// down and its upper edge rounded up to a bin, both at most `fft_size`.
    pub fn band_bins(&self, b: usize) -> (r: (usize, usize))
        requires
            self.wf(),
            b < self.spec_num_bands(),
        ensures
            r.0 == self.spec_bins(b as int).0,
            r.1 == self.spec_bins(b as int).1,
    {
        let _n: usize = self.edges.len();
        (
            bin_below(self.edges[b], self.sample_rate, self.fft_size),
            bin_above(self.edges[b + 1], self.sample_rate, self.fft_size),
        )
    }

    /// The mean magnitude of every band, lowest band first.
    pub fn band_levels(&self, spectrum: &[u64]) -> (r: Vec<u64>)
        requires
            self.wf(),
        ensures
            r@.len() == self.spec_num_bands(),
            forall|b: int|
                0 <= b < r@.len() ==> r@[b] == bin_mean(
                    spectrum@,
                    self.spec_bins(b).0 as int,
                    self.spec_bins(b).1 as int,
                ),
    {
        let n: usize = self.num_bands();
        let mut levels: Vec<u64> = Vec::with_capacity(n);
        let mut b: usize = 0;
        while b < n
            invariant
                self.wf(),
                n == self.spec_num_bands(),
                b <= n,
                levels@.len() == b,
                forall|j: int|
                    0 <= j < b ==> levels@[j] == bin_mean(
                        spectrum@,
                        self.spec_bins(j).0 as int,
                        self.spec_bins(j).1 as int,
                    ),
            decreases n - b,
        {
            let (lo, hi) = self.band_bins(b);
            levels.push(band_average(spectrum, lo, hi));
            b = b + 1;
        }
        levels
    }
}

/// `low_bin(f, sample_rate, fft_size)`, computed.
fn bin_below(f: u64, sample_rate: u32, fft_size: usize) -> (r: usize)
    requires
        sample_rate > 0,
    ensures
        r == low_bin(f as nat, sample_rate as nat, fft_size as nat),
{
    let fft: u128 = fft_size as u128;
    let per_bin: u128 = sample_rate as u128 * 1000;
    assert(f * fft <= 0xffff_ffff_ffff_ffff * 0xffff_ffff_ffff_ffff) by (nonlinear_arith)
        requires
            f <= 0xffff_ffff_ffff_ffff,
            fft <= 0xffff_ffff_ffff_ffff,
    ;
    let b: u128 = (f as u128 * fft) / per_bin;
    if b <= fft {
        b as usize
    } else {
        fft_size
    }
}

/// `high_bin(f, sample_rate, fft_size)`, computed.
fn bin_above(f: u64, sample_rate: u32, fft_size: usize) -> (r: usize)
    requires
        sample_rate > 0,
    ensures
        r == high_bin(f as nat, sample_rate as nat, fft_size as nat),
{
    let fft: u128 = fft_size as u128;
    let per_bin: u128 = sample_rate as u128 * 1000;
    assert(f * fft <= 0xffff_ffff_ffff_ffff * 0xffff_ffff_ffff_ffff) by (nonlinear_arith)
        requires
            f <= 0xffff_ffff_ffff_ffff,
            fft <= 0xffff_ffff_ffff_ffff,
    ;
    let b: u128 = (f as u128 * fft + per_bin - 1) / per_bin;
    if b <= fft {
        b as usize
    } else {
        fft_size
    }
}

/// Whether `n` is a power of two.
fn power_of_two(n: usize) -> (r: bool)
    ensures
        r == is_power_of_two(n as nat),
{
    if n == 0 {
        return false;
    }
    let mut m: usize = n;
    while m > 1 && m % 2 == 0
        invariant
            m > 0,
            is_power_of_two(m as nat) == is_power_of_two(n as nat),
        decreases m,
    {
        m = m / 2;
    }
    m == 1
}

/// The mean, rounded down, of the bins `[lo, hi)` of `spectrum` that exist;
/// zero when there are none.
pub fn band_average(spectrum: &[u64], lo: usize, hi: usize) -> (r: u64)
    ensures
        r == bin_mean(spectrum@, lo as int, hi as int),
{
    let end: usize = if hi <= spectrum.len() {
        hi
    } else {
        spectrum.len()
    };
    if lo >= end {
        return 0;
    }
    let mut sum: u128 = 0;
    let mut i: usize = lo;
    while i < end
        invariant
            lo <= i <= end,
            end <= spectrum@.len(),
            sum == range_sum(spectrum@, lo as int, i as int),
            sum <= (i - lo) * 0xffff_ffff_ffff_ffff,
        decreases end - i,
    {
        sum = sum + spectrum[i] as u128;
        i = i + 1;
    }
    let count: u128 = (end - lo) as u128;
    let mean: u128 = sum / count;
    assert(mean <= 0xffff_ffff_ffff_ffff) by (nonlinear_arith)
        requires
            sum <= count * 0xffff_ffff_ffff_ffff,
            count > 0,
            mean == sum / count,
    ;
    mean as u64
}

/// Edges that rise from one to the next rise over any distance.
pub proof fn lemma_rising_edges_ordered(edges: Seq<u64>, i: int, j: int)
    requires
        rises_strictly(edges),
        0 <= i < j < edges.len(),
    ensures
        edges[i] < edges[j],
    decreases j - i,
{
    if j > i + 1 {
        lemma_rising_edges_ordered(edges, i, j - 1);
    }
    assert(edges[j - 1] < edges[j]);
}

proof fn lemma_band_from(edges: Seq<u64>, f: int, b: int) -> (r: int)
    requires
        rises_strictly(edges),
        0 <= b < edges.len() - 1,
        edges[b] <= f < edges.last(),
    ensures
        b <= r < edges.len() - 1,
        edges[r] <= f < edges[r + 1],
    decreases edges.len() - b,
{
    if f < edges[b + 1] {
        b
    } else {
        lemma_band_from(edges, f, b + 1)
    }
}

/// The bands rise and tile the analysed range: there are
/// `spec_num_bands()` of them, each starts where the one below it ends, every
/// band lies strictly above the ones below it, and every frequency from
/// 20 Hz up to the Nyquist frequency lies in exactly one band.
pub proof fn lemma_bands_partition(layout: &BandLayout, f: int) -> (b: int)
    requires
        layout.wf(),
        MIN_FREQ_MHZ <= f < nyquist_mhz(layout.spec_sample_rate()),
    ensures
        layout.spec_num_bands() == layout.spec_edges().len() - 1,
        forall|i: int, j: int|
            0 <= i < j <= layout.spec_num_bands() ==> #[trigger] layout.spec_edges()[i]
                < #[trigger] layout.spec_edges()[j],
        0 <= b < layout.spec_num_bands(),
        layout.spec_edges()[b] <= f < layout.spec_edges()[b + 1],
        forall|c: int|
            0 <= c < layout.spec_num_bands() && #[trigger] layout.spec_edges()[c] <= f
                < layout.spec_edges()[c + 1] ==> c == b,
{
    let edges = layout.spec_edges();
    assert forall|i: int, j: int|
        0 <= i < j <= layout.spec_num_bands() implies #[trigger] edges[i] < #[trigger] edges[j] by {
        lemma_rising_edges_ordered(edges, i, j);
    }
    let b = lemma_band_from(edges, f, 0);
    assert forall|c: int|
        0 <= c < layout.spec_num_bands() && #[trigger] edges[c] <= f < edges[c + 1] implies c
            == b by {
        if c < b {
            if c + 1 < b {
                lemma_rising_edges_ordered(edges, c + 1, b);
            }
        } else if c > b {
            if b + 1 < c {
                lemma_rising_edges_ordered(edges, b + 1, c);
            }
        }
    }
    b
}

/// A silent spectrum, all of whose bins are zero, gives every band a mean
/// of zero.
pub proof fn lemma_silent_spectrum_means_zero(s: Seq<u64>, lo: nat, hi: nat)
    requires
        forall|i: int| 0 <= i < s.len() ==> s[i] == 0,
    ensures
        bin_mean(s, lo as int, hi as int) == 0,
{
    let end: int = if hi <= s.len() {
        hi as int
    } else {
        s.len() as int
    };
    if lo < end {
        lemma_zero_sum(s, lo as int, end);
    }
}

proof fn lemma_zero_sum(s: Seq<u64>, lo: int, hi: int)
    requires
        0 <= lo,
        hi <= s.len(),
        forall|i: int| 0 <= i < s.len() ==> s[i] == 0,
    ensures
        range_sum(s, lo, hi) == 0,
    decreases hi - lo,
{
    if lo < hi {
        lemma_zero_sum(s, lo, hi - 1);
    }
}

} // verus!
