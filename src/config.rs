use vstd::prelude::*;

use crate::notes::{is_nearest, nearest_reference};
use crate::peak::{band_end, band_len, is_first_peak, peak_bin, search_band_end};
use crate::window::SlidingWindow;

verus! {

/// Why a configuration was refused.
#[derive(Clone, Copy, Debug, PartialEq, Eq, Structural)]
pub enum ConfigError {
    /// A size or rate is zero, the hop does not leave an overlap between
    /// windows, the transform is shorter than the window, or the table of
    /// reference pitches is empty.
    InvalidConfiguration,
}

/// Outcome of one analysis cycle.
#[derive(Clone, Copy, Debug, PartialEq, Eq, Structural)]
pub enum Detection {
    /// The strongest bin of the band is bin 0: there is no pitch to report.
    NoPitch,
    /// The strongest bin of the band, and the index of the reference pitch
    /// closest in Hz to its frequency.
    Pitch { bin: usize, note: usize },
}

/// What a set of parameters must satisfy to drive the analysis.
pub open spec fn valid_parameters(
    sample_rate: int,
    window_size: int,
    transform_size: int,
    hop_size: int,
    references: Seq<u64>,
) -> bool {
    &&& sample_rate > 0
    &&& window_size > 0
    &&& 0 < hop_size < window_size
    &&& transform_size >= window_size
    &&& references.len() > 0
}

/// The result of analysing the magnitude keys `keys` of one spectrum: the
/// first strongest bin among those below `max_hz`, and the nearest
/// reference pitch to it unless that bin is 0.
pub open spec fn is_detection(
    keys: Seq<u32>,
    sample_rate: int,
    transform_size: int,
    max_hz: int,
    references: Seq<u64>,
    d: Detection,
) -> bool {
    let n = band_len(keys.len() as int, band_end(sample_rate, transform_size, max_hz));
    match d {
        Detection::NoPitch => is_first_peak(keys, n, 0),
        Detection::Pitch { bin, note } => {
            &&& bin > 0
            &&& is_first_peak(keys, n, bin as int)
            &&& is_nearest(references, bin as int, sample_rate, transform_size, note as int)
        },
    }
}

/// Parameters of the pitch analysis, fixed for the life of a detector.
///
/// Blocks of `window_size` samples taken at `sample_rate` Hz are
/// zero-padded to `transform_size` samples, so bin `k` of their spectrum
/// stands for `k * sample_rate / transform_size` Hz. A block is analysed
/// every `hop_size` new samples; the search for the fundamental covers the
/// bins below `max_hz`, and `references` lists the reference pitches in
/// millihertz.
pub struct PitchConfig {
    sample_rate: u32,
    window_size: usize,
    transform_size: usize,
    hop_size: usize,
    max_hz: u32,
    references: Vec<u64>,
}

impl PitchConfig {
    pub closed spec fn sample_rate_spec(&self) -> int {
        self.sample_rate as int
    }

    pub closed spec fn window_size_spec(&self) -> int {
        self.window_size as int
    }

    pub closed spec fn transform_size_spec(&self) -> int {
        self.transform_size as int
    }

    pub closed spec fn hop_size_spec(&self) -> int {
        self.hop_size as int
    }

    pub closed spec fn max_hz_spec(&self) -> int {
        self.max_hz as int
    }

    pub closed spec fn references_spec(&self) -> Seq<u64> {
        self.references@
    }

    pub open spec fn wf(&self) -> bool {
        valid_parameters(
            self.sample_rate_spec(),
            self.window_size_spec(),
            self.transform_size_spec(),
            self.hop_size_spec(),
            self.references_spec(),
        )
    }

    /// Checks the parameters and keeps them; refuses them with
    /// `InvalidConfiguration` exactly when they are not valid.
    pub fn new(
        sample_rate: u32,
        window_size: usize,
        transform_size: usize,
        hop_size: usize,
        max_hz: u32,
        references: Vec<u64>,
    ) -> (r: Result<PitchConfig, ConfigError>)
        ensures
            valid_parameters(
                sample_rate as int,
                window_size as int,
                transform_size as int,
                hop_size as int,
                references@,
            ) <==> r is Ok,
            r is Err ==> r == Err::<PitchConfig, ConfigError>(ConfigError::InvalidConfiguration),
            r matches Ok(c) ==> {
                &&& c.wf()
                &&& c.sample_rate_spec() == sample_rate
                &&& c.window_size_spec() == window_size
                &&& c.transform_size_spec() == transform_size
                &&& c.hop_size_spec() == hop_size
                &&& c.max_hz_spec() == max_hz
                &&& c.references_spec() == references@
            },
    {
        if sample_rate == 0 || window_size == 0 || hop_size == 0 || hop_size >= window_size
            || transform_size < window_size || references.len() == 0 {
            return Err(ConfigError::InvalidConfiguration);
        }
        Ok(PitchConfig { sample_rate, window_size, transform_size, hop_size, max_hz, references })
    }

    pub fn sample_rate(&self) -> (r: u32)
        ensures
            r == self.sample_rate_spec(),
    {
        self.sample_rate
    }

    pub fn window_size(&self) -> (r: usize)
        ensures
            r == self.window_size_spec(),
    {
        self.window_size
    }

    pub fn transform_size(&self) -> (r: usize)
        ensures
            r == self.transform_size_spec(),
    {
        self.transform_size
    }

    pub fn hop_size(&self) -> (r: usize)
        ensures
            r == self.hop_size_spec(),
    {
        self.hop_size
    }

    pub fn max_hz(&self) -> (r: u32)
        ensures
            r == self.max_hz_spec(),
    {
        self.max_hz
    }

    pub fn references(&self) -> (r: &Vec<u64>)
        ensures
            r@ == self.references_spec(),
    {
        &self.references
    }

    /// Analyses the magnitude keys of one spectrum: finds the first
    /// strongest bin below `max_hz` and, unless it is bin 0, the reference
    /// pitch nearest to its frequency.
    pub fn estimate(&self, keys: &Vec<u32>) -> (r: Detection)
        requires
            self.wf(),
        ensures
            is_detection(
                keys@,
                self.sample_rate_spec(),
                self.transform_size_spec(),
                self.max_hz_spec(),
                self.references_spec(),
                r,
            ),
    {
        let end: usize = search_band_end(self.sample_rate, self.transform_size, self.max_hz);
        let bin: usize = peak_bin(keys, end);
        if bin == 0 {
            Detection::NoPitch
        } else {
            let note: usize = nearest_reference(&self.references, bin, self.sample_rate, self.transform_size);
            Detection::Pitch { bin, note }
        }
    }

    /// An empty sliding window of `window_size` samples advancing by
    /// `hop_size`, its storage filled with `fill`.
    pub fn new_window<T: Copy>(&self, fill: T) -> (r: SlidingWindow<T>)
        requires
            self.wf(),
        ensures
            r.wf(),
            r.view() == Seq::<T>::empty(),
            r.size() == self.window_size_spec(),
            r.hop_spec() == self.hop_size_spec(),
    {
        SlidingWindow::new(self.window_size, self.hop_size, fill)
    }
}

} // verus!
