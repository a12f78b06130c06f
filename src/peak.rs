use vstd::prelude::*;

verus! {

/// `i` is the first position of the largest key among `keys[0..n]`
/// (0 when the range is empty).
pub open spec fn is_first_peak(keys: Seq<u32>, n: int, i: int) -> bool {
    if n <= 0 {
        i == 0
    } else {
        &&& 0 <= i < n
        &&& forall|j: int| 0 <= j < n ==> keys[j] <= keys[i]
        &&& forall|j: int| 0 <= j < i ==> keys[j] < keys[i]
    }
}

/// Number of spectrum entries that the search looks at: the bins below
/// `max_hz`, limited to the entries present.
pub open spec fn band_len(len: int, end: int) -> int {
    if end < len { end } else { len }
}

/// Index of the strongest bin among the first `end` entries of `keys`; the
/// first one wins on ties, and an empty range gives bin 0.
///
/// A key is any integer whose order is the order of the magnitudes, such as
/// the bit pattern of a non-negative `f32`.
pub fn peak_bin(keys: &Vec<u32>, end: usize) -> (r: usize)
    ensures
        is_first_peak(keys@, band_len(keys@.len() as int, end as int), r as int),
{
    let n: usize = if end < keys.len() { end } else { keys.len() };
    let mut best: usize = 0;
    let mut i: usize = 1;
    if n == 0 {
        return 0;
    }
    while i < n
        invariant
            1 <= i <= n,
            n == band_len(keys@.len() as int, end as int),
            n <= keys@.len(),
            is_first_peak(keys@, i as int, best as int),
        decreases n - i,
    {
        if keys[i] > keys[best] {
            best = i;
        }
        i = i + 1;
    }
    best
}

/// The first strongest position of a range is unique: `is_first_peak`
/// pins down the result of the search.
pub proof fn lemma_first_peak_unique(keys: Seq<u32>, n: int, i: int, i2: int)
    requires
        n <= keys.len(),
        is_first_peak(keys, n, i),
        is_first_peak(keys, n, i2),
    ensures
        i == i2,
{
    if n > 0 {
        if i < i2 {
            assert(keys[i] < keys[i2]);
            assert(keys[i2] <= keys[i]);
        } else if i2 < i {
            assert(keys[i2] < keys[i]);
            assert(keys[i] <= keys[i2]);
        }
    }
}

/// A spectrum whose only non-zero key within the range lies at `k` has
/// its peak at `k`.
pub proof fn lemma_single_peak(keys: Seq<u32>, n: int, k: int, i: int)
    requires
        0 <= k < n <= keys.len(),
        keys[k] > 0,
        forall|j: int| 0 <= j < n && j != k ==> keys[j] == 0,
        is_first_peak(keys, n, i),
    ensures
        i == k,
{
    assert(keys[k] <= keys[i]);
}

/// Number of bins that a real transform of `transform_size` samples yields.
pub open spec fn spectrum_len(transform_size: int) -> int {
    transform_size / 2 + 1
}

/// Bins `k` with `k * sample_rate / transform_size < max_hz`, within the
/// spectrum of a real transform of `transform_size` samples.
pub open spec fn band_end(sample_rate: int, transform_size: int, max_hz: int) -> int {
    band_len(spectrum_len(transform_size), max_hz * transform_size / sample_rate)
}

/// Exclusive end of the bins that lie below `max_hz`, for a transform of
/// `transform_size` samples taken at `sample_rate` Hz.
pub fn search_band_end(sample_rate: u32, transform_size: usize, max_hz: u32) -> (r: usize)
    requires
        sample_rate > 0,
    ensures
        r == band_end(sample_rate as int, transform_size as int, max_hz as int),
{
    let full: usize = transform_size / 2 + 1;
    let m: u128 = max_hz as u128;
    let t: u128 = transform_size as u128;
    proof {
        assert(m * t <= 0xffff_ffff * 0xffff_ffff_ffff_ffff) by (nonlinear_arith)
            requires
                m <= 0xffff_ffff,
                t <= 0xffff_ffff_ffff_ffff,
        ;
    }
    let scaled: u128 = m * t / (sample_rate as u128);
    if scaled < full as u128 {
        scaled as usize
    } else {
        full
    }
}

/// Frequency of bin `bin` of a transform of `transform_size` samples taken
/// at `sample_rate` Hz, in millihertz, rounded down.
pub fn bin_frequency_mhz(bin: usize, sample_rate: u32, transform_size: usize) -> (r: u128)
    requires
        transform_size > 0,
    ensures
        r == bin as int * sample_rate as int * 1000 / transform_size as int,
{
    let k: u128 = bin as u128;
    let s: u128 = sample_rate as u128;
    proof {
        assert(k * s <= 0xffff_ffff_ffff_ffff * 0xffff_ffff) by (nonlinear_arith)
            requires
                k <= 0xffff_ffff_ffff_ffff,
                s <= 0xffff_ffff,
        ;
    }
    k * s * 1000 / (transform_size as u128)
}

} // verus!
