use vstd::prelude::*;

verus! {

/// Distance between the frequency of `bin` and a reference pitch of
/// `ref_mhz` millihertz, in units of `1 / (1000 * transform_size)` Hz.
///
/// The frequency of bin `k` is `k * sample_rate / transform_size` Hz, so the
/// distance in Hz is `|k * sample_rate / transform_size - ref_mhz / 1000|`;
/// scaling by `1000 * transform_size` keeps it an exact integer.
pub open spec fn scaled_distance(bin: int, sample_rate: int, transform_size: int, ref_mhz: int) -> int {
    let a = bin * sample_rate * 1000;
    let b = ref_mhz * transform_size;
    if a >= b { a - b } else { b - a }
}

/// `i` is the first entry of `table` at the least distance from the
/// frequency of `bin`.
pub open spec fn is_nearest(table: Seq<u64>, bin: int, sample_rate: int, transform_size: int, i: int) -> bool {
    &&& 0 <= i < table.len()
    &&& forall|j: int| 0 <= j < table.len()
            ==> scaled_distance(bin, sample_rate, transform_size, table[j] as int)
                >= scaled_distance(bin, sample_rate, transform_size, table[i] as int)
    &&& forall|j: int| 0 <= j < i
            ==> scaled_distance(bin, sample_rate, transform_size, table[j] as int)
                > scaled_distance(bin, sample_rate, transform_size, table[i] as int)
}

/// The six open strings of a guitar in standard tuning, low to high, in
/// millihertz.
pub fn standard_guitar_tuning() -> (r: Vec<u64>)
    ensures
        r@ == seq![82_410u64, 110_000, 146_830, 196_000, 246_940, 329_630],
{
    let r: Vec<u64> = vec![82_410, 110_000, 146_830, 196_000, 246_940, 329_630];
    assert(r@ == seq![82_410u64, 110_000, 146_830, 196_000, 246_940, 329_630]);
    r
}

fn distance(bin: usize, sample_rate: u32, transform_size: usize, ref_mhz: u64) -> (r: u128)
    ensures
        r as int == scaled_distance(bin as int, sample_rate as int, transform_size as int, ref_mhz as int),
{
    let k: u128 = bin as u128;
    let s: u128 = sample_rate as u128;
    let t: u128 = transform_size as u128;
    let f: u128 = ref_mhz as u128;
    proof {
        assert(k * s <= 0xffff_ffff_ffff_ffff * 0xffff_ffff) by (nonlinear_arith)
            requires
                k <= 0xffff_ffff_ffff_ffff,
                s <= 0xffff_ffff,
        ;
        assert(f * t <= 0xffff_ffff_ffff_ffff * 0xffff_ffff_ffff_ffff) by (nonlinear_arith)
            requires
                f <= 0xffff_ffff_ffff_ffff,
                t <= 0xffff_ffff_ffff_ffff,
        ;
    }
    let a: u128 = k * s * 1000;
    let b: u128 = f * t;
    if a >= b {
        a - b
    } else {
        b - a
    }
}

/// Index of the reference pitch closest, in Hz, to the frequency of `bin`
/// for a transform of `transform_size` samples taken at `sample_rate` Hz;
/// the first one wins on ties.
pub fn nearest_reference(table: &Vec<u64>, bin: usize, sample_rate: u32, transform_size: usize) -> (r: usize)
    requires
        table@.len() > 0,
    ensures
        is_nearest(table@, bin as int, sample_rate as int, transform_size as int, r as int),
{
    let mut best: usize = 0;
    let mut best_dist: u128 = distance(bin, sample_rate, transform_size, table[0]);
    let mut i: usize = 1;
    while i < table.len()
        invariant
            1 <= i <= table@.len(),
            is_nearest(table@.subrange(0, i as int), bin as int, sample_rate as int, transform_size as int, best as int),
            best < i,
            best_dist as int == scaled_distance(bin as int, sample_rate as int, transform_size as int, table@[best as int] as int),
        decreases table@.len() - i,
    {
        let d: u128 = distance(bin, sample_rate, transform_size, table[i]);
        if d < best_dist {
            best = i;
            best_dist = d;
        }
        i = i + 1;
    }
    assert(table@.subrange(0, table@.len() as int) == table@);
    best
}

/// When the frequency of `bin` equals an entry of the table exactly, the
/// match is an entry of that same frequency.
pub proof fn lemma_exact_frequency_matches(table: Seq<u64>, bin: int, sample_rate: int, transform_size: int, i: int, r: int)
    requires
        transform_size > 0,
        0 <= i < table.len(),
        bin * sample_rate * 1000 == table[i] * transform_size,
        is_nearest(table, bin, sample_rate, transform_size, r),
    ensures
        table[r] == table[i],
        scaled_distance(bin, sample_rate, transform_size, table[r] as int) == 0,
{
    assert(scaled_distance(bin, sample_rate, transform_size, table[i] as int) == 0);
    let a = table[r] as int;
    let b = table[i] as int;
    assert(a * transform_size == b * transform_size);
    assert(a == b) by (nonlinear_arith)
        requires
            a * transform_size == b * transform_size,
            transform_size > 0,
    ;
}

} // verus!
