use vstd::arithmetic::div_mod::{
    lemma_div_is_ordered, lemma_fundamental_div_mod, lemma_fundamental_div_mod_converse, lemma_mod_bound,
};
use vstd::prelude::*;

verus! {

/// Number of blocks that a window of `size` samples advancing by `hop`
/// completes over a stream of `n` samples.
pub open spec fn blocks_completed(size: int, hop: int, n: int) -> int {
    if n < size { 0 } else { 1 + (n - size) / hop }
}

/// A window that holds `held` samples after completing `count` blocks over
/// a stream of `n` samples has completed `blocks_completed(size, hop, n)`.
proof fn lemma_count_from_state(size: int, hop: int, n: int, count: int)
    requires
        0 < hop < size,
        count >= 0,
        0 <= n - count * hop < size,
        count > 0 ==> n - count * hop >= size - hop,
    ensures
        blocks_completed(size, hop, n) == count,
{
    if count > 0 {
        let rem = n - count * hop - (size - hop);
        assert(n - size == (count - 1) * hop + rem) by (nonlinear_arith)
            requires
                rem == n - count * hop - (size - hop),
        ;
        lemma_fundamental_div_mod_converse(n - size, hop, count - 1, rem);
    }
}

/// Law of the stream: from an empty window, fewer than `size` samples
/// complete no block, `size` samples complete exactly one and
/// `size + hop` samples exactly two.
pub proof fn lemma_first_blocks(size: int, hop: int)
    requires
        0 < hop < size,
    ensures
        forall|n: int| 0 <= n < size ==> blocks_completed(size, hop, n) == 0,
        blocks_completed(size, hop, size) == 1,
        blocks_completed(size, hop, size + hop) == 2,
{
    lemma_count_from_state(size, hop, size, 1);
    lemma_count_from_state(size, hop, size + hop, 2);
}

/// Law of the stream: once a block has been handed out the window holds
/// `size - hop` samples, and no further block comes before `hop` new
/// samples have arrived; each `hop` samples after that complete one more.
pub proof fn lemma_blocks_need_hop_samples(size: int, hop: int, k: int)
    requires
        0 < hop < size,
        k >= 0,
    ensures
        k < hop ==> blocks_completed(size, hop, size - hop + k) == 0,
        blocks_completed(size, hop, size + k + hop) == blocks_completed(size, hop, size + k) + 1,
{
    let q = k / hop;
    let rem = k % hop;
    lemma_fundamental_div_mod(k, hop);
    lemma_mod_bound(k, hop);
    assert(k == q * hop + rem) by (nonlinear_arith)
        requires
            k == hop * q + rem,
    ;
    assert(q >= 0) by {
        lemma_div_is_ordered(0, k, hop);
    }
    assert(size + k - (q + 1) * hop == size - hop + rem) by (nonlinear_arith)
        requires
            k == q * hop + rem,
    ;
    lemma_count_from_state(size, hop, size + k, q + 1);
    assert(size + k + hop - (q + 2) * hop == size - hop + rem) by (nonlinear_arith)
        requires
            k == q * hop + rem,
    ;
    lemma_count_from_state(size, hop, size + k + hop, q + 2);
}

/// Sliding window over a sample stream.
///
/// Samples are appended one at a time. Each time `size` samples are in
/// place, the window hands out a copy of them as one analysis block and
/// drops its oldest `hop` samples, so consecutive blocks overlap by
/// `size - hop` samples and a new block needs `hop` new samples.
pub struct SlidingWindow<T> {
    buffer: Vec<T>,
    filled: usize,
    hop: usize,
}

fn copy_of<T: Copy>(v: &Vec<T>) -> (r: Vec<T>)
    ensures
        r@ == v@,
{
    let mut r: Vec<T> = Vec::with_capacity(v.len());
    let mut i: usize = 0;
    while i < v.len()
        invariant
            i <= v@.len(),
            r@ == v@.subrange(0, i as int),
        decreases v@.len() - i,
    {
        r.push(v[i]);
        i = i + 1;
        assert(r@ =~= v@.subrange(0, i as int));
    }
    assert(v@.subrange(0, v@.len() as int) =~= v@);
    r
}

impl<T: Copy> SlidingWindow<T> {
    /// The samples now held, oldest first.
    pub closed spec fn view(&self) -> Seq<T> {
        self.buffer@.subrange(0, self.filled as int)
    }

    pub closed spec fn size(&self) -> nat {
        self.buffer@.len()
    }

    pub closed spec fn hop_spec(&self) -> nat {
        self.hop as nat
    }

    pub closed spec fn wf(&self) -> bool {
        &&& 0 < self.hop < self.buffer@.len()
        &&& self.filled < self.buffer@.len()
    }

    /// An empty window of `size` samples that advances by `hop`; `fill` is
    /// the value the storage starts with and is never handed out.
    pub fn new(size: usize, hop: usize, fill: T) -> (r: Self)
        requires
            0 < hop < size,
        ensures
            r.wf(),
            r.view() == Seq::<T>::empty(),
            r.size() == size,
            r.hop_spec() == hop,
    {
        let mut buffer: Vec<T> = Vec::new();
        let mut i: usize = 0;
        while i < size
            invariant
                i <= size,
                buffer@.len() == i,
            decreases size - i,
        {
            buffer.push(fill);
            i = i + 1;
        }
        let r = SlidingWindow { buffer, filled: 0, hop };
        assert(r.view() =~= Seq::<T>::empty());
        r
    }

    /// Samples that the window holds now.
    pub fn len(&self) -> (r: usize)
        requires
            self.wf(),
        ensures
            r == self.view().len(),
    {
        self.filled
    }

    /// Appends one sample. When that completes the window, returns the
    /// `size` samples held, oldest first, and keeps only the newest
    /// `size - hop` of them.
    pub fn push(&mut self, sample: T) -> (r: Option<Vec<T>>)
        requires
            old(self).wf(),
        ensures
            final(self).wf(),
            final(self).size() == old(self).size(),
            final(self).hop_spec() == old(self).hop_spec(),
            ({
                let w = old(self).view().push(sample);
                if w.len() == old(self).size() {
                    &&& r is Some
                    &&& r.unwrap()@ == w
                    &&& final(self).view() == w.subrange(old(self).hop_spec() as int, w.len() as int)
                } else {
                    &&& r is None
                    &&& final(self).view() == w
                }
            }),
    {
        let ghost w = self.view().push(sample);
        let size: usize = self.buffer.len();
        self.buffer.set(self.filled, sample);
        self.filled = self.filled + 1;
        assert(self.buffer@.subrange(0, self.filled as int) =~= w);
        if self.filled < size {
            return None;
        }
        let block: Vec<T> = copy_of(&self.buffer);
        let keep: usize = size - self.hop;
        let mut i: usize = 0;
        while i < keep
            invariant
                size == self.buffer@.len(),
                size == w.len(),
                keep == size - self.hop,
                0 < self.hop < size,
                i <= keep,
                forall|j: int| 0 <= j < i ==> self.buffer@[j] == w[j + self.hop],
                forall|j: int| i <= j < size ==> self.buffer@[j] == w[j],
            decreases keep - i,
        {
            let v: T = self.buffer[i + self.hop];
            self.buffer.set(i, v);
            i = i + 1;
        }
        self.filled = keep;
        assert(self.view() =~= w.subrange(self.hop as int, w.len() as int));
        Some(block)
    }

    /// Appends `samples` in order and returns, oldest first, every block
    /// that they complete.
    ///
    /// Over the stream `c` of the samples held before the call followed by
    /// `samples`, block `j` is `c[j * hop .. j * hop + size]`, and the
    /// window keeps what follows the last `hop` step.
    pub fn push_all(&mut self, samples: &Vec<T>) -> (r: Vec<Vec<T>>)
        requires
            old(self).wf(),
        ensures
            final(self).wf(),
            final(self).size() == old(self).size(),
            final(self).hop_spec() == old(self).hop_spec(),
            ({
                let c = old(self).view() + samples@;
                let size = old(self).size() as int;
                let hop = old(self).hop_spec() as int;
                &&& r@.len() == blocks_completed(size, hop, c.len() as int)
                &&& forall|j: int| 0 <= j < r@.len()
                        ==> (#[trigger] r@[j])@ == c.subrange(j * hop, j * hop + size)
                &&& final(self).view() == c.subrange(r@.len() * hop, c.len() as int)
            }),
    {
        let ghost c = self.view() + samples@;
        let ghost held = self.view().len() as int;
        let ghost size = self.size() as int;
        let ghost hop = self.hop_spec() as int;
        let mut blocks: Vec<Vec<T>> = Vec::new();
        let mut i: usize = 0;
        assert(blocks@.len() * hop == 0);
        assert(self.view() =~= c.subrange(0, held));
        while i < samples.len()
            invariant
                self.wf(),
                self.size() == size,
                self.hop_spec() == hop,
                0 < hop < size,
                c == old(self).view() + samples@,
                held == old(self).view().len(),
                i <= samples@.len(),
                0 <= held + i - blocks@.len() * hop < size,
                blocks@.len() > 0 ==> held + i - blocks@.len() * hop >= size - hop,
                self.view() == c.subrange(blocks@.len() * hop, held + i),
                forall|j: int| 0 <= j < blocks@.len()
                    ==> (#[trigger] blocks@[j])@ == c.subrange(j * hop, j * hop + size),
            decreases samples@.len() - i,
        {
            let ghost cnt = blocks@.len() as int;
            assert(c[held + i] == samples@[i as int]);
            assert(self.view().push(samples@[i as int]) =~= c.subrange(cnt * hop, held + i + 1));
            let out = self.push(samples[i]);
            assert((cnt + 1) * hop == cnt * hop + hop) by (nonlinear_arith);
            match out {
                Some(block) => {
                    assert(held + i + 1 == cnt * hop + size);
                    assert(self.view() =~= c.subrange((cnt + 1) * hop, held + i + 1));
                    blocks.push(block);
                },
                None => {},
            }
            i = i + 1;
        }
        proof {
            lemma_count_from_state(size, hop, c.len() as int, blocks@.len() as int);
        }
        blocks
    }
}

} // verus!
