use vstd::prelude::*;

verus! {

/// The raw 16-bit pattern of a sample read as an unsigned number
/// (two's complement): `-1` is `0xFFFF`.
pub open spec fn raw_bits(s: i16) -> nat {
    if s < 0 {
        (s + 0x10000) as nat
    } else {
        s as nat
    }
}

/// The 32-bit word made of two samples: `high`'s 16 bits above `low`'s,
/// each taken as its raw bit pattern (zero-extended, never sign-extended).
pub open spec fn pack_spec(high: i16, low: i16) -> u32 {
    (raw_bits(high) * 0x10000 + raw_bits(low)) as u32
}

/// The `i`-th word drawn from `buf`: draws take samples from the end, the
/// newest sample first, two per word.
pub open spec fn draw(buf: Seq<i16>, i: int) -> u32 {
    pack_spec(buf[buf.len() - 1 - 2 * i], buf[buf.len() - 2 - 2 * i])
}

/// Byte `j` (0 is the least significant) of `x`.
pub open spec fn byte_of(x: u32, j: int) -> u8 {
    (x >> ((8 * j) as u32)) as u8
}

/// Byte `j` of the stream made of the words drawn from `buf`, each written
/// least significant byte first.
pub open spec fn stream_byte(buf: Seq<i16>, j: int) -> u8 {
    byte_of(draw(buf, j / 4), j % 4)
}

/// How many words a fill of `m` bytes draws from a buffer of `n` samples:
/// one for each started group of four bytes, as far as the samples reach.
pub open spec fn words_drawn(m: int, n: int) -> int {
    let wanted = (m + 3) / 4;
    let held = n / 2;
    if wanted <= held { wanted } else { held }
}

/// After one draw, the words still to come are those that followed it: the
/// `i`-th draw from what a draw leaves is the `(i + 1)`-th draw from before.
/// With the contracts of `NoiseRand::try_next_u32` and
/// `NoiseRand::fill_bytes_from`, this shows that a fill writes the bytes of
/// the words that successive single draws would return, in order.
pub proof fn lemma_draw_shift(buf: Seq<i16>, i: int)
    requires
        buf.len() >= 2,
        0 <= i,
        2 * i + 2 <= buf.len() - 2,
    ensures
        draw(buf.subrange(0, buf.len() - 2), i) == draw(buf, i + 1),
{
}

/// A batch of `n` samples serves exactly `n / 2` draws before the next
/// fetch: after `k < n / 2` draws at least two samples remain, so no fetch
/// is asked for, and after `n / 2` draws fewer than two remain. Each draw
/// takes two samples, so `2 * k` samples are gone after `k` draws.
pub proof fn lemma_batch_serves_half_its_length(batch: Seq<i16>, k: int)
    requires
        0 <= k <= batch.len() / 2,
    ensures
        batch.subrange(0, batch.len() - 2 * k).len() == batch.len() - 2 * k,
        k < batch.len() / 2 ==> batch.subrange(0, batch.len() - 2 * k).len() >= 2,
        k == batch.len() / 2 ==> batch.subrange(0, batch.len() - 2 * k).len() < 2,
{
}

/// Byte `j` of a fill is byte `j % 4` of the `(j / 4)`-th word drawn, least
/// significant first.
pub proof fn lemma_fill_is_little_endian(buf: Seq<i16>, j: int)
    requires
        0 <= j,
    ensures
        stream_byte(buf, j) == byte_of(draw(buf, j / 4), j % 4),
        j % 4 == 0 ==> stream_byte(buf, j) == draw(buf, j / 4) as u8,
{
    let w = draw(buf, j / 4);
    assert(w >> 0u32 == w) by (bit_vector);
}

/// Why a batch of samples was refused.
#[derive(Debug, Clone, Copy, PartialEq, Eq, Structural)]
pub enum RefillError {
    /// The batch held fewer than two samples.
    Undersized,
}

/// A random number generator fed by batches of noise samples.
pub struct NoiseRand {
    buffer: Vec<i16>,
}

/// Packs two samples into one word, `high` in the upper half.
pub fn pack(high: i16, low: i16) -> (r: u32)
    ensures
        r == pack_spec(high, low),
{
    let h = high as u16;
    let l = low as u16;
    assert(high < 0 ==> (high as u16) as int == high as int + 0x10000) by (bit_vector);
    assert(high >= 0 ==> (high as u16) as int == high as int) by (bit_vector);
    assert(low < 0 ==> (low as u16) as int == low as int + 0x10000) by (bit_vector);
    assert(low >= 0 ==> (low as u16) as int == low as int) by (bit_vector);
    let r = ((h as u32) << 16) | (l as u32);
    assert(((h as u32) << 16) | (l as u32) == (h as u32) * 0x10000 + (l as u32)) by (bit_vector);
    r
}

/// Composes a 64-bit value from two 32-bit draws: the first gives the low
/// half, the second the high half.
pub fn compose_u64(first: u32, second: u32) -> (r: u64)
    ensures
        r == (second as nat) * 0x1_0000_0000 + (first as nat),
        r as u32 == first,
        (r >> 32u64) as u32 == second,
{
    let r = ((second as u64) << 32) | (first as u64);
    assert(((second as u64) << 32) | (first as u64) == (second as u64) * 0x1_0000_0000 + (
    first as u64)) by (bit_vector);
    assert((((second as u64) << 32) | (first as u64)) as u32 == first) by (bit_vector);
    assert(((((second as u64) << 32) | (first as u64)) >> 32u64) as u32 == second) by (bit_vector);
    r
}

impl NoiseRand {
    /// The samples held, oldest first; draws take them from the end.
    pub closed spec fn samples(&self) -> Seq<i16> {
        self.buffer@
    }

    /// A generator with no samples: its first draw asks for a batch.
    pub fn new() -> (r: Self)
        ensures
            r.samples() == Seq::<i16>::empty(),
    {
        NoiseRand { buffer: Vec::new() }
    }

    /// The number of samples held.
    pub fn len(&self) -> (r: usize)
        ensures
            r == self.samples().len(),
    {
        self.buffer.len()
    }

    /// Whether the next draw needs a fresh batch (fewer than two samples).
    pub fn needs_refill(&self) -> (r: bool)
        ensures
            r == (self.samples().len() < 2),
    {
        self.buffer.len() < 2
    }

    /// Replaces the samples held by `batch`, which must hold at least two
    /// samples; a smaller batch is refused and the samples are left as they
    /// were.
    pub fn refill(&mut self, batch: Vec<i16>) -> (r: Result<(), RefillError>)
        ensures
            batch@.len() >= 2 <==> r is Ok,
            r is Ok ==> final(self).samples() == batch@,
            r is Err ==> r == Err::<(), RefillError>(RefillError::Undersized) && final(self).samples()
                == old(self).samples(),
    {
        if batch.len() < 2 {
            return Err(RefillError::Undersized);
        }
        self.buffer = batch;
        Ok(())
    }

    /// Draws one word from the two newest samples, the newest in the upper
    /// half, and removes them. With fewer than two samples held, returns
    /// `None` and changes nothing: a batch must be fetched first.
    pub fn try_next_u32(&mut self) -> (r: Option<u32>)
        ensures
            old(self).samples().len() >= 2 ==> r == Some(draw(old(self).samples(), 0))
                && final(self).samples() == old(self).samples().subrange(
                0,
                old(self).samples().len() - 2,
            ),
            old(self).samples().len() < 2 ==> r is None && final(self).samples() == old(
                self,
            ).samples(),
    {
        if self.buffer.len() < 2 {
            return None;
        }
        let high = self.buffer.pop().unwrap();
        let low = self.buffer.pop().unwrap();
        proof {
            assert(self.buffer@ =~= old(self).buffer@.subrange(0, old(self).buffer@.len() - 2));
        }
        Some(pack(high, low))
    }

    /// Fills `dest` from index `start` on with the bytes of successive draws,
    /// each word least significant byte first; a last word that does not fit
    /// is cut to the bytes that remain. Stops early when fewer than two
    /// samples are left, and returns the index up to which `dest` is filled:
    /// `dest.len()` when the fill is complete.
    pub fn fill_bytes_from(&mut self, dest: &mut [u8], start: usize) -> (r: usize)
        requires
            start <= old(dest)@.len(),
        ensures
            ({
                let buf = old(self).samples();
                let m = old(dest)@.len() - start;
                let k = words_drawn(m, buf.len() as int);
                &&& final(self).samples() == buf.subrange(0, buf.len() - 2 * k)
                &&& r == start + if m <= 4 * k { m } else { 4 * k }
                &&& r == old(dest)@.len() <==> (m + 3) / 4 <= buf.len() / 2
                &&& r < old(dest)@.len() ==> final(self).samples().len() < 2
                &&& final(dest)@.len() == old(dest)@.len()
                &&& forall|j: int|
                    start <= j < r ==> #[trigger] final(dest)@[j] == stream_byte(buf, j - start)
                &&& forall|j: int|
                    0 <= j < old(dest)@.len() && !(start <= j < r) ==> #[trigger] final(dest)@[j]
                        == old(dest)@[j]
            }),
    {
        let ghost buf = self.buffer@;
        let ghost d0 = dest@;
        let mut pos: usize = start;
        let ghost mut k: int = 0;
        while pos < dest.len() && self.buffer.len() >= 2
            invariant
                start <= pos <= dest@.len(),
                dest@.len() == d0.len(),
                0 <= k <= buf.len() / 2,
                self.buffer@ == buf.subrange(0, buf.len() - 2 * k),
                pos == start + if d0.len() - start <= 4 * k {
                    d0.len() - start
                } else {
                    4 * k
                },
                pos < d0.len() ==> pos == start + 4 * k,
                k == 0 || 4 * (k - 1) < d0.len() - start,
                forall|j: int| start <= j < pos ==> #[trigger] dest@[j] == stream_byte(buf, j - start),
                forall|j: int|
                    0 <= j < d0.len() && !(start <= j < pos) ==> #[trigger] dest@[j] == d0[j],
            decreases dest@.len() - pos,
        {
            let word = self.try_next_u32().unwrap();
            proof {
                assert(draw(buf.subrange(0, buf.len() - 2 * k), 0) == draw(buf, k));
            }
            let mut b: u32 = 0;
            while b < 4 && pos < dest.len()
                invariant
                    start <= pos <= dest@.len(),
                    dest@.len() == d0.len(),
                    b <= 4,
                    pos == start + 4 * k + b,
                    word == draw(buf, k),
                    forall|j: int|
                        start <= j < pos ==> #[trigger] dest@[j] == stream_byte(buf, j - start),
                    forall|j: int|
                        0 <= j < d0.len() && !(start <= j < pos) ==> #[trigger] dest@[j] == d0[j],
                decreases 4 - b,
            {
                dest[pos] = #[verifier::truncate] ((word >> (8 * b)) as u8);
                proof {
                    let j = pos - start;
                    assert(j / 4 == k && j % 4 == b as int);
                }
                pos = pos + 1;
                b = b + 1;
            }
            proof {
                k = k + 1;
            }
        }
        proof {
            let m = d0.len() - start;
            if pos == d0.len() {
                assert(k == (m + 3) / 4);
            } else {
                assert(k == buf.len() / 2);
            }
            assert(k == words_drawn(m, buf.len() as int));
        }
        pos
    }
}

} // verus!
