//! A ring of audio samples: the capture callback writes at a wrapping
//! cursor, the frame loop reads the most recent window behind it.
//!
//! Positions are computed with wrapping `usize` arithmetic and then masked
//! with `len - 1`, so any write or read is accepted: a read longer than the
//! ring simply goes round it again.

use vstd::prelude::*;
use vstd::arithmetic::power2::{pow2, lemma_pow2_pos, lemma_pow2_unfold, lemma_pow2_adds, lemma2_to64};
use vstd::arithmetic::div_mod::{
    lemma_add_mod_noop_right, lemma_mod_add_multiples_vanish, lemma_mod_equivalence, lemma_mod_mod,
    lemma_mod_sub_multiples_vanish, lemma_small_mod,
};
use vstd::bits::{low_bits_mask, lemma_usize_low_bits_mask_is_mod, lemma_usize_pow2_no_overflow};

verus! {

/// `x` reduced into the range of `usize`, as wrapping arithmetic does.
pub open spec fn wrapped(x: int) -> int {
    x % (usize::MAX as int + 1)
}

/// The slot that position `x` lands in for a ring of `len` slots: the low
/// bits of the wrapped position under the mask `len - 1`.
pub open spec fn slot(x: int, len: nat) -> int {
    ((wrapped(x) as usize) & ((len - 1) as usize)) as int
}

/// The ring contents after writing `samples` one by one, sample `k` going
/// to the slot of `start + k`; a later sample overwrites an earlier one in
/// the same slot.
pub open spec fn written<T>(data: Seq<T>, start: int, samples: Seq<T>) -> Seq<T>
    decreases samples.len(),
{
    if samples.len() == 0 {
        data
    } else {
        let k = samples.len() - 1;
        written(data, start, samples.drop_last()).update(
            slot(start + k, data.len()),
            samples.last(),
        )
    }
}

/// The `n` samples that a read sees when the cursor stands at `pos`: the
/// slots of `pos + len - n`, ..., `pos + len - 1`, oldest first.
pub open spec fn read_window<T>(data: Seq<T>, pos: int, n: nat) -> Seq<T> {
    Seq::new(n, |i: int| data[slot(pos + data.len() - n + i, data.len())])
}

/// A ring length that is a power of two which `usize` can hold, so that
/// masking with `len - 1` is the remainder modulo `len`.
pub open spec fn is_pow2_len(len: nat) -> bool {
    exists|k: nat| k < usize::BITS && len == pow2(k)
}

/// Fixed-size ring of samples with a wrapping write cursor.
pub struct AudioRingBuffer<T> {
    data: Vec<T>,
    write_pos: usize,
}

impl<T> AudioRingBuffer<T> {
    /// The samples held, slot by slot.
    pub closed spec fn contents(&self) -> Seq<T> {
        self.data@
    }

    /// The slot that the next write starts at.
    pub closed spec fn cursor(&self) -> nat {
        self.write_pos as nat
    }

    /// The cursor always names a slot (or is 0 in an empty ring).
    pub open spec fn wf(&self) -> bool {
        self.cursor() == 0 || self.cursor() < self.contents().len()
    }

    /// A ring of `size` slots, each holding `fill`, with the cursor at 0.
    pub fn new(size: usize, fill: T) -> (ring: Self)
        where T: Copy
        ensures
            ring.wf(),
            ring.contents() == Seq::new(size as nat, |i: int| fill),
            ring.cursor() == 0,
    {
        let mut data: Vec<T> = Vec::new();
        let mut i: usize = 0;
        while i < size
            invariant
                i <= size,
                data@ == Seq::new(i as nat, |j: int| fill),
            decreases size - i,
        {
            data.push(fill);
            i = i + 1;
        }
        AudioRingBuffer { data, write_pos: 0 }
    }

    /// Number of slots.
    pub fn len(&self) -> (n: usize)
        ensures
            n == self.contents().len(),
    {
        self.data.len()
    }

    /// The slot that the next write starts at.
    pub fn write_position(&self) -> (pos: usize)
        ensures
            pos == self.cursor(),
    {
        self.write_pos
    }

    /// Writes `samples` in order from the cursor, wrapping through the
    /// mask `len - 1`, and moves the cursor past them.
    pub fn write(&mut self, samples: &[T])
        where T: Copy
        requires
            old(self).wf(),
            old(self).contents().len() > 0,
        ensures
            final(self).wf(),
            final(self).contents() == written(
                old(self).contents(),
                old(self).cursor() as int,
                samples@,
            ),
            final(self).cursor() == slot(
                (old(self).cursor() + samples@.len()) as int,
                old(self).contents().len(),
            ),
    {
        let data_len = self.data.len();
        let mask = data_len - 1;
        let start = self.write_pos;
        let ghost old_data = self.data@;
        let mut i: usize = 0;
        while i < samples.len()
            invariant
                i <= samples@.len(),
                data_len == old_data.len(),
                data_len > 0,
                mask == data_len - 1,
                self.data@.len() == data_len,
                self.data@ == written(old_data, start as int, samples@.take(i as int)),
            decreases samples@.len() - i,
        {
            let at = start.wrapping_add(i);
            proof {
                lemma_wrap_value(start as int, i as int, at as int);
            }
            let idx = at & mask;
            proof {
                lemma_and_le(at, mask);
            }
            self.data[idx] = samples[i];
            proof {
                assert(samples@.take(i + 1).drop_last() =~= samples@.take(i as int));
            }
            i = i + 1;
        }
        proof {
            assert(samples@.take(samples@.len() as int) =~= samples@);
        }
        let end = start.wrapping_add(samples.len());
        proof {
            lemma_wrap_value(start as int, samples@.len() as int, end as int);
        }
        let new_pos = end & mask;
        proof {
            lemma_and_le(end, mask);
        }
        self.write_pos = new_pos;
    }

    /// Fills `out` with the `out.len()` samples behind the cursor, oldest
    /// first; a read longer than the ring goes round it again.
    pub fn get_samples(&self, out: &mut [T])
        where T: Copy
        requires
            self.wf(),
            self.contents().len() > 0,
        ensures
            final(out)@ == read_window(self.contents(), self.cursor() as int, old(out)@.len()),
    {
        let data_len = self.data.len();
        let out_len = out.len();
        let mask = data_len - 1;
        let pos = self.write_pos;
        let ghost n = out_len as nat;
        let behind = pos.wrapping_add(data_len);
        proof {
            lemma_wrap_value(pos as int, data_len as int, behind as int);
        }
        let first = behind.wrapping_sub(out_len);
        proof {
            lemma_wrap_value(behind as int, -(out_len as int), first as int);
            lemma_wrapped_add(pos + data_len, -(out_len as int));
        }
        let mut i: usize = 0;
        while i < out_len
            invariant
                i <= out_len,
                out_len == n,
                out@.len() == n,
                data_len == self.data@.len(),
                data_len > 0,
                mask == data_len - 1,
                pos == self.write_pos,
                first as int == wrapped(pos + data_len - n),
                forall|j: int|
                    0 <= j < i ==> out@[j] == read_window(self.data@, pos as int, n)[j],
            decreases out_len - i,
        {
            let at = first.wrapping_add(i);
            proof {
                lemma_wrap_value(first as int, i as int, at as int);
                lemma_wrapped_add(pos + data_len - n, i as int);
            }
            let idx = at & mask;
            proof {
                lemma_and_le(at, mask);
            }
            out[i] = self.data[idx];
            i = i + 1;
        }
        proof {
            assert(out@ =~= read_window(self.data@, pos as int, n));
        }
    }
}

/// Masking never exceeds the mask.
proof fn lemma_and_le(a: usize, b: usize)
    by (bit_vector)
    ensures
        a & b <= b,
{
}

/// A `usize` that differs from `a + b` by a multiple of the `usize` range is
/// the wrapped sum.
proof fn lemma_wrap_value(a: int, b: int, r: int)
    requires
        0 <= r <= usize::MAX,
        r == a + b || r == a + b - (usize::MAX as int + 1) || r == a + b + (usize::MAX as int + 1),
    ensures
        r == wrapped(a + b),
{
    let m = usize::MAX as int + 1;
    lemma_small_mod(r as nat, m as nat);
    if r == a + b - m {
        lemma_mod_add_multiples_vanish(r, m);
    } else if r == a + b + m {
        lemma_mod_sub_multiples_vanish(r, m);
    }
}

/// Wrapping part of a sum early does not change the wrapped result.
proof fn lemma_wrapped_add(x: int, b: int)
    ensures
        wrapped(wrapped(x) + b) == wrapped(x + b),
{
    lemma_add_mod_noop_right(b, x, usize::MAX as int + 1);
}

/// The ring never changes length under writes.
proof fn lemma_written_len<T>(data: Seq<T>, start: int, samples: Seq<T>)
    requires
        0 < data.len() <= usize::MAX,
    ensures
        written(data, start, samples).len() == data.len(),
    decreases samples.len(),
{
    if samples.len() > 0 {
        lemma_written_len(data, start, samples.drop_last());
        let x = wrapped(start + samples.len() - 1);
        vstd::arithmetic::div_mod::lemma_mod_bound(start + samples.len() - 1, usize::MAX as int + 1);
        lemma_and_le(x as usize, (data.len() - 1) as usize);
    }
}

/// For a power-of-two ring, the slot of any position `x` is `x % len`, and
/// twice the length still fits in `usize` arithmetic.
proof fn lemma_pow2_slot(x: int, len: nat)
    requires
        is_pow2_len(len),
    ensures
        0 < len <= usize::MAX,
        slot(x, len) == x % (len as int),
        2 * len <= usize::MAX + 1,
{
    let m = usize::MAX as int + 1;
    let k = choose|k: nat| k < usize::BITS && len == pow2(k);
    lemma_pow2_pos(k);
    lemma_usize_pow2_no_overflow(k);
    lemma2_to64();
    assert(pow2(usize::BITS as nat) == m) by {
        assert(usize::BITS == 32 || usize::BITS == 64);
    }
    lemma_pow2_adds(k, (usize::BITS - k) as nat);
    lemma_pow2_pos((usize::BITS - k) as nat);
    let c = pow2((usize::BITS - k) as nat) as int;
    assert(m == (len as int) * c);
    lemma_mod_mod(x, len as int, c);
    vstd::arithmetic::div_mod::lemma_mod_bound(x, m);
    let w = wrapped(x) as usize;
    lemma_usize_low_bits_mask_is_mod(w, k);
    assert(low_bits_mask(k) == pow2(k) - 1);
    lemma_pow2_unfold(k + 1);
    if k + 1 < usize::BITS {
        lemma_usize_pow2_no_overflow(k + 1);
    }
}

/// Two positions less than `len` apart (and not equal) fall in different
/// slots modulo `len`.
proof fn lemma_mod_distinct(a: int, b: int, len: int)
    requires
        len > 0,
        0 <= a < b,
        b - a < len,
    ensures
        a % len != b % len,
{
    lemma_mod_equivalence(b, a, len);
    lemma_small_mod((b - a) as nat, len as nat);
}

/// In a power-of-two ring, each of the last `len` samples of a batch, sample
/// `j`, is left in the slot `(start + j) % len`.
proof fn lemma_written_at<T>(data: Seq<T>, start: int, samples: Seq<T>, j: int)
    requires
        is_pow2_len(data.len()),
        start >= 0,
        0 <= j < samples.len(),
        samples.len() - data.len() <= j,
    ensures
        written(data, start, samples)[(start + j) % (data.len() as int)] == samples[j],
    decreases samples.len(),
{
    let len = data.len();
    let n = samples.len();
    let k = n - 1;
    lemma_pow2_slot(start + k, len);
    lemma_written_len(data, start, samples.drop_last());
    if j < k {
        lemma_written_at(data, start, samples.drop_last(), j);
        lemma_mod_distinct(start + j, start + k, len as int);
    }
}

/// Read after write: in a power-of-two ring, once a batch of samples has
/// been written, a read of `m` samples (no more than the batch and no more
/// than the ring) returns exactly the last `m` samples of the batch, in
/// order.
pub proof fn lemma_read_returns_latest_written<T>(
    data: Seq<T>,
    pos: usize,
    samples: Seq<T>,
    m: nat,
)
    requires
        is_pow2_len(data.len()),
        pos < data.len(),
        m <= data.len(),
        m <= samples.len(),
    ensures
        read_window(
            written(data, pos as int, samples),
            slot(pos + samples.len(), data.len()),
            m,
        ) == samples.subrange(samples.len() - m, samples.len() as int),
{
    let len = data.len();
    let n = samples.len();
    lemma_pow2_slot(0, len);
    let after = written(data, pos as int, samples);
    lemma_written_len(data, pos as int, samples);
    let np = slot(pos + n, len);
    lemma_pow2_slot(pos + n, len);
    assert forall|i: int| 0 <= i < m implies #[trigger] read_window(after, np, m)[i] == samples[n
        - m + i] by {
        let x = np + len - m + i;
        lemma_pow2_slot(x, len);
        let j = n - m + i;
        lemma_written_at(data, pos as int, samples, j);
        let l = len as int;
        let c = l - m + i;
        // np == (pos + n) % l, so x % l == (pos + n + c) % l == (pos + j + l) % l
        lemma_add_mod_noop_right(np, c, l);
        lemma_add_mod_noop_right(c, pos + n, l);
        lemma_mod_add_multiples_vanish(pos + j, l);
        assert(pos + n + c == l + (pos + j));
        assert(x % l == (pos + j) % l);
    }
    assert(read_window(after, np, m) =~= samples.subrange(n - m, n as int));
}

/// Consecutive writes compose: in a power-of-two ring, writing `first` and
/// then `second` from where the cursor stopped leaves the same contents and
/// the same cursor as writing `first + second` in one go.
pub proof fn lemma_consecutive_writes_join<T>(
    data: Seq<T>,
    pos: usize,
    first: Seq<T>,
    second: Seq<T>,
)
    requires
        is_pow2_len(data.len()),
    ensures
        written(written(data, pos as int, first), slot(pos + first.len(), data.len()), second)
            == written(data, pos as int, first + second),
        slot(slot(pos + first.len(), data.len()) + second.len(), data.len()) == slot(
            pos + first.len() + second.len(),
            data.len(),
        ),
    decreases second.len(),
{
    let len = data.len();
    let l = len as int;
    let p1 = slot(pos + first.len(), len);
    lemma_pow2_slot(pos + first.len(), len);
    lemma_pow2_slot(p1 + second.len(), len);
    lemma_pow2_slot(pos + first.len() + second.len(), len);
    lemma_add_mod_noop_right(second.len() as int, pos + first.len(), l);
    if second.len() == 0 {
        assert(first + second =~= first);
    } else {
        let k = second.len() - 1;
        lemma_consecutive_writes_join(data, pos, first, second.drop_last());
        assert((first + second).drop_last() =~= first + second.drop_last());
        lemma_pow2_slot(p1 + k, len);
        lemma_pow2_slot(pos + first.len() + k, len);
        lemma_add_mod_noop_right(k, pos + first.len(), l);
        let d1 = written(data, pos as int, first);
        let both = first + second;
        assert(slot(p1 + k, len) == slot(pos + first.len() + k, len));
        assert(both.len() - 1 == first.len() + k);
        assert(both.last() == second.last());
        assert(written(d1, p1, second) == written(d1, p1, second.drop_last()).update(
            slot(p1 + k, d1.len()),
            second.last(),
        ));
        lemma_written_len(data, pos as int, first);
        assert(written(data, pos as int, both) == written(data, pos as int, both.drop_last()).update(
            slot(pos + (both.len() - 1), len),
            both.last(),
        ));
    }
}

/// Read after consecutive writes: in a power-of-two ring, after writing
/// `first` and then `second`, a read of `m` samples (no more than were
/// written and no more than the ring) returns the last `m` samples of
/// `first + second`, in order, however the samples were split in batches.
pub proof fn lemma_read_after_consecutive_writes<T>(
    data: Seq<T>,
    pos: usize,
    first: Seq<T>,
    second: Seq<T>,
    m: nat,
)
    requires
        is_pow2_len(data.len()),
        pos < data.len(),
        m <= data.len(),
        m <= first.len() + second.len(),
    ensures
        ({
            let p1 = slot(pos + first.len(), data.len());
            read_window(
                written(written(data, pos as int, first), p1, second),
                slot(p1 + second.len(), data.len()),
                m,
            )
        }) == (first + second).subrange(
            first.len() + second.len() - m,
            first.len() + second.len() as int,
        ),
{
    lemma_consecutive_writes_join(data, pos, first, second);
    lemma_read_returns_latest_written(data, pos, first + second, m);
}

} // verus!
