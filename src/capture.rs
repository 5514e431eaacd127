//! Fixed-capacity capture ring with a drop-oldest overflow policy, and the
//! decoding of a drained byte batch into a frame of signed samples.
use vstd::prelude::*;
use crate::filter::FRAME_LEN;

verus! {

/// Bytes per captured stereo frame: two channels of 16-bit samples.
pub const BYTES_PER_FRAME: usize = 4;

/// Bytes per sample.
pub const BYTES_PER_SAMPLE: usize = 2;

/// Index `i` of a ring of `cap` slots, for `i < 2 * cap`.
pub open spec fn wrap(i: int, cap: int) -> int {
    if i < cap {
        i
    } else {
        i - cap
    }
}

/// A circular byte buffer between a capture source (the producer) and a
/// consumer that drains it in batches. When a push would hold more than the
/// capacity, the oldest unread bytes are discarded.
pub struct CaptureRing {
    buf: Vec<u8>,
    read: usize,
    len: usize,
    history: Ghost<Seq<u8>>,
    consumed: Ghost<nat>,
}

impl CaptureRing {
    /// Every byte ever pushed, in order.
    pub closed spec fn history(&self) -> Seq<u8> {
        self.history@
    }

    /// How many bytes of the history have been read or discarded.
    pub closed spec fn consumed(&self) -> nat {
        self.consumed@
    }

    /// Fixed number of bytes the ring can hold.
    pub closed spec fn capacity(&self) -> nat {
        self.buf@.len()
    }

    /// The unread bytes, oldest first.
    pub open spec fn unread(&self) -> Seq<u8> {
        self.history().subrange(self.consumed() as int, self.history().len() as int)
    }

    pub closed spec fn wf(&self) -> bool {
        &&& self.buf@.len() > 0
        &&& self.read < self.buf@.len()
        &&& self.len <= self.buf@.len()
        &&& self.consumed@ + self.len == self.history@.len()
        &&& forall|k: int|
            0 <= k < self.len ==> #[trigger] self.buf@[wrap(self.read + k, self.buf@.len() as int)]
                == self.history@[self.consumed@ + k]
    }

    /// In a well-formed ring, the read position never passes the bytes
    /// pushed, and the unread bytes fit in the capacity.
    pub proof fn lemma_bounds(&self)
        requires
            self.wf(),
        ensures
            self.consumed() <= self.history().len(),
            self.unread().len() <= self.capacity(),
            self.capacity() > 0,
    {
    }

    /// An empty ring of `capacity` bytes.
    pub fn new(capacity: usize) -> (r: CaptureRing)
        requires
            capacity > 0,
        ensures
            r.wf(),
            r.capacity() == capacity,
            r.history() == Seq::<u8>::empty(),
            r.consumed() == 0,
    {
        let mut buf: Vec<u8> = Vec::with_capacity(capacity);
        let mut i: usize = 0;
        while i < capacity
            invariant
                i <= capacity,
                buf@.len() == i,
            decreases capacity - i,
        {
            buf.push(0);
            i = i + 1;
        }
        CaptureRing { buf, read: 0, len: 0, history: Ghost(Seq::empty()), consumed: Ghost(0) }
    }

    /// Number of unread bytes.
    pub fn available(&self) -> (r: usize)
        requires
            self.wf(),
        ensures
            r == self.unread().len(),
            r <= self.capacity(),
    {
        self.len
    }

    /// Appends one byte; when the ring is full the oldest unread byte is
    /// discarded first.
    fn push_byte(&mut self, b: u8)
        requires
            old(self).wf(),
        ensures
            final(self).wf(),
            final(self).capacity() == old(self).capacity(),
            final(self).history() == old(self).history().push(b),
            final(self).consumed() == if old(self).len == old(self).capacity() {
                old(self).consumed() + 1int
            } else {
                old(self).consumed() as int
            },
    {
        let cap = self.buf.len();
        if self.len == cap {
            self.read = if self.read + 1 < cap {
                self.read + 1
            } else {
                0
            };
            self.len = self.len - 1;
            self.consumed = Ghost((self.consumed@ + 1) as nat);
            assert forall|k: int| 0 <= k < self.len implies #[trigger] self.buf@[wrap(
                self.read + k,
                cap as int,
            )] == self.history@[self.consumed@ + k] by {
                assert(self.buf@[wrap(old(self).read + (k + 1), cap as int)]
                    == self.history@[old(self).consumed@ + (k + 1)]);
            }
        }
        let w: usize = if self.len < cap - self.read {
            self.read + self.len
        } else {
            self.len - (cap - self.read)
        };
        let ghost pre = *self;
        self.buf.set(w, b);
        self.len = self.len + 1;
        self.history = Ghost(self.history@.push(b));
        assert forall|k: int| 0 <= k < self.len implies #[trigger] self.buf@[wrap(
            self.read + k,
            cap as int,
        )] == self.history@[self.consumed@ + k] by {
            if k < pre.len {
                assert(pre.buf@[wrap(pre.read + k, cap as int)] == pre.history@[pre.consumed@ + k]);
            }
        }
    }

    /// Producer side: appends `data`. Bytes beyond the free space evict the
    /// oldest unread bytes, one for each byte too many.
    pub fn push(&mut self, data: &[u8])
        requires
            old(self).wf(),
        ensures
            final(self).wf(),
            final(self).capacity() == old(self).capacity(),
            final(self).history() == old(self).history() + data@,
            final(self).consumed() == if old(self).unread().len() + data@.len()
                <= old(self).capacity() {
                old(self).consumed() as int
            } else {
                old(self).consumed() + (old(self).unread().len() + data@.len()
                    - old(self).capacity())
            },
    {
        let ghost h0 = self.history@;
        let ghost c0 = self.consumed@;
        let ghost l0 = self.len as int;
        let ghost cap = self.buf@.len() as int;
        let mut i: usize = 0;
        while i < data.len()
            invariant
                self.wf(),
                self.buf@.len() == cap,
                i <= data@.len(),
                self.history@ == h0 + data@.subrange(0, i as int),
                self.consumed@ == if l0 + i <= cap {
                    c0 as int
                } else {
                    c0 + (l0 + i - cap)
                },
                self.len == if l0 + i <= cap {
                    l0 + i
                } else {
                    cap
                },
            decreases data@.len() - i,
        {
            self.push_byte(data[i]);
            assert(data@.subrange(0, i + 1) == data@.subrange(0, i as int).push(data@[i as int]));
            i = i + 1;
        }
        assert(data@.subrange(0, data@.len() as int) == data@);
    }

    /// Consumer side: removes and returns the oldest `min(max_len,
    /// available)` unread bytes, in the order they were pushed.
    pub fn pop(&mut self, max_len: usize) -> (r: Vec<u8>)
        requires
            old(self).wf(),
        ensures
            final(self).wf(),
            final(self).capacity() == old(self).capacity(),
            final(self).history() == old(self).history(),
            r@.len() == if max_len < old(self).unread().len() {
                max_len as int
            } else {
                old(self).unread().len() as int
            },
            final(self).consumed() == old(self).consumed() + r@.len(),
            r@ == old(self).history().subrange(
                old(self).consumed() as int,
                (old(self).consumed() + r@.len()) as int,
            ),
    {
        let cap = self.buf.len();
        let n: usize = if max_len < self.len {
            max_len
        } else {
            self.len
        };
        let mut out: Vec<u8> = Vec::with_capacity(n);
        let mut k: usize = 0;
        let mut idx: usize = self.read;
        while k < n
            invariant
                self.wf(),
                self.buf@.len() == cap,
                n <= self.len,
                k <= n,
                idx < cap,
                idx == wrap(self.read + k, cap as int),
                out@ == self.history@.subrange(self.consumed@ as int, self.consumed@ + k),
            decreases n - k,
        {
            assert(self.buf@[wrap(self.read + k, cap as int)] == self.history@[self.consumed@ + k]);
            out.push(self.buf[idx]);
            assert(out@ =~= self.history@.subrange(self.consumed@ as int, self.consumed@ + k + 1));
            idx = if idx + 1 < cap {
                idx + 1
            } else {
                0
            };
            k = k + 1;
        }
        let ghost pre = *self;
        self.read = idx;
        self.len = self.len - n;
        self.consumed = Ghost((self.consumed@ + n) as nat);
        assert forall|j: int| 0 <= j < self.len implies #[trigger] self.buf@[wrap(
            self.read + j,
            cap as int,
        )] == self.history@[self.consumed@ + j] by {
            assert(pre.buf@[wrap(pre.read + (n + j), cap as int)] == pre.history@[pre.consumed@ + (n
                + j)]);
        }
        out
    }
}

/// A push that does not overflow appends its bytes behind the unread ones:
/// nothing unread is lost and nothing is reordered.
pub proof fn lemma_push_appends(before: CaptureRing, after: CaptureRing, data: Seq<u8>)
    requires
        before.wf(),
        after.history() == before.history() + data,
        after.consumed() == before.consumed(),
    ensures
        after.unread() == before.unread() + data,
{
    before.lemma_bounds();
    assert(after.unread() =~= before.unread() + data);
}

/// A pop hands out the oldest unread bytes in push order, and the bytes it
/// leaves unread are exactly the rest: no byte is read twice, skipped, or
/// read before it was pushed.
pub proof fn lemma_pop_splits(before: CaptureRing, after: CaptureRing, popped: Seq<u8>)
    requires
        before.wf(),
        after.history() == before.history(),
        after.consumed() == before.consumed() + popped.len(),
        popped == before.history().subrange(
            before.consumed() as int,
            (before.consumed() + popped.len()) as int,
        ),
        popped.len() <= before.unread().len(),
    ensures
        popped == before.unread().take(popped.len() as int),
        after.unread() == before.unread().skip(popped.len() as int),
        popped + after.unread() == before.unread(),
{
    before.lemma_bounds();
    assert(popped =~= before.unread().take(popped.len() as int));
    assert(after.unread() =~= before.unread().skip(popped.len() as int));
    assert(popped + after.unread() =~= before.unread());
}

/// The signed 16-bit value whose little-endian bytes are `lo`, `hi`.
pub open spec fn le16(lo: u8, hi: u8) -> int {
    let v = lo as int + 256 * (hi as int);
    if v < 32768 {
        v
    } else {
        v - 65536
    }
}

/// Reads a signed 16-bit sample from its two little-endian bytes.
pub fn sample_from_le(lo: u8, hi: u8) -> (r: i16)
    ensures
        r as int == le16(lo, hi),
{
    let v: i32 = lo as i32 + (hi as i32) * 256;
    if v < 32768 {
        v as i16
    } else {
        (v - 65536) as i16
    }
}

/// Groups `bytes` into chunks of `width` bytes and reads one little-endian
/// sample from the first two bytes of each chunk; a trailing partial chunk
/// is dropped.
pub fn decode_samples(bytes: &[u8], width: usize) -> (r: Vec<i16>)
    requires
        width >= BYTES_PER_SAMPLE,
    ensures
        r@.len() == (bytes@.len() as int) / (width as int),
        forall|k: int|
            0 <= k < r@.len() ==> #[trigger] r@[k] as int == le16(
                bytes@[k * width],
                bytes@[k * width + 1],
            ),
{
    let n: usize = bytes.len() / width;
    let mut out: Vec<i16> = Vec::with_capacity(n);
    let mut k: usize = 0;
    let mut pos: usize = 0;
    while k < n
        invariant
            n == (bytes@.len() as int) / (width as int),
            width >= 2,
            k <= n,
            pos == k * width,
            out@.len() == k,
            forall|j: int|
                0 <= j < k ==> #[trigger] out@[j] as int == le16(
                    bytes@[j * width],
                    bytes@[j * width + 1],
                ),
        decreases n - k,
    {
        assert((k + 1) * width <= n * width) by (nonlinear_arith)
            requires
                k < n,
                width >= 2,
        ;
        assert(n * width <= bytes@.len()) by (nonlinear_arith)
            requires
                n == (bytes@.len() as int) / (width as int),
                width >= 2,
        ;
        assert((k + 1) * width == k * width + width) by (nonlinear_arith);
        let v = sample_from_le(bytes[pos], bytes[pos + 1]);
        out.push(v);
        pos = pos + width;
        k = k + 1;
    }
    out
}

/// Frame read from a batch of stereo capture bytes: the left-channel sample
/// of each of the first `FRAME_LEN` four-byte frames.
pub open spec fn frame_of(batch: Seq<u8>) -> Seq<i16> {
    Seq::new(FRAME_LEN as nat, |k: int| le16(batch[k * 4], batch[k * 4 + 1]) as i16)
}

/// Takes one frame out of a drained batch of stereo capture bytes: the
/// left-channel sample of each of the first `FRAME_LEN` four-byte frames.
/// A batch shorter than `FRAME_LEN` frames gives `None`.
pub fn extract_frame(batch: &[u8]) -> (r: Option<Vec<i16>>)
    ensures
        batch@.len() < FRAME_LEN * BYTES_PER_FRAME <==> r is None,
        r matches Some(f) ==> f@ == frame_of(batch@),
{
    if batch.len() < FRAME_LEN * BYTES_PER_FRAME {
        return None;
    }
    let all = decode_samples(batch, BYTES_PER_FRAME);
    let mut f: Vec<i16> = Vec::with_capacity(FRAME_LEN);
    let mut k: usize = 0;
    while k < FRAME_LEN
        invariant
            all@.len() >= FRAME_LEN,
            k <= FRAME_LEN,
            f@ == all@.subrange(0, k as int),
        decreases FRAME_LEN - k,
    {
        f.push(all[k]);
        k = k + 1;
    }
    assert(f@ =~= frame_of(batch@));
    Some(f)
}

} // verus!
