use vstd::prelude::*;

verus! {

use crate::error::Error;

/// Capacity of the ring.  One slot is always kept free, so the buffer
/// holds at most `CYC_CAPACITY - 1` bytes; equal positions mean empty.
pub const CYC_CAPACITY: usize = 32768;

/// A circular byte buffer with first-in-first-out semantics.  Reading and
/// writing never block: an empty buffer refuses a read and a full buffer
/// refuses a write, and the caller retries when the other side has moved.
/// Any synchronisation wrapper lives with the I/O code outside the crate.
pub struct SyncCycBuffer {
    pub buf: Vec<u8>,
    pub read_pos: usize,
    pub write_pos: usize,
}

impl SyncCycBuffer {
    /// The storage has the fixed capacity and both positions are in range.
    pub open spec fn wf(self) -> bool {
        self.buf@.len() == CYC_CAPACITY && self.read_pos < CYC_CAPACITY && self.write_pos
            < CYC_CAPACITY
    }

    /// The readable bytes, oldest first.
    pub open spec fn contents(self) -> Seq<u8> {
        if self.read_pos <= self.write_pos {
            self.buf@.subrange(self.read_pos as int, self.write_pos as int)
        } else {
            self.buf@.subrange(self.read_pos as int, CYC_CAPACITY as int) + self.buf@.subrange(
                0,
                self.write_pos as int,
            )
        }
    }

    /// The byte `j` places past the read position, wrapping at the
    /// capacity.
    pub open spec fn cyc_at(self, j: int) -> u8 {
        if self.read_pos + j < CYC_CAPACITY {
            self.buf@[self.read_pos + j]
        } else {
            self.buf@[self.read_pos + j - CYC_CAPACITY]
        }
    }

    /// Each readable byte sits `j` places past the read position.
    proof fn lemma_contents_index(self)
        requires
            self.wf(),
        ensures
            forall|j: int|
                0 <= j < self.contents().len() ==> self.contents()[j] == self.cyc_at(j),
    {
    }

    /// An empty ring.
    pub fn new() -> (b: Self)
        ensures
            b.wf(),
            b.contents() == Seq::<u8>::empty(),
    {
        let mut buf: Vec<u8> = Vec::new();
        let mut i: usize = 0;
        while i < CYC_CAPACITY
            invariant
                i <= CYC_CAPACITY,
                buf@.len() == i,
            decreases CYC_CAPACITY - i,
        {
            buf.push(0);
            i = i + 1;
        }
        let b = SyncCycBuffer { buf, read_pos: 0, write_pos: 0 };
        proof {
            assert(b.contents() =~= Seq::<u8>::empty());
        }
        b
    }

    /// How many bytes wait to be read.
    pub fn len(&self) -> (n: usize)
        requires
            self.wf(),
        ensures
            n == self.contents().len(),
    {
        if self.read_pos <= self.write_pos {
            self.write_pos - self.read_pos
        } else {
            CYC_CAPACITY - self.read_pos + self.write_pos
        }
    }

    /// Reads up to `max` bytes, oldest first: the longest prefix of the
    /// contents that fits the request.  An empty buffer refuses the read.
    #[verifier::loop_isolation(false)]
    pub fn read(&mut self, max: usize) -> (r: Result<Vec<u8>, Error>)
        requires
            old(self).wf(),
        ensures
            final(self).wf(),
            old(self).contents().len() == 0 ==> (r matches Err(e) && e == Error::WouldBlock
                && final(self).contents() == old(self).contents()),
            old(self).contents().len() > 0 ==> (r matches Ok(v) && {
                let k = if max < old(self).contents().len() {
                    max as int
                } else {
                    old(self).contents().len() as int
                };
                v@ == old(self).contents().take(k) && final(self).contents() == old(
                    self,
                ).contents().skip(k)
            }),
    {
        let avail = self.len();
        if avail == 0 {
            return Err(Error::WouldBlock);
        }
        let k = if max < avail {
            max
        } else {
            avail
        };
        let ghost c = self.contents();
        proof {
            self.lemma_contents_index();
        }
        let mut out: Vec<u8> = Vec::new();
        let mut j: usize = 0;
        while j < k
            invariant
                j <= k,
                out@ =~= c.subrange(0, j as int),
            decreases k - j,
        {
            let p = self.read_pos + j;
            let idx = if p >= CYC_CAPACITY {
                p - CYC_CAPACITY
            } else {
                p
            };
            out.push(self.buf[idx]);
            j = j + 1;
        }
        let np = self.read_pos + k;
        self.read_pos = if np >= CYC_CAPACITY {
            np - CYC_CAPACITY
        } else {
            np
        };
        proof {
            self.lemma_contents_index();
            assert(out@ =~= c.take(k as int));
            assert(self.contents().len() == c.len() - k);
            assert forall|t: int| 0 <= t < self.contents().len() implies self.contents()[t] == c[k
                + t] by {
                assert(self.contents()[t] == self.cyc_at(t));
                assert(old(self).cyc_at(k + t) == c[k + t]);
            }
            assert(self.contents() =~= c.skip(k as int));
        }
        Ok(out)
    }

    /// Writes as much of `data` as fits: the longest prefix that leaves
    /// the one spare slot free.  A full buffer refuses the write.
    #[verifier::loop_isolation(false)]
    pub fn write(&mut self, data: &[u8]) -> (r: Result<usize, Error>)
        requires
            old(self).wf(),
        ensures
            final(self).wf(),
            old(self).contents().len() == CYC_CAPACITY - 1 ==> (r matches Err(e) && e
                == Error::WouldBlock && final(self).contents() == old(self).contents()),
            old(self).contents().len() < CYC_CAPACITY - 1 ==> (r matches Ok(n) && {
                let free = CYC_CAPACITY - 1 - old(self).contents().len();
                let k = if data@.len() < free {
                    data@.len() as int
                } else {
                    free as int
                };
                n == k && final(self).contents() == old(self).contents() + data@.take(k)
            }),
    {
        let used = self.len();
        let free = CYC_CAPACITY - 1 - used;
        if free == 0 {
            return Err(Error::WouldBlock);
        }
        let k = if data.len() < free {
            data.len()
        } else {
            free
        };
        let ghost c = self.contents();
        let ghost w0 = self.write_pos as int;
        let ghost r0 = self.read_pos as int;
        let mut j: usize = 0;
        while j < k
            invariant
                j <= k,
                self.read_pos == old(self).read_pos,
                self.write_pos == old(self).write_pos,
                self.buf@.len() == CYC_CAPACITY,
                forall|q: int|
                    0 <= q < j ==> self.buf@[if w0 + q < CYC_CAPACITY {
                        w0 + q
                    } else {
                        w0 + q - CYC_CAPACITY
                    }] == data@[q],
                forall|p: int|
                    0 <= p < CYC_CAPACITY && !wrapped_between(w0, p, w0 + j)
                        ==> self.buf@[p] == old(self).buf@[p],
            decreases k - j,
        {
            let p = self.write_pos + j;
            let idx = if p >= CYC_CAPACITY {
                p - CYC_CAPACITY
            } else {
                p
            };
            self.buf[idx] = data[j];
            j = j + 1;
        }
        let np = self.write_pos + k;
        self.write_pos = if np >= CYC_CAPACITY {
            np - CYC_CAPACITY
        } else {
            np
        };
        proof {
            old(self).lemma_contents_index();
            self.lemma_contents_index();
            assert(self.contents().len() == c.len() + k);
            assert forall|t: int| 0 <= t < self.contents().len() implies self.contents()[t] == (c
                + data@.take(k as int))[t] by {
                assert(self.contents()[t] == self.cyc_at(t));
                if t < c.len() {
                    assert(old(self).cyc_at(t) == c[t]);
                    assert(!wrapped_between(w0, if r0 + t < CYC_CAPACITY {
                        r0 + t
                    } else {
                        r0 + t - CYC_CAPACITY
                    }, w0 + k));
                }
            }
            assert(self.contents() =~= c + data@.take(k as int));
        }
        Ok(k)
    }
}

/// Whether ring position `p` lies in the wrapped half-open interval that
/// starts at `start` and runs `upto - start` slots forward.
pub open spec fn wrapped_between(start: int, p: int, upto: int) -> bool {
    (start <= p < upto) || (start <= p + CYC_CAPACITY < upto)
}

} // verus!
