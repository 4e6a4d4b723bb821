use vstd::prelude::*;

verus! {

/// Bytes that were read off a stream ahead of time and must be served
/// before anything freshly read.  The stream itself stays with the I/O
/// code; each fresh read is handed in and combined here.
pub struct Preread {
    pub preread: Vec<u8>,
}

impl Preread {
    /// Holds the given bytes for the next read.
    pub fn new(preread: Vec<u8>) -> (p: Self)
        ensures
            p.preread@ == preread@,
    {
        Preread { preread }
    }

    /// Combines the held bytes with freshly read ones: the held bytes come
    /// first, and are given up.
    pub fn read(&mut self, fresh: &[u8]) -> (r: Vec<u8>)
        ensures
            final(self).preread@ == Seq::<u8>::empty(),
            r@ == old(self).preread@ + fresh@,
    {
        let mut r: Vec<u8> = Vec::new();
        core::mem::swap(&mut r, &mut self.preread);
        let mut i: usize = 0;
        while i < fresh.len()
            invariant
                i <= fresh@.len(),
                r@ =~= old(self).preread@ + fresh@.subrange(0, i as int),
                self.preread@ == Seq::<u8>::empty(),
            decreases fresh@.len() - i,
        {
            r.push(fresh[i]);
            i = i + 1;
        }
        proof {
            assert(r@ =~= old(self).preread@ + fresh@);
        }
        r
    }
}

} // verus!
