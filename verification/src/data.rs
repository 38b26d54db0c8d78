//! Owned byte buffers with a hidden prefix region.

use vstd::prelude::*;

verus! {

/// An owned byte buffer whose first `prefix_len()` bytes are hidden.
///
/// The visible view (`self@`) is everything after the hidden prefix. The
/// prefix is slack reserved at allocation time so that a backend can later
/// make it visible with [`Data::grow_region`] and write a fixed-size header
/// directly in front of the payload, without moving the payload bytes.
pub struct Data {
    bytes: Vec<u8>,
    region_start: usize,
}

impl View for Data {
    type V = Seq<u8>;

    open spec fn view(&self) -> Seq<u8> {
        self.full().subrange(self.prefix_len() as int, self.full().len() as int)
    }
}

impl Data {
    /// The whole underlying buffer, hidden prefix included.
    pub closed spec fn full(&self) -> Seq<u8> {
        self.bytes@
    }

    /// How many hidden bytes precede the visible region.
    pub closed spec fn prefix_len(&self) -> nat {
        self.region_start as nat
    }

    /// The hidden prefix never extends past the end of the buffer.
    pub open spec fn wf(&self) -> bool {
        self.prefix_len() <= self.full().len()
    }

    /// Wraps an existing buffer; the whole buffer is visible.
    pub fn from_vec(bytes: Vec<u8>) -> (r: Data)
        ensures
            r.wf(),
            r.prefix_len() == 0,
            r.full() == bytes@,
            r@ == bytes@,
    {
        let r = Data { bytes, region_start: 0 };
        proof {
            assert(r@ =~= r.full());
        }
        r
    }

    /// Wraps an existing buffer, hiding its first `prefix` bytes.
    pub fn from_vec_with_prefix(bytes: Vec<u8>, prefix: usize) -> (r: Data)
        requires
            prefix <= bytes@.len(),
        ensures
            r.wf(),
            r.prefix_len() == prefix,
            r.full() == bytes@,
            r@ == bytes@.subrange(prefix as int, bytes@.len() as int),
    {
        Data { bytes, region_start: prefix }
    }

    /// Allocates a zeroed buffer: `prefix` hidden bytes followed by a
    /// visible region of exactly `size` bytes.
    pub fn zeroed(prefix: usize, size: usize) -> (r: Data)
        requires
            prefix + size <= usize::MAX,
        ensures
            r.wf(),
            r.prefix_len() == prefix,
            r@.len() == size,
            r.full().len() == prefix + size,
            forall|i: int| 0 <= i < r.full().len() ==> r.full()[i] == 0u8,
    {
        let total = prefix + size;
        let mut bytes: Vec<u8> = Vec::new();
        while bytes.len() < total
            invariant
                bytes@.len() <= total,
                forall|i: int| 0 <= i < bytes@.len() ==> bytes@[i] == 0u8,
            decreases total - bytes@.len(),
        {
            bytes.push(0u8);
        }
        Data { bytes, region_start: prefix }
    }

    /// Length of the visible region.
    pub fn len(&self) -> (r: usize)
        requires
            self.wf(),
        ensures
            r == self@.len(),
    {
        self.bytes.len() - self.region_start
    }

    /// Reads the visible byte at `i`.
    pub fn read(&self, i: usize) -> (r: u8)
        requires
            self.wf(),
            i < self@.len(),
        ensures
            r == self@[i as int],
    {
        let bound = self.bytes.len();
        proof {
            assert(self.region_start + i < bound);
        }
        self.bytes[self.region_start + i]
    }

    /// Writes the visible byte at `i`; the hidden prefix is untouched.
    pub fn write(&mut self, i: usize, b: u8)
        requires
            old(self).wf(),
            i < old(self)@.len(),
        ensures
            final(self).wf(),
            final(self).prefix_len() == old(self).prefix_len(),
            final(self).full() == old(self).full().update(old(self).prefix_len() + i, b),
            final(self)@ == old(self)@.update(i as int, b),
    {
        let bound = self.bytes.len();
        proof {
            assert(self.region_start + i < bound);
        }
        let idx = self.region_start + i;
        self.bytes[idx] = b;
        proof {
            assert(self@ =~= old(self)@.update(i as int, b));
        }
    }

    /// Overwrites the whole visible region with `src`, byte for byte.
    pub fn fill_from_slice(&mut self, src: &[u8])
        requires
            old(self).wf(),
            src@.len() == old(self)@.len(),
        ensures
            final(self).wf(),
            final(self).prefix_len() == old(self).prefix_len(),
            final(self).full().len() == old(self).full().len(),
            final(self)@ == src@,
    {
        let n = self.len();
        let mut j: usize = 0;
        while j < n
            invariant
                j <= n,
                n == src@.len(),
                self.wf(),
                self.prefix_len() == old(self).prefix_len(),
                self.full().len() == old(self).full().len(),
                self@.len() == old(self)@.len(),
                n == self@.len(),
                forall|i: int| 0 <= i < j ==> self@[i] == src@[i],
            decreases n - j,
        {
            let b = src[j];
            self.write(j, b);
            j += 1;
        }
        proof {
            assert(self@ =~= src@);
        }
    }

    /// Makes `delta` bytes of the hidden prefix visible, immediately in
    /// front of the current visible region. No byte moves: the old visible
    /// region reappears unchanged after the newly exposed bytes.
    pub fn grow_region(&mut self, delta: usize)
        requires
            old(self).wf(),
            delta <= old(self).prefix_len(),
        ensures
            final(self).wf(),
            final(self).prefix_len() == old(self).prefix_len() - delta,
            final(self).full() == old(self).full(),
            final(self)@.len() == old(self)@.len() + delta,
            final(self)@.subrange(delta as int, final(self)@.len() as int) == old(self)@,
    {
        self.region_start = self.region_start - delta;
        proof {
            assert(self@.subrange(delta as int, self@.len() as int) =~= old(self)@);
        }
    }

    /// Surrenders the raw buffer, hidden prefix included.
    pub fn into_vec(self) -> (r: Vec<u8>)
        ensures
            r@ == self.full(),
    {
        self.bytes
    }

    /// Copies the visible region into a fresh vector.
    pub fn region_to_vec(&self) -> (r: Vec<u8>)
        requires
            self.wf(),
        ensures
            r@ == self@,
    {
        let n = self.len();
        let mut r: Vec<u8> = Vec::new();
        let mut j: usize = 0;
        while j < n
            invariant
                j <= n,
                self.wf(),
                n == self@.len(),
                r@ == self@.subrange(0, j as int),
            decreases n - j,
        {
            r.push(self.read(j));
            proof {
                assert(r@ =~= self@.subrange(0, j as int + 1));
            }
            j += 1;
        }
        proof {
            assert(r@ =~= self@);
        }
        r
    }
}

} // verus!
