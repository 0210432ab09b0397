use vstd::prelude::*;

verus! {

/// The state of a hasher after it was fed the 32-bit key `i`: the key in
/// both halves of the word.
pub open spec fn spread_u32(i: u32) -> u64 {
    ((i as u64) * 0x1_0000_0000 + (i as u64)) as u64
}

/// A hasher for keys that are well spread already: the hash of a key is
/// the key itself. It takes one write, of a `u32` or a `u64`.
#[derive(Debug, Clone, Default)]
pub struct NoOpHasher(u64);

impl NoOpHasher {
    /// The hash that `finish` returns.
    pub closed spec fn state(&self) -> u64 {
        self.0
    }

    pub fn new() -> (hasher: Self)
        ensures
            hasher.state() == 0,
    {
        NoOpHasher(0)
    }

    pub fn write_u32(&mut self, i: u32)
        ensures
            final(self).state() == spread_u32(i),
    {
        let i = i as u64;
        assert(i * 0x1_0000_0000 + i <= u64::MAX) by (nonlinear_arith)
            requires
                i <= 0xffff_ffff,
        ;
        assert(i << 32 == i * 0x1_0000_0000) by (bit_vector)
            requires
                i <= 0xffff_ffff,
        ;
        self.0 = (i << 32) + i;
    }

    pub fn write_u64(&mut self, i: u64)
        ensures
            final(self).state() == i,
    {
        self.0 = i;
    }

    pub fn finish(&self) -> (hash: u64)
        ensures
            hash == self.state(),
    {
        self.0
    }
}

} // verus!
