//! Xorshift-64 pseudo-random number generator driving graph generation.
use vstd::prelude::*;

verus! {

/// One xorshift-64 scramble step over the generator state.
pub open spec fn spec_xorshift_step(s: u64) -> u64 {
    let a = s ^ (s >> 12);
    let b = a ^ (a << 25);
    b ^ (b >> 27)
}

/// How many scramble steps the constructor applies to the seed.
pub open spec fn spec_warmup(s: u64, n: nat) -> u64
    decreases n,
{
    if n == 0 {
        s
    } else {
        spec_xorshift_step(spec_warmup(s, (n - 1) as nat))
    }
}

/// Xorshift-64 generator state.
#[derive(Clone)]
pub struct Rand {
    state: u64,
}

impl Rand {
    /// The state this generator currently holds.
    pub closed spec fn view(&self) -> u64 {
        self.state
    }

    /// Build a generator from a seed, scrambling it fifty times so that
    /// nearby seeds give unrelated sequences.
    pub fn new(seed: u64) -> (r: Rand)
        ensures
            r@ == spec_warmup(seed, 50),
    {
        let mut new_seed = seed;
        let mut i: usize = 0;
        while i < 50
            invariant
                i <= 50,
                new_seed == spec_warmup(seed, i as nat),
            decreases 50 - i,
        {
            new_seed = new_seed ^ (new_seed >> 12u64);
            new_seed = new_seed ^ (new_seed << 25u64);
            new_seed = new_seed ^ (new_seed >> 27u64);
            i = i + 1;
        }
        Rand { state: new_seed }
    }

    /// Draw 32 bits: advance the state one step and return its low half.
    pub fn rand(&mut self) -> (r: u32)
        ensures
            final(self)@ == spec_xorshift_step(old(self)@),
            r == final(self)@ & 0xFFFF_FFFF,
    {
        self.state = self.state ^ (self.state >> 12u64);
        self.state = self.state ^ (self.state << 25u64);
        self.state = self.state ^ (self.state >> 27u64);
        let st = self.state;
        let masked = st & 0xFFFF_FFFF;
        assert(masked <= 0xFFFF_FFFFu64) by (bit_vector)
            requires
                masked == st & 0xFFFF_FFFFu64,
        ;
        masked as u32
    }

    /// Draw 64 bits from two 32-bit draws, low half first.
    pub fn rand_u64(&mut self) -> (r: u64)
        ensures
            final(self)@ == spec_xorshift_step(spec_xorshift_step(old(self)@)),
            r == ((spec_xorshift_step(spec_xorshift_step(old(self)@)) & 0xFFFF_FFFF) << 32)
                | (spec_xorshift_step(old(self)@) & 0xFFFF_FFFF),
    {
        let lo = self.rand() as u64;
        let hiw = self.rand() as u64;
        let hi = hiw << 32u64;
        assert(hi == (hiw & 0xFFFF_FFFFu64) << 32u64) by (bit_vector)
            requires
                hiw <= 0xFFFF_FFFFu64,
                hi == hiw << 32u64,
        ;
        hi | lo
    }

    /// Draw a machine-word-sized value: the 64-bit draw narrowed to a word.
    pub fn rand_size(&mut self) -> (r: usize)
        ensures
            final(self)@ == spec_xorshift_step(spec_xorshift_step(old(self)@)),
            r == (((spec_xorshift_step(spec_xorshift_step(old(self)@)) & 0xFFFF_FFFF) << 32) | (
            spec_xorshift_step(old(self)@) & 0xFFFF_FFFF)) as usize,
    {
        self.rand_u64() as usize
    }
}

} // verus!
