//! A fixed-length buffer whose backing storage the harness allocates on an
//! `N`-byte boundary, so SIMD aligned loads can read it.  Here the buffer is
//! modeled by its contents; the embedding that executes compiled code owns
//! the actual page-aligned allocation and copies these contents into it.
use vstd::prelude::*;

verus! {

/// A buffer of `len` values of `T` laid out for `N`-byte-aligned loads.
#[derive(Debug)]
pub struct AlignedSlice<T, const N: usize> {
    data: Vec<T>,
}

impl<T: Copy, const N: usize> AlignedSlice<T, N> {
    /// The contents.
    pub closed spec fn view(&self) -> Seq<T> {
        self.data@
    }

    /// A buffer of `len` copies of `init_value`: the alignment must be at
    /// least the element type's own and a multiple of it, or no allocation
    /// could satisfy both.
    pub fn new(len: usize, init_value: &T) -> (r: Self)
        requires
            N as nat >= vstd::layout::align_of::<T>(),
            vstd::layout::align_of::<T>() > 0,
            (N as nat) % vstd::layout::align_of::<T>() == 0,
        ensures
            r@.len() == len as int,
            forall|i: int| 0 <= i < len ==> r@[i] == *init_value,
    {
        let mut data: Vec<T> = Vec::new();
        let mut k: usize = 0;
        while k < len
            invariant
                k <= len,
                data@.len() == k as int,
                forall|i: int| 0 <= i < k ==> data@[i] == *init_value,
            decreases len - k,
        {
            data.push(*init_value);
            k = k + 1;
        }
        AlignedSlice { data }
    }

    /// Read the contents.
    pub fn as_slice(&self) -> (r: &[T])
        ensures
            r@ == self@,
    {
        self.data.as_slice()
    }

    pub fn len(&self) -> (r: usize)
        ensures
            r == self@.len(),
    {
        self.data.len()
    }

    pub fn get(&self, i: usize) -> (r: T)
        requires
            i < self@.len(),
        ensures
            r == self@[i as int],
    {
        self.data[i]
    }

    /// Write one element.
    pub fn set(&mut self, i: usize, v: T)
        requires
            i < old(self)@.len(),
        ensures
            final(self)@ == old(self)@.update(i as int, v),
    {
        self.data[i] = v;
    }
}

impl<T: Copy, const N: usize> Clone for AlignedSlice<T, N> {
    fn clone(&self) -> (r: Self)
        ensures
            r@ == self@,
    {
        let mut data: Vec<T> = Vec::new();
        let mut k: usize = 0;
        while k < self.data.len()
            invariant
                k <= self.data@.len(),
                data@ == self.data@.subrange(0, k as int),
            decreases self.data@.len() - k,
        {
            data.push(self.data[k]);
            k = k + 1;
        }
        proof {
            assert(data@ =~= self.data@);
        }
        AlignedSlice { data }
    }
}

/// Fill a seven-element buffer of alignment `N` with ascending values and
/// check each one reads back; the checks are discharged statically.
pub fn test_aligned_slice_with_alignment<const N: usize>()
    requires
        N as nat >= vstd::layout::align_of::<i32>(),
        vstd::layout::align_of::<i32>() > 0,
        (N as nat) % vstd::layout::align_of::<i32>() == 0,
{
    let init_value = 0i32;
    let mut aligned_slice = AlignedSlice::<i32, N>::new(7, &init_value);
    let mut ii: usize = 0;
    while ii < 7
        invariant
            aligned_slice@.len() == 7,
            ii <= 7,
            forall|j: int| 0 <= j < ii ==> aligned_slice@[j] == j as i32,
        decreases 7 - ii,
    {
        aligned_slice.set(ii, ii as i32);
        ii = ii + 1;
    }
    let mut jj: usize = 0;
    while jj < 7
        invariant
            aligned_slice@.len() == 7,
            jj <= 7,
            forall|j: int| 0 <= j < 7 ==> aligned_slice@[j] == j as i32,
        decreases 7 - jj,
    {
        let v = aligned_slice.get(jj);
        proof {
            assert(v == jj as i32);
        }
        jj = jj + 1;
    }
}

} // verus!
