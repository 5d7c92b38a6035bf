//! A vector packaged with a range of it.
use vstd::prelude::*;

verus! {

pub struct OwnedSlice<T> {
    vec: Vec<T>,
    start: usize,
    end: usize,
}

impl<T> OwnedSlice<T> {
    /// The elements the range covers.
    pub closed spec fn view_slice(&self) -> Seq<T> {
        self.vec@.subrange(self.start as int, self.end as int)
    }

    #[verifier::type_invariant]
    closed spec fn range_in_vec(&self) -> bool {
        self.start <= self.end <= self.vec@.len()
    }

    /// Keeps `vec` and the part of it that `range` covers.
    pub fn from_vec(vec: Vec<T>, range: std::ops::Range<usize>) -> (r: Self)
        requires
            range.start <= range.end <= vec@.len(),
        ensures
            r.view_slice() == vec@.subrange(range.start as int, range.end as int),
    {
        OwnedSlice { vec, start: range.start, end: range.end }
    }

    /// The elements the range covers.
    pub fn slice(&self) -> (r: &[T])
        ensures
            r@ == self.view_slice(),
    {
        proof {
            use_type_invariant(self);
        }
        vstd::slice::slice_subrange(self.vec.as_slice(), self.start, self.end)
    }
}

} // verus!
