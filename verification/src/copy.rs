//! Copies that are provably equal to the value they copy.

use vstd::prelude::*;

verus! {

/// A type whose values can be copied into an equal value.
pub trait DeepCopy: Sized {
    fn deep_copy(&self) -> (r: Self)
        ensures
            r == *self,
    ;
}

impl DeepCopy for String {
    fn deep_copy(&self) -> (r: Self) {
        self.clone()
    }
}

impl DeepCopy for bool {
    fn deep_copy(&self) -> (r: Self) {
        *self
    }
}

impl DeepCopy for u8 {
    fn deep_copy(&self) -> (r: Self) {
        *self
    }
}

impl DeepCopy for u16 {
    fn deep_copy(&self) -> (r: Self) {
        *self
    }
}

impl DeepCopy for u32 {
    fn deep_copy(&self) -> (r: Self) {
        *self
    }
}

impl DeepCopy for u64 {
    fn deep_copy(&self) -> (r: Self) {
        *self
    }
}

impl DeepCopy for i64 {
    fn deep_copy(&self) -> (r: Self) {
        *self
    }
}

impl DeepCopy for u128 {
    fn deep_copy(&self) -> (r: Self) {
        *self
    }
}

impl<T: DeepCopy> DeepCopy for Option<T> {
    fn deep_copy(&self) -> (r: Self) {
        match self {
            Some(x) => Some(x.deep_copy()),
            None => None,
        }
    }
}

impl<A: DeepCopy, B: DeepCopy> DeepCopy for (A, B) {
    fn deep_copy(&self) -> (r: Self) {
        (self.0.deep_copy(), self.1.deep_copy())
    }
}

/// A copy of a vector whose elements are copied one by one.
pub fn copy_vec<T: DeepCopy>(v: &Vec<T>) -> (r: Vec<T>)
    ensures
        r@ == v@,
{
    let mut out: Vec<T> = Vec::new();
    let mut i: usize = 0;
    while i < v.len()
        invariant
            i <= v.len(),
            out@ == v@.subrange(0, i as int),
        decreases v.len() - i,
    {
        out.push(v[i].deep_copy());
        i = i + 1;
        assert(out@ =~= v@.subrange(0, i as int));
    }
    assert(out@ =~= v@);
    out
}

} // verus!
