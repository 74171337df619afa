//! References from one object to another.

use vstd::prelude::*;
use crate::copy::DeepCopy;

verus! {

/// A reference to an object by kind and name.
#[derive(Clone, Debug, PartialEq, Eq)]
pub struct ObjectReference {
    /// Kind of the referent.
    pub kind: String,
    /// Name of the referent.
    pub name: String,
}

impl ObjectReference {
    pub fn new(kind: String, name: String) -> (r: ObjectReference)
        ensures
            r.kind == kind,
            r.name == name,
    {
        ObjectReference { kind, name }
    }
}

impl DeepCopy for ObjectReference {
    fn deep_copy(&self) -> (r: Self) {
        ObjectReference { kind: self.kind.clone(), name: self.name.clone() }
    }
}

/// Whether two references name the same kind and name.
pub open spec fn same_ref(a: ObjectReference, b: ObjectReference) -> bool {
    a.kind@ == b.kind@ && a.name@ == b.name@
}

/// Whether `refs` holds a reference equal to `r` (`[T]::contains`).
pub open spec fn refs_contain(refs: Seq<ObjectReference>, r: ObjectReference) -> bool {
    exists|i: int| 0 <= i < refs.len() && same_ref(refs[i], r)
}

/// Executable form of [`refs_contain`].
pub fn contains_ref(refs: &Vec<ObjectReference>, r: &ObjectReference) -> (b: bool)
    ensures
        b == refs_contain(refs@, *r),
{
    let mut i: usize = 0;
    while i < refs.len()
        invariant
            i <= refs.len(),
            forall|j: int| 0 <= j < i ==> !same_ref(refs@[j], *r),
        decreases refs.len() - i,
    {
        if refs[i].kind == r.kind && refs[i].name == r.name {
            return true;
        }
        i = i + 1;
    }
    false
}

} // verus!
