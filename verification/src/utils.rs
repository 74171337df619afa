//! Helpers shared by the components.

use vstd::prelude::*;

verus! {

/// The first error among the results, or `Ok` when there is none.
pub fn first_error_or_ok<T, E>(results: Vec<Result<T, E>>) -> (r: Result<(), E>)
    ensures
        r is Ok <==> forall|i: int| 0 <= i < results@.len() ==> (#[trigger] results@[i]) is Ok,
        r is Err ==> exists|i: int|
            0 <= i < results@.len() && results@[i] == Err::<T, E>(r->Err_0) && forall|j: int|
                0 <= j < i ==> (#[trigger] results@[j]) is Ok,
{
    let mut rest = results;
    let ghost all = rest@;
    let ghost mut i: int = 0;
    assert(all.skip(0) =~= all);
    while rest.len() > 0
        invariant
            0 <= i <= all.len(),
            all == results@,
            rest@ == all.skip(i),
            forall|j: int| 0 <= j < i ==> (#[trigger] all[j]) is Ok,
        decreases rest.len(),
    {
        let first = rest.remove(0);
        proof {
            assert(first == all[i]);
            assert(rest@ =~= all.skip(i + 1));
        }
        match first {
            Ok(_) => {},
            Err(e) => {
                assert(results@[i] == Err::<T, E>(e));
                return Err(e);
            },
        }
        proof {
            i = i + 1;
        }
    }
    Ok(())
}

} // verus!
