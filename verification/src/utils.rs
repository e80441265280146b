//! Small type-ascription helpers: each pins down the type of a callback
//! value at its use site so that call sites stay readable.
use vstd::prelude::*;

verus! {

/// Pins the type of a by-reference callback value.
pub fn mkfn<A>(q: A) -> (r: A)
    ensures
        r == q,
{
    q
}

/// Pins the type of a by-value callback value.
pub fn mkmvfn<A>(q: A) -> (r: A)
    ensures
        r == q,
{
    q
}

} // verus!
