//! Which lock a guard belongs to.

use vstd::prelude::*;

use crate::text::written_text;

verus! {

/// Identity of a lock, which its guards share.
///
/// It exists in proofs only. A lock keeps the identity that it was made with, and
/// nothing else is known of it: that a guard belongs to a lock can be shown only of a
/// guard that came from it.
#[derive(Clone, Copy)]
pub struct LockId(pub Ghost<int>);

impl View for LockId {
    type V = int;

    open spec fn view(&self) -> int {
        self.0@
    }
}

impl std::fmt::Debug for LockId {
    fn fmt(&self, f: &mut std::fmt::Formatter<'_>) -> (shown: Result<(), std::fmt::Error>)
        ensures
            shown is Ok ==> written_text(*final(f)) == written_text(*old(f)) + "LockId"@,
    {
        f.write_str("LockId")
    }
}

} // verus!
