//! Unlocked achievements of an account.

use vstd::prelude::*;

verus! {

#[derive(Clone, Default, Debug, PartialEq, Eq, Hash)]
pub struct Achievements {
    pub name: String,
    /// Unix time of the unlock, in milliseconds.
    pub unlocked_at: i64,
}

} // verus!
