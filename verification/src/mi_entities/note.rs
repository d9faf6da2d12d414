//! Poll shapes of a note. The note record itself carries timestamps
//! and arbitrary JSON of foreign types and is kept with the
//! unverified plumbing.

use vstd::prelude::*;

verus! {

#[derive(Clone, Default, Debug, PartialEq, Eq, Hash)]
pub struct PollChoice {
    pub is_voted: bool,
    pub text: String,
    pub votes: i64,
}

#[derive(Clone, Copy, Debug, Eq, PartialEq, Ord, PartialOrd, Hash)]
pub enum ReactionAcceptance {
    LikeOnly,
    LikeOnlyForRemote,
    NonSensitiveOnly,
    NonSensitiveOnlyForLocalLikeOnlyForRemote,
}

} // verus!
