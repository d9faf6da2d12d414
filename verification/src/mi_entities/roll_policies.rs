//! Role-policy shapes. The policy record itself carries a
//! floating-point rate factor and is kept with the unverified
//! plumbing.

use vstd::prelude::*;

verus! {

#[derive(Clone, Copy, Debug, PartialEq, Eq, Hash)]
pub enum ChatAvailability {
    Available,
    Readonly,
    Unavailable,
}

} // verus!
