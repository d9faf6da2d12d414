//! Presentation kinds of an instance announcement. The announcement
//! record itself carries timestamps of a foreign type and is kept
//! with the unverified plumbing.

use vstd::prelude::*;

verus! {

#[derive(Clone, Copy, Debug, Eq, PartialEq, Ord, PartialOrd, Hash)]
pub enum Icon {
    Info,
    Warning,
    Error,
    Success,
}

#[derive(Clone, Copy, Debug, Eq, PartialEq, Ord, PartialOrd, Hash)]
pub enum Display {
    Dialog,
    Normal,
    Banner,
}

} // verus!
