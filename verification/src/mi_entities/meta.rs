//! Instance metadata shapes. The full metadata records carry
//! arbitrary JSON and floating-point fields and are kept with the
//! unverified plumbing; the plain shapes live here.

use vstd::prelude::*;

verus! {

#[derive(Clone, Copy, Debug, Eq, PartialEq, Hash)]
pub enum NoteSearchableScope {
    Local,
    Global,
}

#[derive(Clone, Copy, Debug, Eq, PartialEq, Ord, PartialOrd, Hash)]
pub enum Federation {
    All,
    Specified,
    Closed,
}

#[derive(Clone, Debug, Eq, PartialEq, Ord, PartialOrd, Hash)]
pub struct Features {
    pub registration: bool,
    pub email_required_for_signup: bool,
    pub local_timeline: bool,
    pub global_timeline: bool,
    pub hcaptcha: bool,
    pub turnstile: bool,
    pub recaptcha: bool,
    pub object_storage: bool,
    pub service_worker: bool,
    pub miauth: Option<bool>,
}

} // verus!
