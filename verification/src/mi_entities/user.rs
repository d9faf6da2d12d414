//! User-profile shapes. The detailed profile records carry
//! floating-point and map fields of foreign types and are kept with
//! the unverified plumbing; the plain shapes live here.

use vstd::prelude::*;

verus! {

#[derive(Clone, Default, Debug, PartialEq, Eq, Hash)]
pub struct Instance {
    pub name: Option<String>,
    pub software_name: Option<String>,
    pub software_version: Option<String>,
    pub icon_url: Option<String>,
    pub favicon_url: Option<String>,
    pub theme_color: Option<String>,
}

#[derive(Clone, Default, Debug, PartialEq, Eq, Hash)]
pub struct BadgeRole {
    pub name: String,
    pub icon_url: Option<String>,
    pub display_order: i64,
}

#[derive(Clone, Default, Debug, PartialEq, Eq, Hash)]
pub struct Field {
    pub name: String,
    pub value: String,
}

#[derive(Clone, Copy, Debug, Eq, PartialEq, Ord, PartialOrd, Hash)]
pub enum FollowVisibility {
    Public,
    Followers,
    Private,
}

#[derive(Clone, Copy, Debug, Eq, PartialEq, Ord, PartialOrd, Hash)]
pub enum ChatScope {
    Everyone,
    Following,
    Followers,
    Mutual,
    Nobody,
}

#[derive(Clone, Copy, Debug, Eq, PartialEq, Ord, PartialOrd, Hash)]
pub enum Notify {
    Normal,
    Disabled,
}

#[derive(Clone, Copy, Debug, Eq, PartialEq, Hash)]
pub enum TwoFactorBackupCodesStock {
    Full,
    Partial,
    Empty,
}

#[derive(Clone, Default, Debug, PartialEq, Eq, Hash)]
pub struct SecurityKey {
    pub id: String,
    pub name: String,
    pub last_used: String,
}

} // verus!
