//! The compact role record attached to users.

use vstd::prelude::*;

verus! {

#[derive(Clone, Default, Debug, PartialEq, Eq, Hash)]
pub struct RoleLite {
    pub id: String,
    pub name: String,
    pub color: Option<String>,
    pub icon_url: Option<String>,
    pub description: String,
    pub is_moderator: bool,
    pub is_administrator: bool,
    pub display_order: i32,
}

} // verus!
