//! Data shapes of the instance's REST and streaming responses.
//!
//! These are plain carriers: the values the caller-side HTTP and
//! WebSocket plumbing fills in and hands around. Shapes whose source
//! representation depends on foreign types (timestamps, arbitrary
//! JSON, floating-point ratios) live with that plumbing instead.

pub mod achievement;
pub mod announcement;
pub mod meta;
pub mod note;
pub mod role_lite;
pub mod roll_policies;
pub mod user;

pub use achievement::Achievements;
pub use role_lite::RoleLite;

use vstd::prelude::*;

verus! {

#[derive(Debug, Clone, PartialEq, Eq, Hash)]
pub struct User {
    pub id: String,
    pub username: String,
    pub host: Option<String>,
    pub name: Option<String>,
    pub online_status: OnlineStatus,
    pub avatar_url: String,
    pub avatar_blurhash: Option<String>,
    pub instance: Option<UserInstance>,
}

#[derive(Debug, Clone, Copy, PartialEq, Eq, Hash)]
pub enum OnlineStatus {
    Online,
    Active,
    Offline,
    Unknown,
}

#[derive(Debug, Clone, PartialEq, Eq, Hash)]
pub struct UserInstance {
    pub name: Option<String>,
    pub software_name: Option<String>,
    pub software_version: Option<String>,
    pub icon_url: Option<String>,
    pub favicon_url: Option<String>,
    pub theme_color: Option<String>,
}

#[derive(Debug, Clone, Copy, PartialEq, Eq, Hash)]
pub enum Visibility {
    Public,
    Home,
    Followers,
    Specified,
}

#[derive(Debug, Clone, PartialEq, Eq, Hash)]
pub struct Poll {
    pub expires_at: Option<String>,
    pub multiple: bool,
    pub choices: Vec<PollChoice>,
}

#[derive(Debug, Clone, PartialEq, Eq, Hash)]
pub struct PollChoice {
    pub is_voted: bool,
    pub text: String,
    pub votes: i64,
}

#[derive(Debug, Clone, PartialEq, Eq, Hash)]
pub struct EmojiSimple {
    pub name: String,
    pub category: Option<String>,
    pub url: String,
    pub aliases: Vec<String>,
    pub local_only: Option<bool>,
    pub is_sensitive: Option<bool>,
    pub role_ids_that_can_be_used_this_emoji_as_reaction: Option<Vec<String>>,
}

#[derive(Debug, Clone, PartialEq, Eq, Hash)]
pub struct Emoji {
    pub id: String,
    pub aliases: Vec<String>,
    pub name: String,
    pub category: Option<String>,
    pub host: Option<String>,
    pub url: String,
    pub license: Option<String>,
    pub is_sensitive: bool,
    pub local_only: bool,
    pub role_ids_that_can_be_used_this_emoji_as_reaction: Vec<String>,
}

} // verus!
