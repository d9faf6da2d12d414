//! Shapes of the messages the streaming connection delivers. The
//! channel messages carrying whole notes hold timestamp fields of a
//! foreign type and are kept with the unverified plumbing; the
//! reaction updates live here.

use vstd::prelude::*;

verus! {

/// An update on a note this side subscribed to.
#[derive(Debug, Clone, PartialEq, Eq, Hash)]
pub enum NoteUpdatedBody {
    NoteUpdatedBodyReacted { id: String, body: NoteUpdatedBodyReactedBody },
}

#[derive(Debug, Clone, PartialEq, Eq, Hash)]
pub struct NoteUpdatedBodyReactedBody {
    pub emoji: Option<Emoji>,
    pub reaction: String,
    pub user_id: String,
}

#[derive(Debug, Clone, PartialEq, Eq, Hash)]
pub struct Emoji {
    pub name: String,
    pub url: String,
}

} // verus!
