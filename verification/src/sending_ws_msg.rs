//! Messages this side sends over the streaming connection, and the
//! exact texts that go on the wire.

use vstd::prelude::*;

verus! {

/// A message to the instance's streaming endpoint.
#[derive(Debug, Clone, PartialEq, Eq, Hash)]
#[non_exhaustive]
pub enum SendingWsMsg {
    SubNote(WsMsgSubNoteBody),
}

#[derive(Debug, Clone, PartialEq, Eq, Hash)]
pub struct WsMsgSubNoteBody {
    pub id: String,
}

/// The wire text of a `subNote` message for the note id `id`.
pub open spec fn sub_note_text(id: Seq<char>) -> Seq<char> {
    "{\"type\":\"subNote\",\"body\":{\"id\":\""@ + id + "\"}}"@
}

impl SendingWsMsg {
    /// A subscription to updates of one note.
    pub fn sub_note(id: String) -> (msg: SendingWsMsg)
        ensures
            msg == SendingWsMsg::SubNote(WsMsgSubNoteBody { id }),
    {
        SendingWsMsg::SubNote(WsMsgSubNoteBody { id })
    }

    /// The exact text this message puts on the wire. The note ids the
    /// instance hands out never hold characters that JSON strings
    /// escape, so the id is embedded as it is.
    pub fn wire_text(&self) -> (r: String)
        ensures
            match self {
                SendingWsMsg::SubNote(body) => r@ == sub_note_text(body.id@),
            },
    {
        match self {
            SendingWsMsg::SubNote(body) => {
                let mut text = String::new();
                text.append("{\"type\":\"subNote\",\"body\":{\"id\":\"");
                text.append(body.id.as_str());
                text.append("\"}}");
                proof {
                    assert(text@ =~= sub_note_text(body.id@));
                }
                text
            },
        }
    }
}

} // verus!
