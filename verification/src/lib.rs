//! Client library for a Misskey-style federated instance.
//!
//! The verified core is the MFM (markup) parser: it turns free-form post
//! text into a structured syntax tree, and can rewrite locally-scoped
//! mentions into fully host-qualified ones when a post crosses an
//! instance boundary.

pub mod client;
pub mod mi_entities;
pub mod parser;
pub mod receiving_ws_msg;
pub mod sending_ws_msg;
pub mod ws_connection;

use vstd::prelude::*;

verus! {

/// True exactly for the characters that end a line: CR, LF, vertical
/// tab, form feed, NEL, LINE SEPARATOR and PARAGRAPH SEPARATOR.
pub open spec fn is_line_break(c: char) -> bool {
    c == '\r' || c == '\n' || c == '\u{000B}' || c == '\u{000C}' || c == '\u{0085}'
        || c == '\u{2028}' || c == '\u{2029}'
}

} // verus!
