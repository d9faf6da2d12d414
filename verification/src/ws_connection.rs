//! The streaming connection's verified core: channel names, the
//! stream URL and the exact connect message. Opening the socket,
//! sending and receiving are the caller's unverified plumbing.

use vstd::prelude::*;

verus! {

/// The timelines and feeds one can subscribe to.
#[derive(Debug, Clone, Copy, PartialEq, Eq, Hash)]
pub enum MiChannel {
    Global,
    Home,
    Hybrid,
    Local,
    Main,
}

/// A live subscription, named by the id this side chose for it.
#[derive(Debug, Clone, PartialEq, Eq, Hash)]
pub struct ChannelConnection {
    pub id: String,
}

/// Why the connection yielded no message.
#[derive(Debug, Clone, Copy, PartialEq, Eq, Hash)]
pub enum ConnectionError {
    Disconnected,
}

/// The channel name each [`MiChannel`] has on the wire.
pub open spec fn channel_name_spec(c: MiChannel) -> Seq<char> {
    match c {
        MiChannel::Global => "globalTimeline"@,
        MiChannel::Home => "homeTimeline"@,
        MiChannel::Hybrid => "hybridTimeline"@,
        MiChannel::Local => "localTimeline"@,
        MiChannel::Main => "main"@,
    }
}

/// The wire text that subscribes channel `name` under id `id`.
pub open spec fn connect_text(id: Seq<char>, name: Seq<char>) -> Seq<char> {
    "{\"type\":\"connect\",\"body\":{\"id\":\""@ + id + "\",\"channel\":\""@ + name
        + "\",\"params\":{}}}"@
}

/// The URL of the streaming endpoint: `wss://`, the host, `/stream`,
/// and the API key as the query `i` when there is one.
pub open spec fn stream_url_spec(host: Seq<char>, api_key: Option<Seq<char>>) -> Seq<char> {
    match api_key {
        Some(key) => "wss://"@ + host + "/stream?i="@ + key,
        None => "wss://"@ + host + "/stream"@,
    }
}

impl MiChannel {
    /// The name this channel has on the wire.
    pub fn channel_name(&self) -> (r: &'static str)
        ensures
            r@ == channel_name_spec(*self),
    {
        match self {
            MiChannel::Global => "globalTimeline",
            MiChannel::Home => "homeTimeline",
            MiChannel::Hybrid => "hybridTimeline",
            MiChannel::Local => "localTimeline",
            MiChannel::Main => "main",
        }
    }

    /// The exact text that subscribes this channel under id `id`. The
    /// ids the caller chooses for subscriptions never hold characters
    /// that JSON strings escape, so the id is embedded as it is.
    pub fn connect_message(&self, id: &str) -> (r: String)
        ensures
            r@ == connect_text(id@, channel_name_spec(*self)),
    {
        let mut text = String::new();
        text.append("{\"type\":\"connect\",\"body\":{\"id\":\"");
        text.append(id);
        text.append("\",\"channel\":\"");
        text.append(self.channel_name());
        text.append("\",\"params\":{}}}");
        proof {
            assert(text@ =~= connect_text(id@, channel_name_spec(*self)));
        }
        text
    }
}

/// The URL of the streaming endpoint for `host`, with the API key as
/// the query `i` when one is given.
pub fn stream_url(host: &str, api_key: Option<&str>) -> (r: String)
    ensures
        r@ == stream_url_spec(
            host@,
            match api_key {
                Some(key) => Some(key@),
                None => None,
            },
        ),
{
    let mut url = String::new();
    url.append("wss://");
    url.append(host);
    match api_key {
        Some(key) => {
            url.append("/stream?i=");
            url.append(key);
            proof {
                assert(url@ =~= "wss://"@ + host@ + "/stream?i="@ + key@);
            }
        },
        None => {
            url.append("/stream");
            proof {
                assert(url@ =~= "wss://"@ + host@ + "/stream"@);
            }
        },
    }
    url
}

} // verus!
