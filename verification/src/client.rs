//! The REST client's verified core: what it remembers of the
//! instance, and how request URLs are formed. The HTTP calls
//! themselves are the caller's unverified plumbing.

use vstd::prelude::*;

verus! {

/// A handle on one instance: its host name and, for authenticated
/// calls, the API token.
pub struct Client {
    host: String,
    token: Option<String>,
}

impl Client {
    /// The host this client talks to.
    pub closed spec fn host_spec(&self) -> Seq<char> {
        self.host@
    }

    /// The token it authenticates with, if any.
    pub closed spec fn token_spec(&self) -> Option<Seq<char>> {
        match self.token {
            Some(t) => Some(t@),
            None => None,
        }
    }

    pub fn new(host: String, token: Option<String>) -> (c: Client)
        ensures
            c.host_spec() == host@,
            c.token_spec() == (match token {
                Some(t) => Some(t@),
                None => None::<Seq<char>>,
            }),
    {
        Client { host, token }
    }

    /// The host as a string slice.
    pub fn host(&self) -> (r: &str)
        ensures
            r@ == self.host_spec(),
    {
        self.host.as_str()
    }

    /// The token as a string slice, if any.
    pub fn token(&self) -> (r: Option<&str>)
        ensures
            match r {
                Some(t) => self.token_spec() == Some(t@),
                None => self.token_spec() is None,
            },
    {
        match &self.token {
            Some(t) => Some(t.as_str()),
            None => None,
        }
    }

    /// The full URL of an API endpoint on this instance:
    /// `https://`, the host, then the absolute path.
    pub fn api_url(&self, path: &str) -> (r: String)
        ensures
            r@ == "https://"@ + self.host_spec() + path@,
    {
        let mut url = String::new();
        url.append("https://");
        url.append(self.host.as_str());
        url.append(path);
        proof {
            assert(url@ =~= "https://"@ + self.host_spec() + path@);
        }
        url
    }
}

} // verus!
