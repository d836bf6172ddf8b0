//! Connections: the ways the daemon is signed in to a service, and what each one grants.
//!
//! Services grant different things depending on *how* one logs in, so what may be done is a
//! property of a connection (one login method on one service), not of the service.

use vstd::prelude::*;

use crate::id::{Quality, Service};
use crate::session::{Account, DeviceCode};

verus! {

/// One thing that can be done through a connection. Routing asks for these.
#[derive(Debug, Clone, Copy, PartialEq, Eq, Structural)]
pub enum Capability {
    /// Search, album and artist listings, lookups.
    Catalog,
    /// The user's favorites and playlists.
    LibraryRead,
    /// Saving to the service, writing playlists there.
    LibraryWrite,
    /// Radio, similar artists, personal mixes.
    Recommendations,
    /// Full-length audio.
    Stream,
}

impl Capability {
    /// What the capability is called in messages.
    pub open spec fn phrase(self) -> Seq<char> {
        match self {
            Capability::Catalog => "browse"@,
            Capability::LibraryRead => "read your library"@,
            Capability::LibraryWrite => "change your library"@,
            Capability::Recommendations => "recommend"@,
            Capability::Stream => "stream"@,
        }
    }

    /// What the capability lets the daemon do, for messages: "tidal can't {stream}".
    pub fn doing(self) -> (phrase: &'static str)
        ensures
            phrase@ == self.phrase(),
    {
        match self {
            Capability::Catalog => "browse",
            Capability::LibraryRead => "read your library",
            Capability::LibraryWrite => "change your library",
            Capability::Recommendations => "recommend",
            Capability::Stream => "stream",
        }
    }
}

/// Everything a connection grants.
#[derive(Debug, Clone, Copy, PartialEq, Eq, Structural)]
pub struct Capabilities {
    pub catalog: bool,
    pub library_read: bool,
    pub library_write: bool,
    pub recommendations: bool,
    /// Full-length audio, up to this quality; nothing if no audio at all.
    pub stream: Option<Quality>,
}

impl Default for Capabilities {
    /// A connection grants nothing until its method says so.
    fn default() -> (capabilities: Self)
        ensures
            !capabilities.catalog,
            !capabilities.library_read,
            !capabilities.library_write,
            !capabilities.recommendations,
            capabilities.stream is None,
            forall|c: Capability| !#[trigger] capabilities.grants(c),
    {
        Capabilities {
            catalog: false,
            library_read: false,
            library_write: false,
            recommendations: false,
            stream: None,
        }
    }
}

impl Capabilities {
    /// Whether `capability` is granted.
    pub open spec fn grants(self, capability: Capability) -> bool {
        match capability {
            Capability::Catalog => self.catalog,
            Capability::LibraryRead => self.library_read,
            Capability::LibraryWrite => self.library_write,
            Capability::Recommendations => self.recommendations,
            Capability::Stream => self.stream is Some,
        }
    }

    /// Whether `capability` is granted.
    pub fn has(&self, capability: Capability) -> (granted: bool)
        ensures
            granted == self.grants(capability),
    {
        match capability {
            Capability::Catalog => self.catalog,
            Capability::LibraryRead => self.library_read,
            Capability::LibraryWrite => self.library_write,
            Capability::Recommendations => self.recommendations,
            Capability::Stream => self.stream.is_some(),
        }
    }
}

/// How a login method is carried out, so a client knows what to show.
#[derive(Debug, Clone, Copy, PartialEq, Eq, Structural)]
pub enum FlowKind {
    /// Show a short code and a URL; the user approves elsewhere; poll until done.
    DeviceCode,
    /// Open a URL in a browser; the user logs in and pastes back the URL they land on.
    Browser,
}

/// One way to sign in to a service, and what it grants, known before anyone signs in.
#[derive(Debug, PartialEq, Eq)]
pub struct Method {
    /// `tidal.pkce`: also the id of the connection it makes.
    pub id: String,
    pub service: Service,
    pub label: String,
    pub flow: FlowKind,
    /// What a connection made this way grants.
    pub grants: Capabilities,
    /// Anything worth knowing before choosing it.
    pub note: String,
}

/// A login in progress: what the user has to do.
#[derive(Debug, PartialEq, Eq)]
pub enum LoginFlow {
    /// Show `code` to the user, then complete (poll) until authorized.
    DeviceCode { code: DeviceCode },
    /// Send the user to `url`; complete with the URL they land on.
    Browser { url: String },
}

/// Whether a connection is usable.
#[derive(Debug, PartialEq, Eq)]
pub enum Health {
    /// Signed in, and the service answered as that account.
    Healthy,
    /// No credentials: sign in with this method.
    NeedsLogin,
    /// Signed in, but the service refused something the method should grant.
    Degraded { why: String },
    /// Credentials are held but the service refuses or can't be reached.
    Failing { why: String },
}

/// A connection as a client sees it: one login method on one service, and its state.
#[derive(Debug, PartialEq, Eq)]
pub struct ConnectionInfo {
    /// The method it was made with (`tidal.pkce`).
    pub id: String,
    pub service: Service,
    pub label: String,
    /// What its method grants, on paper.
    pub grants: Capabilities,
    /// What use or a probe has shown it really grants, once known.
    pub verified: Option<Capabilities>,
    pub health: Health,
    pub account: Option<Account>,
}

} // verus!
