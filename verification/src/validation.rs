//! The DNS servers that a user configures, and their validation.

use crate::status::VpnResult;
use crate::text;
use std::sync::Arc;
use vstd::prelude::*;

verus! {

/// How a DNS server is spoken to.
pub enum NativeDnsServerType {
    /// The DNS server is a DoH3 server (e.g. https://dns.google/dns-query).
    ///
    /// The sanitized name (e.g. dns.google) and optionally a path (e.g. /<UUID>) are held here.
    DoH3(String, Option<String>),
    /// The DNS server is a standard DNS server (e.g. 8.8.8.8).
    Standard,
}

/// The kind of a server over the characters of its name and path.
pub enum ServerKind {
    DoH3(Seq<char>, Option<Seq<char>>),
    Standard,
}

impl ServerKind {
    /// The name and the path in one text; standard servers have none.
    pub open spec fn doh3_address(self) -> Option<Seq<char>> {
        match self {
            ServerKind::DoH3(name, path) => Some(name + text::text_or_empty(path)),
            ServerKind::Standard => None,
        }
    }
}

impl View for NativeDnsServerType {
    type V = ServerKind;

    open spec fn view(&self) -> ServerKind {
        match self {
            NativeDnsServerType::DoH3(name, path) => ServerKind::DoH3(name@, text::optional_text(*path)),
            NativeDnsServerType::Standard => ServerKind::Standard,
        }
    }
}

/// Copies an optional string.
pub(crate) fn copy_path(path: &Option<String>) -> (copy: Option<String>)
    ensures
        copy == path,
{
    match path {
        Some(text) => Some(text.clone()),
        None => None,
    }
}

impl Clone for NativeDnsServerType {
    fn clone(&self) -> (copy: Self)
        ensures
            copy == self,
    {
        match self {
            NativeDnsServerType::DoH3(name, path) => NativeDnsServerType::DoH3(
                name.clone(),
                copy_path(path),
            ),
            NativeDnsServerType::Standard => NativeDnsServerType::Standard,
        }
    }
}

impl NativeDnsServerType {
    /// Returns the name of a DoH3 server followed by its path.
    pub fn get_doh3_address(&self) -> (address: Option<String>)
        ensures
            text::optional_text(address) == self@.doh3_address(),
    {
        match self {
            NativeDnsServerType::DoH3(name, path) => match path {
                Some(path) => Some(text::join(name.as_str(), path.as_str())),
                None => {
                    proof {
                        assert(name@ + Seq::<char>::empty() =~= name@);
                    }
                    Some(name.clone())
                },
            },
            NativeDnsServerType::Standard => None,
        }
    }
}

/// A validated DNS server: the octets of its address and how it is spoken to.
#[verifier::ext_equal]
pub struct ServerView {
    pub address: Seq<u8>,
    pub kind: ServerKind,
}

/// A DNS server with a known address.
pub struct NativeDnsServer {
    address: Vec<u8>,
    address_type: NativeDnsServerType,
}

impl View for NativeDnsServer {
    type V = ServerView;

    closed spec fn view(&self) -> ServerView {
        ServerView { address: self.address@, kind: self.address_type@ }
    }
}

impl NativeDnsServer {
    /// Creates a server from the octets of its address and its type.
    pub fn new(address: Vec<u8>, address_type: NativeDnsServerType) -> (server: Self)
        ensures
            server@ == (ServerView { address: address@, kind: address_type@ }),
    {
        NativeDnsServer { address, address_type }
    }

    /// Returns the octets of the address.
    pub fn get_address(&self) -> (address: Vec<u8>)
        ensures
            address@ == self@.address,
    {
        vstd::slice::slice_to_vec(self.address.as_slice())
    }

    /// Returns how the server is spoken to.
    pub fn get_type(&self) -> (address_type: NativeDnsServerType)
        ensures
            address_type@ == self@.kind,
    {
        self.address_type.clone()
    }
}

/// The views of a sequence of servers.
pub open spec fn server_views(servers: Seq<Arc<NativeDnsServer>>) -> Seq<ServerView> {
    servers.map_values(|server: Arc<NativeDnsServer>| server@)
}

/// The possible errors of a validation.
#[derive(PartialEq, Eq, Structural, Debug, Clone, Copy)]
pub enum ValidateDnsError {
    /// Failed to resolve host names.
    ResolveFailure,
    /// Failed to parse an IPv4 or IPv6 address.
    ParseFailure,
}

/// The outcome of a validation that did not fail.
pub enum ValidateDnsResult {
    Success(Vec<Arc<NativeDnsServer>>),
    Interrupted(VpnResult),
}

/// The outcome of a validation over the servers' views.
pub enum ResultView {
    Success(Seq<ServerView>),
    Interrupted(VpnResult),
}

impl View for ValidateDnsResult {
    type V = ResultView;

    open spec fn view(&self) -> ResultView {
        match self {
            ValidateDnsResult::Success(servers) => ResultView::Success(server_views(servers@)),
            ValidateDnsResult::Interrupted(result) => ResultView::Interrupted(*result),
        }
    }
}

/// The DoH3 address of a server is its name followed by its path, if it has one; a standard server has
/// none.
pub proof fn law_doh3_address(name: Seq<char>, path: Seq<char>)
    ensures
        ServerKind::DoH3(name, None).doh3_address() == Some(name),
        ServerKind::DoH3(name, Some(path)).doh3_address() == Some(name + path),
        ServerKind::Standard.doh3_address() is None,
{
    assert(name + Seq::<char>::empty() =~= name);
}

/// The views of servers are those of each server, in their order.
pub proof fn law_server_views(servers: Seq<Arc<NativeDnsServer>>, index: int)
    requires
        0 <= index < servers.len(),
    ensures
        server_views(servers).len() == servers.len(),
        server_views(servers)[index] == servers[index]@,
{
}

} // verus!
