//! Identity of a ring participant: its ring identifier and network
//! endpoint.

use crate::addr::{ip_text, push_ip_text, IpAddress};
use crate::digits::{push_u64_dec, u64_dec};
use vstd::prelude::*;

verus! {

/// A ring participant, local or remote. Doubles as the connection-pool
/// key (by `id`) and the liveness-cache key (by full value).
#[derive(Clone, Copy, PartialEq, Eq, Hash, Structural, Debug)]
pub struct NodeInfo {
    pub id: u64,
    pub address: IpAddress,
    pub port: u16,
}

#[verifier::external_type_specification]
#[verifier::external_body]
pub struct ExUri(http::Uri);

/// The URI the deterministic builder returns for an authority: fixed
/// scheme, the given authority, root path. A function of the text alone.
pub uninterp spec fn uri_of(authority: Seq<char>) -> http::Uri;

/// The authority text of a node's endpoint: its address, bracketed for
/// the sixteen-octet form, then a colon and the decimal port.
pub open spec fn authority_text(info: NodeInfo) -> Seq<char> {
    match info.address {
        IpAddress::V4(_, _, _, _) => ip_text(info.address) + seq![':'] + u64_dec(info.port as nat),
        IpAddress::V6(_, _, _, _, _, _, _, _) => seq!['['] + ip_text(info.address) + seq![']']
            + seq![':'] + u64_dec(info.port as nat),
    }
}

/// Relies on http's Uri builder: a URI is assembled without I/O from the
/// fixed scheme, a well-formed host-and-port authority, and the root
/// path; assembly is deterministic in the authority text and succeeds on
/// every authority this library prints.
#[verifier::external_body]
fn uri_from_authority(s: &str) -> (r: http::Uri)
    requires
        exists|info: NodeInfo| s@ == authority_text(info),
    ensures
        r == uri_of(s@),
{
    http::Uri::builder().scheme("http").authority(s).path_and_query("/").build().unwrap()
}

impl NodeInfo {
    /// The authority text of this node's endpoint.
    pub fn authority_string(&self) -> (s: String)
        ensures
            s@ == authority_text(*self),
    {
        proof {
            reveal_strlit("[");
            reveal_strlit("]");
            reveal_strlit(":");
            assert("["@ =~= seq!['[']);
            assert("]"@ =~= seq![']']);
            assert(":"@ =~= seq![':']);
        }
        let mut s = String::new();
        match self.address {
            IpAddress::V4(_, _, _, _) => {
                push_ip_text(&self.address, &mut s);
                s.append(":");
                push_u64_dec(self.port as u64, &mut s);
            },
            IpAddress::V6(_, _, _, _, _, _, _, _) => {
                s.append("[");
                push_ip_text(&self.address, &mut s);
                s.append("]");
                s.append(":");
                push_u64_dec(self.port as u64, &mut s);
            },
        }
        proof {
            assert(s@ =~= authority_text(*self));
        }
        s
    }

    /// The URI at which this node's RPC service is reached.
    pub fn uri(&self) -> (r: http::Uri)
        ensures
            r == uri_of(authority_text(*self)),
    {
        let s = self.authority_string();
        uri_from_authority(s.as_str())
    }
}

} // verus!
