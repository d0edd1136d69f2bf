//! Whose requests a rate limit counts: the client address a request is
//! attributed to.
use vstd::prelude::*;

verus! {

/// The header Cloudflare sets to the connecting client's address. It is
/// trusted because the origin only accepts traffic from Cloudflare.
pub const CF_CONNECTING_IP: &'static str = "cf-connecting-ip";

/// The client address of a request: the address in the Cloudflare header
/// when there is one that parses (`header_ip`, read from the trimmed header
/// value), otherwise the peer's address; `None` when neither is available.
pub fn client_ip<A>(header_ip: Option<A>, peer_ip: Option<A>) -> (r: Option<A>)
    ensures
        r == match header_ip {
            Some(h) => Some(h),
            None => peer_ip,
        },
{
    match header_ip {
        Some(h) => Some(h),
        None => peer_ip,
    }
}

} // verus!
