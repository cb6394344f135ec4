//! Who may ring and who is put through: the policy of phone mode.

use vstd::prelude::*;
use crate::contacts::{
    first_with_id, name_for_id, parse_endpoint_token, parsed_token, peer_of, resolve, ContactBook,
    PeerError, PeerErrorView, ResolvedView,
};
use crate::endpoint::EndpointId;
use crate::text::{eq_ignore_case, hex_of, lower_all};

verus! {

/// How long an unanswered call rings, in seconds.
pub const RING_TIMEOUT_SECS: u64 = 120;

/// Whether a peer is in the book; known peers are put through at once.
pub fn is_known_contact(book: &ContactBook, peer: &EndpointId) -> (r: bool)
    ensures
        r == (first_with_id(book@, hex_of(peer@)) is Some),
{
    name_for_id(book, peer).is_some()
}

/// The id that a text names.
pub fn resolve_peer_token(book: &ContactBook, to: &str) -> (r: Result<EndpointId, PeerError>)
    requires
        book.wf(),
    ensures
        match r {
            Ok(id) => peer_of(book@, to@) is Ok && peer_of(book@, to@)->Ok_0.id == id@,
            Err(e) => peer_of(book@, to@) == Err::<ResolvedView, PeerErrorView>(e@),
        },
{
    match resolve(book, to) {
        Ok(p) => Ok(p.id),
        Err(e) => Err(e),
    }
}

/// Whether a text names this peer: its id but for case, an id or short code
/// that is the peer's, or else the nickname that the peer is saved under, but
/// for case.
pub open spec fn names_peer(
    book: ContactBook,
    token: Seq<char>,
    peer: Seq<u8>,
) -> bool {
    ||| lower_all(token) == lower_all(hex_of(peer))
    ||| match parsed_token(token) {
        Ok(id) => id == peer,
        Err(_) => match first_with_id(book@, hex_of(peer)) {
            Some(i) => lower_all(book@[i].0) == lower_all(token),
            None => false,
        },
    }
}

/// Whether a text names this peer.
pub fn match_peer_token(book: &ContactBook, token: &str, peer: &EndpointId) -> (r: bool)
    ensures
        r == names_peer(*book, token@, peer@),
{
    let shown = peer.to_text();
    if eq_ignore_case(token, shown.as_str()) {
        return true;
    }
    match parse_endpoint_token(token) {
        Ok(id) => id.same(peer),
        Err(_) => match name_for_id(book, peer) {
            Some(n) => eq_ignore_case(n.as_str(), token),
            None => false,
        },
    }
}

/// A peer is named by its id in hexadecimal, whatever the case; by nothing
/// else that is read as an id, unless it is the peer's; and by the nickname it
/// is saved under, whatever the case, where the text is read as no id.
pub proof fn law_peers_are_named_by_id_code_or_nickname(
    book: ContactBook,
    token: &str,
    peer: EndpointId,
    shown: String,
    saved: Option<String>,
    r: bool,
)
    requires
        call_ensures(EndpointId::to_text, (&peer,), shown),
        call_ensures(name_for_id, (&book, &peer), saved),
        call_ensures(match_peer_token, (&book, token, &peer), r),
    ensures
        lower_all(token@) == lower_all(shown@) ==> r,
        lower_all(token@) != lower_all(shown@) ==> match parsed_token(token@) {
            Ok(id) => r == (id == peer@),
            Err(_) => r == (saved is Some && lower_all(saved->0@) == lower_all(token@)),
        },
{
}

/// The peer that a text names for ringing is the one that it names for
/// dialing.
pub proof fn law_ringing_and_dialing_name_alike(
    book: ContactBook,
    to: &str,
    dialed: Result<crate::contacts::ResolvedPeer, PeerError>,
    r: Result<EndpointId, PeerError>,
)
    requires
        book.wf(),
        call_ensures(resolve, (&book, to), dialed),
        call_ensures(resolve_peer_token, (&book, to), r),
    ensures
        match (r, dialed) {
            (Ok(id), Ok(p)) => id@ == p.id@,
            (Err(e), Err(f)) => e@ == f@,
            _ => false,
        },
{
}

} // verus!
