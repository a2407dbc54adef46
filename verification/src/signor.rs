pub mod negotiate_request;
pub mod negotiate_response;

use negotiate_response::Which;
use vstd::prelude::*;

verus! {

/// Which end of the peer connection this side is. The side that receives an offer from
/// the signalling server is polite: it answers. The side that receives an answer is
/// impolite: its own offer was taken.
#[derive(Clone, Copy, PartialEq, Eq, Structural)]
pub enum ConnectionSide {
    Polite,
    Impolite,
}

/// A message to the signalling server.
pub struct NegotiateRequest {
    pub which: Option<negotiate_request::Which>,
}

/// A message from the signalling server.
pub struct NegotiateResponse {
    pub which: Option<negotiate_response::Which>,
}

/// The side that the signalling server's first reply makes of this peer; none where the
/// reply is missing, empty or an ICE candidate, which is an invalid handshake.
pub open spec fn side_of(reply: Option<NegotiateResponse>) -> Option<ConnectionSide> {
    match reply {
        Some(NegotiateResponse { which: Some(Which::Offer(_)) }) => Some(ConnectionSide::Polite),
        Some(NegotiateResponse { which: Some(Which::Answer(_)) }) => Some(ConnectionSide::Impolite),
        _ => None,
    }
}

/// Decides this peer's side from the signalling server's first reply.
pub fn connection_side(reply: &Option<NegotiateResponse>) -> (res: Option<ConnectionSide>)
    ensures
        res == side_of(*reply),
{
    match reply {
        Some(NegotiateResponse { which: Some(Which::Offer(_)) }) => Some(ConnectionSide::Polite),
        Some(NegotiateResponse { which: Some(Which::Answer(_)) }) => Some(ConnectionSide::Impolite),
        _ => None,
    }
}

/// The request that opens a session: its id and this side's offer.
pub fn start_request(session_id: String, offer_sdp: String) -> (res: NegotiateRequest)
    ensures
        res.which matches Some(negotiate_request::Which::Start(s)) && s.session_id == session_id
            && s.offer_sdp == offer_sdp,
{
    NegotiateRequest {
        which: Some(
            negotiate_request::Which::Start(negotiate_request::Start { session_id, offer_sdp }),
        ),
    }
}

/// The request that answers the offer that made this side polite.
pub fn answer_request(sdp: String) -> (res: NegotiateRequest)
    ensures
        res.which matches Some(negotiate_request::Which::Answer(a)) && a.sdp == sdp,
{
    NegotiateRequest { which: Some(negotiate_request::Which::Answer(negotiate_request::Answer { sdp })) }
}

} // verus!
