use vstd::prelude::*;

verus! {

/// A message between a peer and the matchmaking server.
pub enum Packet {
    Start(Start),
    Offer(Offer),
    Answer(Answer),
    ICECandidate(ICECandidate),
}

/// Joins a session with this side's offer.
pub struct Start {
    pub session_id: String,
    pub offer_sdp: String,
}

/// The other peer's offer.
pub struct Offer {
    pub sdp: String,
}

/// The other peer's answer.
pub struct Answer {
    pub sdp: String,
}

/// A trickled ICE candidate.
pub struct ICECandidate {
    pub ice_candidate: String,
}

} // verus!
