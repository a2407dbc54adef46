use vstd::prelude::*;

verus! {

/// Opens a session with the signalling server.
pub struct Start {
    pub session_id: String,
    pub offer_sdp: String,
}

/// Answers the offer the server relayed.
pub struct Answer {
    pub sdp: String,
}

/// A trickled ICE candidate.
pub struct IceCandidate {
    pub ice_candidate: String,
}

/// What a request carries.
pub enum Which {
    Start(Start),
    Answer(Answer),
    IceCandidate(IceCandidate),
}

} // verus!
