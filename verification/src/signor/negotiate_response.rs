use vstd::prelude::*;

verus! {

/// The other peer's offer.
pub struct Offer {
    pub sdp: String,
}

/// The other peer's answer to this side's offer.
pub struct Answer {
    pub sdp: String,
}

/// A trickled ICE candidate.
pub struct IceCandidate {
    pub ice_candidate: String,
}

/// What a response carries.
pub enum Which {
    Offer(Offer),
    Answer(Answer),
    IceCandidate(IceCandidate),
}

} // verus!
