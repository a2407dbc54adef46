use vstd::prelude::*;

verus! {

/// The version of the peer-to-peer protocol.
pub const VERSION: u8 = 0x0d;

/// The first packet each peer sends: what it runs and its commitment to a random nonce.
pub struct Hello {
    pub protocol_version: u8,
    pub game_title: String,
    pub game_crc32: u32,
    pub match_type: u16,
    pub rng_commitment: Vec<u8>,
}

/// The second packet each peer sends: the nonce it committed to.
pub struct Hola {
    pub rng_nonce: Vec<u8>,
}

/// The marshaled battle state a peer starts a battle with.
pub struct Init {
    pub battle_number: u8,
    pub input_delay: u32,
    pub marshaled: Vec<u8>,
}

/// One tick of a peer's input.
pub struct Input {
    pub battle_number: u8,
    pub local_tick: u32,
    pub remote_tick: u32,
    pub joyflags: u16,
    pub custom_screen_state: u8,
    pub turn: Vec<u8>,
}

/// A packet between peers.
pub enum Packet {
    Hello(Hello),
    Hola(Hola),
    Init(Init),
    Input(Input),
}

} // verus!
