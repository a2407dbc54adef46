use crate::mgba::keys;
use vstd::prelude::*;

verus! {

/// A STUN or TURN server that peers gather ICE candidates from.
pub struct ICEServer {
    pub urls: Vec<String>,
}

/// The WebRTC settings of peer connections.
pub struct WebRTC {
    pub ice_servers: Vec<ICEServer>,
}

/// The URLs of the STUN servers used when nothing else is configured.
pub open spec fn default_stun_urls() -> Seq<Seq<char>> {
    seq![
        "stun:stun.l.google.com:19302"@,
        "stun:stun1.l.google.com:19302"@,
        "stun:stun2.l.google.com:19302"@,
        "stun:stun3.l.google.com:19302"@,
        "stun:stun4.l.google.com:19302"@,
    ]
}

/// An ICE server with the one URL `url`.
fn ice_server(url: &str) -> (res: ICEServer)
    ensures
        res.urls@.len() == 1,
        res.urls@[0]@ == url@,
{
    let mut urls: Vec<String> = Vec::new();
    urls.push(url.to_owned());
    ICEServer { urls }
}

impl Default for WebRTC {
    /// Google's five public STUN servers, one per ICE server.
    fn default() -> (res: Self)
        ensures
            res.ice_servers@.len() == 5,
            forall|i: int|
                0 <= i < 5 ==> (#[trigger] res.ice_servers@[i]).urls@.len() == 1
                    && res.ice_servers@[i].urls@[0]@ == default_stun_urls()[i],
    {
        let mut ice_servers: Vec<ICEServer> = Vec::new();
        ice_servers.push(ice_server("stun:stun.l.google.com:19302"));
        ice_servers.push(ice_server("stun:stun1.l.google.com:19302"));
        ice_servers.push(ice_server("stun:stun2.l.google.com:19302"));
        ice_servers.push(ice_server("stun:stun3.l.google.com:19302"));
        ice_servers.push(ice_server("stun:stun4.l.google.com:19302"));
        WebRTC { ice_servers }
    }
}

/// Where the matchmaking server is, and where a local one listens.
pub struct Matchmaking {
    pub connect_addr: String,
    pub bind_addr: String,
}

impl Default for Matchmaking {
    /// The public matchmaking server, and a local one on port 1984 of every interface.
    fn default() -> (res: Self)
        ensures
            res.connect_addr@ == "wss://mm.tango.murk.land"@,
            res.bind_addr@ == "[::]:1984"@,
    {
        Matchmaking {
            connect_addr: "wss://mm.tango.murk.land".to_owned(),
            bind_addr: "[::]:1984".to_owned(),
        }
    }
}

/// The log filter directives.
pub struct Logging {
    pub filters: String,
}

impl Default for Logging {
    /// No filter directives.
    fn default() -> (res: Self)
        ensures
            res.filters@ == Seq::<char>::empty(),
    {
        Logging { filters: String::new() }
    }
}

/// The keyboard keys bound to the buttons, each by its key code.
#[derive(Clone, Copy)]
pub struct Keymapping {
    pub up: usize,
    pub down: usize,
    pub left: usize,
    pub right: usize,
    pub a: usize,
    pub b: usize,
    pub l: usize,
    pub r: usize,
    pub select: usize,
    pub start: usize,
}

impl Keymapping {
    /// Whether every bound key code indexes into a key table of `n` entries.
    pub open spec fn fits(&self, n: nat) -> bool {
        &&& self.up < n
        &&& self.down < n
        &&& self.left < n
        &&& self.right < n
        &&& self.a < n
        &&& self.b < n
        &&& self.l < n
        &&& self.r < n
        &&& self.select < n
        &&& self.start < n
    }
}

/// `bit` where `held` is set, else nothing.
pub open spec fn key_bit(held: bool, bit: u32) -> u32 {
    if held {
        bit
    } else {
        0
    }
}

/// The buttons held, as the key register of the machine wants them: one bit per button
/// whose key is down.
pub open spec fn spec_joyflags(key_held: Seq<bool>, m: Keymapping) -> u32 {
    key_bit(key_held[m.left as int], keys::LEFT) | key_bit(key_held[m.right as int], keys::RIGHT)
        | key_bit(key_held[m.up as int], keys::UP) | key_bit(key_held[m.down as int], keys::DOWN)
        | key_bit(key_held[m.a as int], keys::A) | key_bit(key_held[m.b as int], keys::B)
        | key_bit(key_held[m.l as int], keys::L) | key_bit(key_held[m.r as int], keys::R)
        | key_bit(key_held[m.start as int], keys::START) | key_bit(
        key_held[m.select as int],
        keys::SELECT,
    )
}

/// Each button's bit of the key register is set exactly when the key bound to that button
/// is held, and no bit outside the ten buttons is ever set.
pub proof fn lemma_joyflags_sets_each_button_from_its_key(key_held: Seq<bool>, m: Keymapping)
    requires
        m.fits(key_held.len()),
    ensures
        (spec_joyflags(key_held, m) & keys::LEFT != 0) == key_held[m.left as int],
        (spec_joyflags(key_held, m) & keys::RIGHT != 0) == key_held[m.right as int],
        (spec_joyflags(key_held, m) & keys::UP != 0) == key_held[m.up as int],
        (spec_joyflags(key_held, m) & keys::DOWN != 0) == key_held[m.down as int],
        (spec_joyflags(key_held, m) & keys::A != 0) == key_held[m.a as int],
        (spec_joyflags(key_held, m) & keys::B != 0) == key_held[m.b as int],
        (spec_joyflags(key_held, m) & keys::L != 0) == key_held[m.l as int],
        (spec_joyflags(key_held, m) & keys::R != 0) == key_held[m.r as int],
        (spec_joyflags(key_held, m) & keys::START != 0) == key_held[m.start as int],
        (spec_joyflags(key_held, m) & keys::SELECT != 0) == key_held[m.select as int],
        spec_joyflags(key_held, m) & 0xffff_fc00u32 == 0,
{
    let x_left = key_bit(key_held[m.left as int], keys::LEFT);
    let x_right = key_bit(key_held[m.right as int], keys::RIGHT);
    let x_up = key_bit(key_held[m.up as int], keys::UP);
    let x_down = key_bit(key_held[m.down as int], keys::DOWN);
    let x_a = key_bit(key_held[m.a as int], keys::A);
    let x_b = key_bit(key_held[m.b as int], keys::B);
    let x_l = key_bit(key_held[m.l as int], keys::L);
    let x_r = key_bit(key_held[m.r as int], keys::R);
    let x_start = key_bit(key_held[m.start as int], keys::START);
    let x_select = key_bit(key_held[m.select as int], keys::SELECT);
    assert(x_left | x_right | x_up | x_down | x_a | x_b | x_l | x_r | x_start | x_select == spec_joyflags(key_held, m));
    assert(
        {
            &&& ((x_left | x_right | x_up | x_down | x_a | x_b | x_l | x_r | x_start | x_select) & 0x20u32 != 0u32) == (x_left != 0u32)
            &&& ((x_left | x_right | x_up | x_down | x_a | x_b | x_l | x_r | x_start | x_select) & 0x10u32 != 0u32) == (x_right != 0u32)
            &&& ((x_left | x_right | x_up | x_down | x_a | x_b | x_l | x_r | x_start | x_select) & 0x40u32 != 0u32) == (x_up != 0u32)
            &&& ((x_left | x_right | x_up | x_down | x_a | x_b | x_l | x_r | x_start | x_select) & 0x80u32 != 0u32) == (x_down != 0u32)
            &&& ((x_left | x_right | x_up | x_down | x_a | x_b | x_l | x_r | x_start | x_select) & 0x1u32 != 0u32) == (x_a != 0u32)
            &&& ((x_left | x_right | x_up | x_down | x_a | x_b | x_l | x_r | x_start | x_select) & 0x2u32 != 0u32) == (x_b != 0u32)
            &&& ((x_left | x_right | x_up | x_down | x_a | x_b | x_l | x_r | x_start | x_select) & 0x200u32 != 0u32) == (x_l != 0u32)
            &&& ((x_left | x_right | x_up | x_down | x_a | x_b | x_l | x_r | x_start | x_select) & 0x100u32 != 0u32) == (x_r != 0u32)
            &&& ((x_left | x_right | x_up | x_down | x_a | x_b | x_l | x_r | x_start | x_select) & 0x8u32 != 0u32) == (x_start != 0u32)
            &&& ((x_left | x_right | x_up | x_down | x_a | x_b | x_l | x_r | x_start | x_select) & 0x4u32 != 0u32) == (x_select != 0u32)
            &&& ((x_left | x_right | x_up | x_down | x_a | x_b | x_l | x_r | x_start | x_select) & 0xffff_fc00u32) == 0u32
        }
    ) by (bit_vector)
        requires
            x_left == 0u32 || x_left == 0x20u32,
            x_right == 0u32 || x_right == 0x10u32,
            x_up == 0u32 || x_up == 0x40u32,
            x_down == 0u32 || x_down == 0x80u32,
            x_a == 0u32 || x_a == 0x1u32,
            x_b == 0u32 || x_b == 0x2u32,
            x_l == 0u32 || x_l == 0x200u32,
            x_r == 0u32 || x_r == 0x100u32,
            x_start == 0u32 || x_start == 0x8u32,
            x_select == 0u32 || x_select == 0x4u32,
    ;
}

/// The buttons held, given which keys are down.
pub fn joyflags(key_held: &[bool], m: &Keymapping) -> (res: u32)
    requires
        m.fits(key_held@.len()),
    ensures
        res == spec_joyflags(key_held@, *m),
        (res & keys::LEFT != 0) == key_held@[m.left as int],
        (res & keys::RIGHT != 0) == key_held@[m.right as int],
        (res & keys::UP != 0) == key_held@[m.up as int],
        (res & keys::DOWN != 0) == key_held@[m.down as int],
        (res & keys::A != 0) == key_held@[m.a as int],
        (res & keys::B != 0) == key_held@[m.b as int],
        (res & keys::L != 0) == key_held@[m.l as int],
        (res & keys::R != 0) == key_held@[m.r as int],
        (res & keys::START != 0) == key_held@[m.start as int],
        (res & keys::SELECT != 0) == key_held@[m.select as int],
{
    proof {
        lemma_joyflags_sets_each_button_from_its_key(key_held@, *m);
    }
    let left: u32 = if key_held[m.left] {
        keys::LEFT
    } else {
        0
    };
    let right: u32 = if key_held[m.right] {
        keys::RIGHT
    } else {
        0
    };
    let up: u32 = if key_held[m.up] {
        keys::UP
    } else {
        0
    };
    let down: u32 = if key_held[m.down] {
        keys::DOWN
    } else {
        0
    };
    let a: u32 = if key_held[m.a] {
        keys::A
    } else {
        0
    };
    let b: u32 = if key_held[m.b] {
        keys::B
    } else {
        0
    };
    let l: u32 = if key_held[m.l] {
        keys::L
    } else {
        0
    };
    let r: u32 = if key_held[m.r] {
        keys::R
    } else {
        0
    };
    let start: u32 = if key_held[m.start] {
        keys::START
    } else {
        0
    };
    let select: u32 = if key_held[m.select] {
        keys::SELECT
    } else {
        0
    };
    left | right | up | down | a | b | l | r | start | select
}

} // verus!
