use tango::config::{joyflags, Keymapping, Logging, Matchmaking, WebRTC};
use tango::mgba::keys;

#[test]
fn default_ice_servers() {
    let w = WebRTC::default();
    assert_eq!(w.ice_servers.len(), 5);
    assert_eq!(w.ice_servers[0].urls, vec!["stun:stun.l.google.com:19302".to_string()]);
    assert_eq!(w.ice_servers[4].urls, vec!["stun:stun4.l.google.com:19302".to_string()]);
}

#[test]
fn default_matchmaking_and_logging() {
    let m = Matchmaking::default();
    assert_eq!(m.connect_addr, "wss://mm.tango.murk.land");
    assert_eq!(m.bind_addr, "[::]:1984");
    assert_eq!(Logging::default().filters, "");
}

fn mapping() -> Keymapping {
    Keymapping { up: 0, down: 1, left: 2, right: 3, a: 4, b: 5, l: 6, r: 7, select: 8, start: 9 }
}

#[test]
fn joyflags_from_keys_held() {
    let mut held = vec![false; 16];
    assert_eq!(joyflags(&held, &mapping()), 0);
    held[4] = true;
    held[2] = true;
    assert_eq!(joyflags(&held, &mapping()), keys::A | keys::LEFT);
    let all = vec![true; 16];
    assert_eq!(joyflags(&all, &mapping()), 0x3ff);
    held = vec![false; 16];
    held[9] = true;
    held[8] = true;
    assert_eq!(joyflags(&held, &mapping()), keys::START | keys::SELECT);
    assert_eq!(keys::START, 8);
    assert_eq!(keys::L, 0x200);
}
