use tango::compat::{parse_hex, to_hex, CompatList, Game};

#[test]
fn parse_hex_like_from_str_radix() {
    assert_eq!(parse_hex("0"), Some(0));
    assert_eq!(parse_hex("ffffffff"), Some(0xffff_ffff));
    assert_eq!(parse_hex("FfFf"), Some(0xffff));
    assert_eq!(parse_hex("+1a"), Some(0x1a));
    assert_eq!(parse_hex("00000000deadbeef"), Some(0xdead_beef));
    assert_eq!(parse_hex(""), None);
    assert_eq!(parse_hex("+"), None);
    assert_eq!(parse_hex("-1"), None);
    assert_eq!(parse_hex("12g4"), None);
    assert_eq!(parse_hex("100000000"), None);
    for s in ["0", "ffffffff", "FfFf", "+1a", "", "+", "-1", "12g4", "100000000"] {
        assert_eq!(parse_hex(s), u32::from_str_radix(s, 16).ok());
    }
}

#[test]
fn to_hex_is_eight_lowercase_digits() {
    assert_eq!(to_hex(0), b"00000000".to_vec());
    assert_eq!(to_hex(0xdead_beef), b"deadbeef".to_vec());
    assert_eq!(to_hex(0x1a2b), b"00001a2b".to_vec());
    for v in [0u32, 1, 0x1234_5678, 0xffff_ffff, 0x8000_0000] {
        let s = String::from_utf8(to_hex(v)).unwrap();
        assert_eq!(s, format!("{:08x}", v));
        assert_eq!(parse_hex(&s), Some(v));
    }
}

fn list() -> CompatList {
    let game = |title: &str, crc32: u32| Game { title: title.to_string(), crc32, hooks: "bn6".to_string() };
    CompatList {
        games: vec![
            ("bn6f".to_string(), game("MEGAMAN6_FXX", 0xdee6f2a9)),
            ("bn6g".to_string(), game("MEGAMAN6_GXX", 0x79452182)),
            ("exe6f".to_string(), game("ROCKEXE6_RXX", 0x2dfb603e)),
        ],
        compatibility: vec![
            vec!["bn6f".to_string(), "bn6g".to_string()],
            vec!["exe6f".to_string()],
        ],
    }
}

#[test]
fn lookups() {
    let l = list();
    assert_eq!(l.id_by_title_and_crc32(&"MEGAMAN6_GXX".to_string(), 0x79452182), Some(&"bn6g".to_string()));
    assert_eq!(l.id_by_title_and_crc32(&"MEGAMAN6_GXX".to_string(), 0), None);
    assert_eq!(l.game_by_id(&"exe6f".to_string()).map(|g| g.crc32), Some(0x2dfb603e));
    assert!(l.game_by_id(&"bn5".to_string()).is_none());
}

#[test]
fn compatibility() {
    let l = list();
    assert!(l.is_compatible(&"bn6f".to_string(), &"bn6g".to_string()));
    assert!(l.is_compatible(&"bn6g".to_string(), &"bn6g".to_string()));
    assert!(l.is_compatible(&"exe6f".to_string(), &"exe6f".to_string()));
    assert!(!l.is_compatible(&"bn6f".to_string(), &"exe6f".to_string()));
    assert!(!l.is_compatible(&"bn5".to_string(), &"bn5".to_string()));
}
