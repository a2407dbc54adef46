use rand::Rng;
use tango::negotiation::titles_are_comparable;
use tango::negotiation::{
    make_rng_commitment, poll_for_ready, seed_match, won_last_battle, xor_seed, Handshake,
    Negotiation, NegotiationError, NegotiationFailure, NegotiationProgress, NegotiationStatus,
};
use tango::protocol::{Hello, Hola, Packet, VERSION};
use tango::signor::ConnectionSide;

fn nonce(b: u8) -> Vec<u8> {
    (0..16u8).map(|i| i ^ b).collect()
}

#[test]
fn commitment_is_shake128_of_prefixed_nonce() {
    let expected: Vec<u8> = vec![
        156, 230, 109, 227, 131, 50, 20, 49, 7, 114, 112, 55, 36, 205, 160, 101, 85, 241, 26,
        195, 39, 22, 199, 33, 82, 235, 187, 116, 21, 10, 253, 170,
    ];
    assert_eq!(make_rng_commitment(&nonce(0)), expected);
    let expected_ff: Vec<u8> = vec![
        204, 197, 151, 23, 164, 118, 161, 8, 167, 226, 23, 15, 177, 150, 125, 245, 214, 234, 45,
        90, 131, 152, 100, 201, 252, 12, 27, 59, 110, 178, 169, 249,
    ];
    assert_eq!(make_rng_commitment(&[0xff; 16]), expected_ff);
}

fn handshake(b: u8, title: &str, match_type: u16) -> Handshake {
    Handshake::new(nonce(b), title.to_string(), 0x1234_5678, match_type)
}

fn hello_of(h: &Handshake) -> Hello {
    match h.hello() {
        Packet::Hello(hello) => hello,
        _ => panic!("not a hello"),
    }
}

#[test]
fn honest_peers_agree_on_seed() {
    let a = handshake(0x00, "MEGAMAN6_FXXBR6E", 1);
    let b = handshake(0x5a, "MEGAMAN6_GXXBR5E", 1);
    let a_hello = a.receive_hello(Some(b.hello())).ok().expect("a accepts b");
    let b_hello = b.receive_hello(Some(a.hello())).ok().expect("b accepts a");
    let seed_a = a.receive_hola(&a_hello, Some(b.hola())).ok().expect("a seed");
    let seed_b = b.receive_hola(&b_hello, Some(a.hola())).ok().expect("b seed");
    assert_eq!(seed_a, seed_b);
    assert_eq!(seed_a, vec![0x5a; 16]);
}

#[test]
fn hello_errors() {
    let a = handshake(0, "MEGAMAN6_FXXBR6E", 1);
    assert!(matches!(a.receive_hello(None), Err(NegotiationError::ExpectedHello)));
    assert!(matches!(
        a.receive_hello(Some(Packet::Hola(Hola { rng_nonce: vec![] }))),
        Err(NegotiationError::ExpectedHello)
    ));
    assert!(matches!(a.receive_hello(Some(a.hello())), Err(NegotiationError::IdenticalCommitment)));
    let b = handshake(1, "MEGAMAN6_FXXBR6E", 1);
    let mut hello = hello_of(&b);
    hello.protocol_version = VERSION + 1;
    assert!(matches!(
        a.receive_hello(Some(Packet::Hello(hello))),
        Err(NegotiationError::ProtocolVersionMismatch)
    ));
    let c = handshake(2, "MEGAMAN6_FXXBR6E", 2);
    assert!(matches!(a.receive_hello(Some(c.hello())), Err(NegotiationError::MatchTypeMismatch)));
    let d = handshake(3, "ROCKEXE6_RXXBR6J", 1);
    assert!(matches!(a.receive_hello(Some(d.hello())), Err(NegotiationError::GameMismatch)));
    let e = handshake(4, "MEGAMAN6_GXXBR5E", 1);
    assert!(a.receive_hello(Some(e.hello())).is_ok());
}

#[test]
fn hola_errors() {
    let a = handshake(0, "MEGAMAN6_FXXBR6E", 1);
    let b = handshake(1, "MEGAMAN6_FXXBR6E", 1);
    let b_hello = a.receive_hello(Some(b.hello())).ok().expect("hello");
    assert!(matches!(a.receive_hola(&b_hello, None), Err(NegotiationError::ExpectedHola)));
    assert!(matches!(a.receive_hola(&b_hello, Some(b.hello())), Err(NegotiationError::ExpectedHola)));
    let liar = Packet::Hola(Hola { rng_nonce: nonce(2) });
    assert!(matches!(a.receive_hola(&b_hello, Some(liar)), Err(NegotiationError::InvalidCommitment)));
}

#[test]
fn seed_is_pairwise_xor_as_far_as_both_reach() {
    assert_eq!(xor_seed(&[1, 2, 3], &[3, 2]), vec![2, 0]);
    assert_eq!(xor_seed(&[0xf0], &[0x0f, 0xff]), vec![0xff]);
    assert_eq!(xor_seed(&[], &[1]), Vec::<u8>::new());
}

#[test]
fn toss_has_one_winner() {
    for bit in [false, true] {
        assert_ne!(
            won_last_battle(bit, ConnectionSide::Polite),
            won_last_battle(bit, ConnectionSide::Impolite)
        );
    }
    assert!(won_last_battle(true, ConnectionSide::Polite));
    assert!(won_last_battle(false, ConnectionSide::Impolite));
}

#[test]
fn both_sides_of_a_match_toss_the_same_bit() {
    for b in 0..16u8 {
        let seed = nonce(b);
        let (_, polite) = seed_match(&seed, ConnectionSide::Polite);
        let (_, impolite) = seed_match(&seed, ConnectionSide::Impolite);
        assert_ne!(polite, impolite);
    }
}

#[test]
fn status_of_negotiation() {
    assert!(poll_for_ready(&Negotiation::NotReady(NegotiationProgress::Signalling))
        == NegotiationStatus::NotReady(NegotiationProgress::Signalling));
    assert!(poll_for_ready(&Negotiation::Failed(NegotiationError::GameMismatch))
        == NegotiationStatus::Failed(NegotiationFailure::GameMismatch));
    assert!(poll_for_ready(&Negotiation::Failed(NegotiationError::MatchTypeMismatch))
        == NegotiationStatus::Failed(NegotiationFailure::MatchTypeMismatch));
    assert!(poll_for_ready(&Negotiation::Failed(NegotiationError::ProtocolVersionMismatch))
        == NegotiationStatus::Failed(NegotiationFailure::ProtocolVersionMismatch));
    assert!(poll_for_ready(&Negotiation::Failed(NegotiationError::InvalidCommitment))
        == NegotiationStatus::Failed(NegotiationFailure::Unknown));
    let (rng, _) = seed_match(&nonce(0), ConnectionSide::Polite);
    assert!(poll_for_ready(&Negotiation::Negotiated { rng }) == NegotiationStatus::Ready);
}

#[test]
fn error_descriptions() {
    assert_eq!(NegotiationError::ExpectedHello.description(), "expected hello");
    assert_eq!(NegotiationError::ExpectedHola.description(), "expected hola");
    assert_eq!(NegotiationError::IdenticalCommitment.description(), "identical commitment");
    assert_eq!(NegotiationError::ProtocolVersionMismatch.description(), "protocol version mismatch");
    assert_eq!(NegotiationError::MatchTypeMismatch.description(), "match type mismatch");
    assert_eq!(NegotiationError::GameMismatch.description(), "game mismatch");
    assert_eq!(NegotiationError::InvalidCommitment.description(), "invalid commitment");
    assert_eq!(NegotiationError::Other("x".to_string()).description(), "other error");
}

#[test]
fn generator_only_once_negotiated() {
    let mut n = Negotiation::NotReady(NegotiationProgress::Handshaking);
    assert!(n.rng().is_none());
    let mut f = Negotiation::Failed(NegotiationError::ExpectedHola);
    assert!(f.rng().is_none());
    let (rng, _) = seed_match(&nonce(3), ConnectionSide::Polite);
    let mut ok = Negotiation::Negotiated { rng };
    assert!(ok.rng().is_some());
}

#[test]
fn generator_handed_out_is_the_stored_one() {
    let (rng, _) = seed_match(&nonce(3), ConnectionSide::Polite);
    let mut expected = rng.clone();
    let mut n = Negotiation::Negotiated { rng };
    let first: u64 = n.rng().expect("negotiated").gen();
    assert_eq!(first, expected.gen::<u64>());
    let second: u64 = n.rng().expect("negotiated").gen();
    assert_eq!(second, expected.gen::<u64>());
}

#[test]
fn short_titles_are_not_comparable() {
    let a = handshake(0, "MEGAMAN6_FXXBR6E", 1);
    let short = handshake(1, "MM6", 1);
    let h = hello_of(&short);
    assert!(!titles_are_comparable(&a, &h));
    let mut other_type = hello_of(&short);
    other_type.match_type = 2;
    assert!(titles_are_comparable(&a, &other_type));
    let ok = handshake(2, "MEGAMAN6_BXX", 1);
    assert!(titles_are_comparable(&a, &hello_of(&ok)));
    let cut = handshake(3, "MEGAMAN\u{e9}", 1);
    assert!(!titles_are_comparable(&a, &hello_of(&cut)));
}

#[test]
fn sides_play_different_players() {
    for b in 0..8u8 {
        let seed = nonce(b.wrapping_mul(31));
        let (_, polite_won) = seed_match(&seed, ConnectionSide::Polite);
        let (_, impolite_won) = seed_match(&seed, ConnectionSide::Impolite);
        let mut p = tango::battle::BattleState::new();
        p.set_won_last_battle(polite_won);
        p.start_battle(0);
        let mut q = tango::battle::BattleState::new();
        q.set_won_last_battle(impolite_won);
        q.start_battle(0);
        assert_eq!(p.local_player_index() + q.local_player_index(), 1);
    }
}

#[test]
fn toss_bit_follows_the_seeded_generator() {
    // The polite side wins exactly when the first bool of the seeded PCG is set.
    let expected = [false, true, false, true, true, false, true, false];
    for b in 0..8u8 {
        let seed: Vec<u8> = (0..16u8).map(|i| i ^ b.wrapping_mul(37)).collect();
        let (_, polite_won) = seed_match(&seed, ConnectionSide::Polite);
        assert_eq!(polite_won, expected[b as usize]);
    }
}

#[test]
fn concluded_peers_share_generator_and_split_the_toss() {
    for b in 1..6u8 {
        let a = handshake(0, "MEGAMAN6_FXXBR6E", 1);
        let bh = handshake(b, "MEGAMAN6_GXXBR5E", 1);
        let a_hello = a.receive_hello(Some(bh.hello())).ok().expect("a accepts b");
        let b_hello = bh.receive_hello(Some(a.hello())).ok().expect("b accepts a");
        let mut sa = tango::battle::BattleState::new();
        let mut sb = tango::battle::BattleState::new();
        let na = a.conclude(&a_hello, Some(bh.hola()), ConnectionSide::Polite, &mut sa);
        let nb = bh.conclude(&b_hello, Some(a.hola()), ConnectionSide::Impolite, &mut sb);
        assert_ne!(sa.won_last_battle, sb.won_last_battle);
        match (na, nb) {
            (Negotiation::Negotiated { rng: mut ra }, Negotiation::Negotiated { rng: mut rb }) => {
                for _ in 0..4 {
                    assert_eq!(ra.gen::<u64>(), rb.gen::<u64>());
                }
            }
            _ => panic!("both sides negotiate"),
        }
    }
}

#[test]
fn conclude_fails_without_touching_battle_state() {
    let a = handshake(0, "MEGAMAN6_FXXBR6E", 1);
    let b = handshake(1, "MEGAMAN6_FXXBR6E", 1);
    let b_hello = a.receive_hello(Some(b.hello())).ok().expect("hello");
    let mut s = tango::battle::BattleState::new();
    s.set_won_last_battle(true);
    let n = a.conclude(&b_hello, Some(Packet::Hola(Hola { rng_nonce: nonce(2) })), ConnectionSide::Polite, &mut s);
    assert!(matches!(n, Negotiation::Failed(NegotiationError::InvalidCommitment)));
    assert!(s.won_last_battle);
    let n2 = a.conclude(&b_hello, None, ConnectionSide::Polite, &mut s);
    assert!(matches!(n2, Negotiation::Failed(NegotiationError::ExpectedHola)));
}

#[test]
fn conclude_checked_refuses_a_short_matching_nonce() {
    let a = handshake(0, "MEGAMAN6_FXXBR6E", 1);
    let b = handshake(1, "MEGAMAN6_FXXBR6E", 1);
    let mut their_hello = hello_of(&b);
    let short = vec![1u8, 2, 3];
    their_hello.rng_commitment = make_rng_commitment(&short);
    let mut s = tango::battle::BattleState::new();
    s.set_won_last_battle(true);
    let n = a.conclude_checked(&their_hello, Some(Packet::Hola(Hola { rng_nonce: short.clone() })), ConnectionSide::Polite, &mut s);
    assert!(n.is_none());
    assert!(s.won_last_battle);
    let n = a.conclude_checked(&their_hello, Some(Packet::Hola(Hola { rng_nonce: vec![9, 9] })), ConnectionSide::Polite, &mut s);
    assert!(matches!(n, Some(Negotiation::Failed(NegotiationError::InvalidCommitment))));
    let b_hello = a.receive_hello(Some(b.hello())).ok().expect("hello");
    let n = a.conclude_checked(&b_hello, Some(b.hola()), ConnectionSide::Polite, &mut s);
    assert!(matches!(n, Some(Negotiation::Negotiated { .. })));
}
