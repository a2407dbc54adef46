use std::cell::RefCell;
use tango::audio::{MuxStream, Stream};
use tango::bn6::hooks::{wait_for_friend_action, CommMenuAction, ConnectRequestStatus, WaitForFriendEvent};
use tango::negotiation::{NegotiationFailure, NegotiationProgress, NegotiationStatus};
use tango::gui::{bind_key, DialogStatus, KeyAction, LinkCodeDialog, Overlays};
use tango::loaded::{set_opaque, MatchState};
use tango::signor::negotiate_response::{Answer, IceCandidate, Offer, Which};
use tango::signor::{answer_request, connection_side, start_request, ConnectionSide, NegotiateResponse};

#[test]
fn link_code_dialog() {
    let mut d = LinkCodeDialog::new();
    d.open();
    assert!(matches!(&d.status, Some(DialogStatus::Pending(c)) if c.is_empty()));
    d.finish_frame(true, false, false);
    assert!(matches!(&d.status, Some(DialogStatus::Pending(_))));
    d.status = Some(DialogStatus::Pending("abc".to_string()));
    d.open();
    assert!(matches!(&d.status, Some(DialogStatus::Pending(c)) if c == "abc"));
    d.finish_frame(true, false, false);
    assert!(matches!(&d.status, Some(DialogStatus::Accepted(c)) if c == "abc"));
    d.close();
    assert!(d.status.is_none());
    d.open();
    d.finish_frame(false, true, true);
    assert!(matches!(&d.status, Some(DialogStatus::Cancelled)));
}

#[test]
fn match_state_labels() {
    assert_eq!(MatchState::<u8>::NoMatch.label(), "none");
    assert_eq!(MatchState::<u8>::Aborted.label(), "aborted");
    assert_eq!(MatchState::Match(1u8).label(), "active");
    assert_eq!(MatchState::Match(1u8).current(), Some(&1u8));
    assert_eq!(MatchState::<u8>::Aborted.current(), None);
}

#[test]
fn frames_become_opaque() {
    let mut v = vec![1u8, 2, 3, 4, 5, 6, 7, 8];
    set_opaque(&mut v);
    assert_eq!(v, vec![1, 2, 3, 0xff, 5, 6, 7, 0xff]);
    let mut e: Vec<u8> = vec![];
    set_opaque(&mut e);
    assert!(e.is_empty());
}

#[test]
fn side_from_signalling_reply() {
    let offer = Some(NegotiateResponse { which: Some(Which::Offer(Offer { sdp: "o".to_string() })) });
    assert!(connection_side(&offer) == Some(ConnectionSide::Polite));
    let answer = Some(NegotiateResponse { which: Some(Which::Answer(Answer { sdp: "a".to_string() })) });
    assert!(connection_side(&answer) == Some(ConnectionSide::Impolite));
    let ice = Some(NegotiateResponse { which: Some(Which::IceCandidate(IceCandidate { ice_candidate: "c".to_string() })) });
    assert!(connection_side(&ice).is_none());
    assert!(connection_side(&Some(NegotiateResponse { which: None })).is_none());
    assert!(connection_side(&None).is_none());
    let s = start_request("sess".to_string(), "sdp".to_string());
    assert!(matches!(s.which, Some(tango::signor::negotiate_request::Which::Start(ref st)) if st.session_id == "sess" && st.offer_sdp == "sdp"));
    let a = answer_request("ans".to_string());
    assert!(matches!(a.which, Some(tango::signor::negotiate_request::Which::Answer(ref x)) if x.sdp == "ans"));
}

#[test]
fn mux_switching() {
    let mut mux: MuxStream<&str> = MuxStream::new();
    assert_eq!(mux.selected_index(), 0);
    let primary = mux.add("primary");
    let secondary = mux.add("secondary");
    secondary.switch(&mut mux);
    assert_eq!(mux.selected_index(), 1);
    primary.switch(&mut mux);
    assert_eq!(mux.selected_index(), 0);
}

#[test]
fn link_code_is_lowercased_and_trimmed() {
    let mut d = LinkCodeDialog::new();
    d.status = Some(DialogStatus::Pending("  AbC \t".to_string()));
    d.finish_frame(false, false, false);
    assert!(matches!(&d.status, Some(DialogStatus::Pending(c)) if c == "abc"));
    d.finish_frame(true, false, false);
    assert!(matches!(&d.status, Some(DialogStatus::Accepted(c)) if c == "abc"));
    d.status = Some(DialogStatus::Pending("A".to_string()));
    d.finish_frame(false, true, false);
    assert!(matches!(&d.status, Some(DialogStatus::Accepted(c)) if c == "a"));
    d.status = Some(DialogStatus::Pending("   ".to_string()));
    d.finish_frame(true, false, false);
    assert!(matches!(&d.status, Some(DialogStatus::Pending(c)) if c.is_empty()));
}

#[test]
fn menu_toggles() {
    let mut o = tango::gui::Overlays::new();
    o.toggle_menu();
    assert!(o.show_menu && !o.show_debug && !o.show_keymapping_config);
    o.toggle_menu();
    assert!(!o.show_menu);
}

struct Tone {
    value: i16,
    count: usize,
    log: std::rc::Rc<RefCell<Vec<i16>>>,
}

impl Stream for Tone {
    fn fill(&self, buf: &mut [i16]) -> usize {
        self.log.borrow_mut().push(self.value);
        for x in buf.iter_mut() {
            *x = self.value;
        }
        self.count
    }
}

#[test]
fn mux_fills_muted_streams_first_and_heard_one_last() {
    let log = std::rc::Rc::new(RefCell::new(Vec::new()));
    let mut mux = MuxStream::new();
    let _a = mux.add(Tone { value: 1, count: 10, log: log.clone() });
    let b = mux.add(Tone { value: 2, count: 20, log: log.clone() });
    let _c = mux.add(Tone { value: 3, count: 30, log: log.clone() });
    b.switch(&mut mux);
    assert_eq!(mux.fill_sequence(), vec![0, 2, 1]);
    let mut buf = [0i16; 4];
    assert_eq!(mux.fill(&mut buf), 20);
    assert_eq!(buf, [2, 2, 2, 2]);
    assert_eq!(*log.borrow(), vec![1, 3, 2]);
}

#[test]
fn wait_for_friend_decisions() {
    assert!(matches!(
        wait_for_friend_action(WaitForFriendEvent::Idle(ConnectRequestStatus::InputComplete("abc".to_string()))),
        CommMenuAction::StartMatch(c) if c == "abc"
    ));
    assert!(matches!(
        wait_for_friend_action(WaitForFriendEvent::Idle(ConnectRequestStatus::NoRequest)),
        CommMenuAction::DropMatchmaking
    ));
    assert!(matches!(
        wait_for_friend_action(WaitForFriendEvent::Idle(ConnectRequestStatus::Pending)),
        CommMenuAction::Wait
    ));
    assert!(matches!(
        wait_for_friend_action(WaitForFriendEvent::Active(NegotiationStatus::Ready)),
        CommMenuAction::StartBattle
    ));
    assert!(matches!(
        wait_for_friend_action(WaitForFriendEvent::Active(NegotiationStatus::NotReady(NegotiationProgress::Handshaking))),
        CommMenuAction::Wait
    ));
    assert!(matches!(
        wait_for_friend_action(WaitForFriendEvent::Active(NegotiationStatus::Failed(NegotiationFailure::GameMismatch))),
        CommMenuAction::DropMatchmakingAndEndMatch
    ));
}

#[test]
fn overlay_toggles() {
    let mut o = Overlays::new();
    o.toggle_debug();
    assert!(o.show_debug && !o.show_menu && !o.show_keymapping_config);
    o.toggle_keymapping_config();
    assert!(o.show_debug && o.show_keymapping_config);
    o.toggle_debug();
    o.toggle_keymapping_config();
    assert!(!o.show_debug && !o.show_keymapping_config && !o.show_menu);
}

#[test]
fn key_binding_takes_first_press_while_focused() {
    let actions = vec![KeyAction::Released(3), KeyAction::Pressed(7), KeyAction::Pressed(9)];
    let mut key = 1usize;
    assert!(!bind_key(false, &actions, &mut key));
    assert_eq!(key, 1);
    assert!(bind_key(true, &actions, &mut key));
    assert_eq!(key, 7);
    assert!(!bind_key(true, &vec![KeyAction::Released(4)], &mut key));
    assert_eq!(key, 7);
}
