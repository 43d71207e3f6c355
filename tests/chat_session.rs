use tls_chat::chat::{chat_action, format_chat_line, local_time, on_chat_payload, ChatAction, ClockTime};
use tls_chat::registry::{AddrPair, SessionRegistry};
use tls_chat::session::{SessionAction, SessionState};
use tls_chat::store::CredentialStore;

fn at(hour: u8, minute: u8, second: u8) -> ClockTime {
    ClockTime { hour, minute, second }
}

fn addr(n: u16) -> AddrPair {
    AddrPair { local_ip: 0xffff_7f00_0001, local_port: 8080, peer_ip: 0xffff_7f00_0001, peer_port: n }
}

fn login(state: &mut SessionState, store: &mut CredentialStore, msg: &str) -> Vec<u8> {
    match state.on_message(store, msg.as_bytes()) {
        SessionAction::Reply(f) => f,
        _ => panic!("expected a reply"),
    }
}

fn is_stamped_line(bytes: &[u8], rest: &[u8]) -> bool {
    bytes.len() == 10 + rest.len()
        && bytes[0] == b'['
        && bytes[3] == b':'
        && bytes[6] == b':'
        && bytes[9] == b']'
        && [1, 2, 4, 5, 7, 8].iter().all(|i| bytes[*i].is_ascii_digit())
        && &bytes[10..] == rest
}

#[test]
fn chat_line_format() {
    assert_eq!(format_chat_line(at(9, 5, 7), "Alice", "hi there"), b"[09:05:07]Alice:hi there".to_vec());
    assert_eq!(format_chat_line(at(23, 59, 60), "B", ""), b"[23:59:60]B:".to_vec());
    assert_eq!(format_chat_line(at(0, 0, 0), "Zo\u{eb}", "\u{2603}"), "[00:00:00]Zo\u{eb}:\u{2603}".as_bytes().to_vec());
}

#[test]
fn chat_actions() {
    assert!(matches!(chat_action("A", "", at(1, 2, 3)), ChatAction::Ignore));
    match chat_action("A", "/exit", at(1, 2, 3)) {
        ChatAction::Exit(f) => assert_eq!(f, b"/exit\r\n\r\n".to_vec()),
        _ => panic!("expected exit"),
    }
    match chat_action("A", "hello", at(12, 34, 56)) {
        ChatAction::Broadcast(f) => assert_eq!(f, b"[12:34:56]A:hello\r\n\r\n".to_vec()),
        _ => panic!("expected broadcast"),
    }
    match chat_action("A", " /exit", at(12, 34, 56)) {
        ChatAction::Broadcast(f) => assert_eq!(f, b"[12:34:56]A: /exit\r\n\r\n".to_vec()),
        _ => panic!("expected broadcast"),
    }
}

#[test]
fn clock_parts() {
    assert_eq!(ClockTime::from_parts(23, 59, 59, 1_500_000_000), at(23, 59, 60));
    assert_eq!(ClockTime::from_parts(7, 8, 9, 999_999_999), at(7, 8, 9));
    let t = local_time();
    assert!(t.hour < 24 && t.minute < 60 && t.second <= 60);
}

#[test]
fn chat_from_wire_bytes() {
    assert!(matches!(on_chat_payload("A", b""), ChatAction::Ignore));
    match on_chat_payload("A", b"/exit") {
        ChatAction::Exit(f) => assert_eq!(f, b"/exit\r\n\r\n".to_vec()),
        _ => panic!("expected exit"),
    }
    match on_chat_payload("A", b"x\xffy") {
        ChatAction::Broadcast(f) => {
            assert!(f.ends_with(b"\r\n\r\n"));
            assert!(is_stamped_line(&f[..f.len() - 4], "A:x\u{fffd}y".as_bytes()));
        }
        _ => panic!("expected broadcast"),
    }
}

#[test]
fn broadcast_fan_out() {
    let mut store = CredentialStore::new();
    let mut registry: SessionRegistry<usize> = SessionRegistry::new();
    let mut states = Vec::new();
    for (i, creds) in ["a/pa/Ann", "b/pb/Ben", "c/pc/Cat"].iter().enumerate() {
        let mut s = SessionState::new();
        assert_eq!(login(&mut s, &mut store, creds), b"correct\r\n\r\n".to_vec());
        registry.add(addr(i as u16), i);
        states.push(s);
    }
    let frame = match states[0].on_message(&mut store, b"hello all") {
        SessionAction::Broadcast(f) => f,
        _ => panic!("expected broadcast"),
    };
    assert!(is_stamped_line(&frame[..frame.len() - 4], b"Ann:hello all"));
    assert!(frame.ends_with(b"\r\n\r\n"));
    let mut received = vec![Vec::new(); 3];
    for i in 0..registry.len() {
        received[*registry.handle(i)].push(frame.clone());
    }
    for r in &received {
        assert_eq!(r, &vec![frame.clone()]);
    }
}

#[test]
fn exit_closes_and_deregisters() {
    let mut store = CredentialStore::new();
    let mut registry: SessionRegistry<usize> = SessionRegistry::new();
    let mut a = SessionState::new();
    let mut b = SessionState::new();
    registry.add(addr(1), 1);
    registry.add(addr(2), 2);
    login(&mut a, &mut store, "a/pa/Ann");
    login(&mut b, &mut store, "b/pb/Ben");
    assert!(matches!(a.on_message(&mut store, b""), SessionAction::Nothing));
    match a.on_message(&mut store, b"/exit") {
        SessionAction::ReplyAndClose(f) => assert_eq!(f, b"/exit\r\n\r\n".to_vec()),
        _ => panic!("expected the exit echo"),
    }
    assert!(a.is_closed());
    assert_eq!(registry.remove_matching(addr(1)), 1);
    assert!(!registry.contains(addr(1)));
    assert!(registry.contains(addr(2)));
    assert_eq!(registry.len(), 1);
    assert_eq!(*registry.handle(0), 2);
    assert!(!b.is_closed());
}

#[test]
fn failed_login_keeps_awaiting() {
    let mut store = CredentialStore::new();
    let mut s = SessionState::new();
    assert_eq!(login(&mut s, &mut store, "x/y"), b"User with such login does not exist.\r\n\r\n".to_vec());
    assert_eq!(login(&mut s, &mut store, "just one"), b"Invalid format\r\n\r\n".to_vec());
    assert_eq!(login(&mut s, &mut store, "x/y/Xavier"), b"correct\r\n\r\n".to_vec());
    match s.on_message(&mut store, b"hey") {
        SessionAction::Broadcast(f) => assert!(is_stamped_line(&f[..f.len() - 4], b"Xavier:hey")),
        _ => panic!("expected broadcast"),
    }
}

#[test]
fn read_failure_closes() {
    let mut s = SessionState::new();
    assert!(matches!(s.on_read_failure(), SessionAction::Close));
    assert!(s.is_closed());
}

#[test]
fn registry_empty_after_all_leave() {
    let mut store = CredentialStore::new();
    let mut registry: SessionRegistry<u32> = SessionRegistry::new();
    let n: u16 = 8;
    let mut states = Vec::new();
    for i in 0..n {
        registry.add(addr(i), i as u32);
        let mut s = SessionState::new();
        login(&mut s, &mut store, &format!("user{}/pw/User {}", i, i));
        states.push(s);
    }
    for (i, s) in states.iter_mut().enumerate() {
        assert!(matches!(s.on_message(&mut store, b"one message"), SessionAction::Broadcast(_)));
        assert!(matches!(s.on_message(&mut store, b"/exit"), SessionAction::ReplyAndClose(_)));
        assert_eq!(registry.remove_matching(addr(i as u16)), 1);
        for j in 0..registry.len() {
            assert!(registry.key(j).peer_port > i as u16);
        }
    }
    assert_eq!(registry.len(), 0);
    assert_eq!(registry.remove_matching(addr(0)), 0);
}

#[test]
fn remove_matching_takes_all_duplicates() {
    let mut registry: SessionRegistry<u8> = SessionRegistry::new();
    registry.add(addr(5), 1);
    registry.add(addr(6), 2);
    registry.add(addr(5), 3);
    assert_eq!(registry.remove_matching(addr(5)), 2);
    assert_eq!(registry.len(), 1);
    assert_eq!(registry.key(0), addr(6));
}
