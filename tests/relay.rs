use noid_relay::auth::{create_token_for_user, login, username_for_token, verify_login, LoginReq, TokenTable};
use noid_relay::envelope::{join_notice, presence_frame, ForwardMsg, Hello};
use noid_relay::registry::Registry;
use noid_relay::session::{handshake, open_session, route, Connection, HandshakeError, Phase, Step};

fn sorted(mut v: Vec<String>) -> Vec<String> {
    v.sort();
    v
}

fn tokens_for(users: &[&str]) -> (TokenTable, Vec<String>) {
    let mut t = TokenTable::new();
    let toks = users.iter().map(|u| create_token_for_user(&mut t, u).unwrap()).collect();
    (t, toks)
}

fn hello(user: &str, token: &str) -> String {
    format!("{{\"type\":\"hello\",\"username\":\"{}\",\"token\":\"{}\"}}", user, token)
}

#[test]
fn login_accepts_known_accounts_only() {
    assert!(verify_login("alice", "alice123"));
    assert!(verify_login("bob", "bob123"));
    assert!(!verify_login("alice", "bob123"));
    assert!(!verify_login("carol", "carol123"));
    assert!(!verify_login("Alice", "alice123"));
}

#[test]
fn login_issues_a_token_that_resolves() {
    let mut t = TokenTable::new();
    let r = login(&mut t, &LoginReq { username: "bob".to_string(), password: "bob123".to_string() });
    assert!(r.ok);
    assert!(r.msg.is_none());
    let tok = r.token.unwrap();
    assert_eq!(username_for_token(&t, &tok), Some("bob".to_string()));
}

#[test]
fn login_rejects_bad_password() {
    let mut t = TokenTable::new();
    let r = login(&mut t, &LoginReq { username: "bob".to_string(), password: "nope".to_string() });
    assert!(!r.ok);
    assert!(r.token.is_none());
    assert_eq!(r.msg, Some("invalid credentials".to_string()));
}

#[test]
fn several_tokens_of_one_identity_stay_live() {
    let (t, toks) = tokens_for(&["alice", "alice"]);
    assert_ne!(toks[0], toks[1]);
    assert_eq!(username_for_token(&t, &toks[0]), Some("alice".to_string()));
    assert_eq!(username_for_token(&t, &toks[1]), Some("alice".to_string()));
    assert_eq!(username_for_token(&t, "no-such-token"), None);
}

#[test]
fn first_frame_must_be_hello() {
    let (t, toks) = tokens_for(&["alice"]);
    let plain = format!("{{\"type\":\"plaintext\",\"from\":\"alice\",\"token\":\"{}\",\"username\":\"alice\"}}", toks[0]);
    assert_eq!(handshake(&t, Some(plain.as_str())).err(), Some(HandshakeError::HelloRequired));
    assert_eq!(handshake(&t, Some("not json")).err(), Some(HandshakeError::HelloRequired));
    assert_eq!(handshake(&t, None).err(), Some(HandshakeError::HelloRequired));
    let no_token = "{\"type\":\"hello\",\"username\":\"alice\"}";
    assert_eq!(handshake(&t, Some(no_token)).err(), Some(HandshakeError::HelloRequired));
    assert_eq!(HandshakeError::HelloRequired.notice(), "{\"type\":\"system\",\"msg\":\"hello required\"}");
}

#[test]
fn hello_required_leaves_no_registry_entry() {
    let (t, _) = tokens_for(&["alice"]);
    let mut reg = Registry::new();
    let r = open_session(&mut reg, &t, Some("{\"type\":\"ciphertext\"}"), 1);
    assert_eq!(r, Err(HandshakeError::HelloRequired));
    assert!(reg.online().is_empty());
}

#[test]
fn unknown_token_is_refused() {
    let (t, _) = tokens_for(&["alice"]);
    let mut reg = Registry::new();
    let r = open_session(&mut reg, &t, Some(hello("alice", "forged").as_str()), 1);
    assert_eq!(r, Err(HandshakeError::UnknownToken));
    assert_eq!(HandshakeError::UnknownToken.notice(), "{\"type\":\"system\",\"msg\":\"unknown token\"}");
    assert!(reg.online().is_empty());
}

#[test]
fn token_of_another_identity_is_invalid() {
    let (t, toks) = tokens_for(&["alice", "bob"]);
    let mut reg = Registry::new();
    let r = open_session(&mut reg, &t, Some(hello("bob", &toks[0]).as_str()), 1);
    assert_eq!(r, Err(HandshakeError::InvalidToken));
    assert_eq!(HandshakeError::InvalidToken.notice(), "{\"type\":\"system\",\"msg\":\"invalid token\"}");
    assert!(reg.online().is_empty());
}

#[test]
fn valid_hello_admits_normalized_identity() {
    let (t, toks) = tokens_for(&["Alice"]);
    let h = handshake(&t, Some(hello("Alice", &toks[0]).as_str())).unwrap();
    assert_eq!(h.username, "Alice");
    assert_eq!(h.kind, "hello");
    let mut reg = Registry::new();
    let r = open_session(&mut reg, &t, Some(hello("Alice", &toks[0]).as_str()), 7);
    assert_eq!(r, Ok("alice".to_string()));
    assert_eq!(reg.lookup("alice"), Some(7));
    assert_eq!(reg.lookup("Alice"), None);
}

#[test]
fn presence_tracks_admissions_and_departures() {
    let mut reg = Registry::new();
    reg.register("alice", 1);
    reg.register("bob", 2);
    reg.register("carol", 3);
    assert_eq!(sorted(reg.online()), vec!["alice", "bob", "carol"]);
    let mut conns = reg.connections();
    conns.sort();
    assert_eq!(conns, vec![1, 2, 3]);
    reg.remove("bob");
    assert_eq!(sorted(reg.online()), vec!["alice", "carol"]);
    assert_eq!(reg.lookup("bob"), None);
}

#[test]
fn readmission_replaces_the_earlier_entry() {
    let mut reg = Registry::new();
    assert_eq!(reg.register("Bob", 1), "bob");
    assert_eq!(reg.register("BOB", 2), "bob");
    assert_eq!(reg.online(), vec!["bob"]);
    assert_eq!(reg.lookup("bob"), Some(2));
    assert_eq!(reg.connections(), vec![2]);
}

#[test]
fn removing_an_absent_identity_changes_nothing() {
    let mut reg = Registry::new();
    reg.register("alice", 1);
    reg.remove("zed");
    assert_eq!(reg.online(), vec!["alice"]);
}

fn alice_and_bob() -> Registry {
    let mut reg = Registry::new();
    reg.register("alice", 10);
    reg.register("bob", 20);
    reg.register("carol", 30);
    reg
}

#[test]
fn ciphertext_goes_to_recipient_and_echoes() {
    let reg = alice_and_bob();
    let frame = "{\"type\":\"ciphertext\",\"from\":\"alice\",\"to\":\"bob\",\"ciphertext\":\"q\",\"nonce\":\"n\",\"kyber_ct\":\"k\"}";
    assert_eq!(route(&reg, frame), Ok(vec![20, 10]));
}

#[test]
fn ciphertext_to_absent_recipient_only_echoes() {
    let mut reg = Registry::new();
    reg.register("alice", 10);
    let frame = "{\"type\":\"ciphertext\",\"from\":\"alice\",\"to\":\"bob\",\"ciphertext\":\"q\",\"nonce\":\"n\",\"kyber_ct\":\"k\"}";
    assert_eq!(route(&reg, frame), Ok(vec![10]));
}

#[test]
fn ciphertext_without_recipient_goes_nowhere() {
    let reg = alice_and_bob();
    let frame = "{\"type\":\"ciphertext\",\"from\":\"alice\",\"ciphertext\":\"q\"}";
    assert_eq!(route(&reg, frame), Ok(vec![]));
}

#[test]
fn recipient_and_sender_names_are_normalized() {
    let reg = alice_and_bob();
    let frame = "{\"type\":\"ciphertext\",\"from\":\"ALICE\",\"to\":\"Bob\"}";
    assert_eq!(route(&reg, frame), Ok(vec![20, 10]));
}

#[test]
fn plaintext_scenario_alice_to_bob() {
    let mut t = TokenTable::new();
    let ta = create_token_for_user(&mut t, "alice").unwrap();
    let tb = create_token_for_user(&mut t, "bob").unwrap();
    let mut reg = Registry::new();
    assert_eq!(open_session(&mut reg, &t, Some(hello("alice", &ta).as_str()), 1), Ok("alice".to_string()));
    assert_eq!(open_session(&mut reg, &t, Some(hello("bob", &tb).as_str()), 2), Ok("bob".to_string()));
    let before = sorted(reg.online());
    let frame = "{\"type\":\"plaintext\",\"from\":\"alice\",\"to\":\"bob\",\"data\":\"hi\"}";
    assert_eq!(route(&reg, frame), Ok(vec![2, 1]));
    assert_eq!(sorted(reg.online()), before);
    assert_eq!(reg.lookup("alice"), Some(1));
    assert_eq!(reg.lookup("bob"), Some(2));
}

#[test]
fn plaintext_with_bad_optional_field_is_dropped() {
    let reg = alice_and_bob();
    let frame = "{\"type\":\"plaintext\",\"from\":\"alice\",\"to\":\"bob\",\"data\":5}";
    assert_eq!(route(&reg, frame), Ok(vec![]));
    let no_from = "{\"type\":\"plaintext\",\"to\":\"bob\",\"data\":\"hi\"}";
    assert_eq!(route(&reg, no_from), Ok(vec![]));
}

#[test]
fn plaintext_without_recipient_goes_nowhere() {
    let reg = alice_and_bob();
    let frame = "{\"type\":\"plaintext\",\"from\":\"alice\",\"data\":\"hi\"}";
    assert_eq!(route(&reg, frame), Ok(vec![]));
}

#[test]
fn malformed_frame_is_answered_with_notice() {
    let reg = alice_and_bob();
    assert_eq!(
        route(&reg, "{not json"),
        Err("{\"type\":\"system\",\"msg\":\"invalid message format\"}".to_string())
    );
}

#[test]
fn unknown_kind_is_ignored() {
    let reg = alice_and_bob();
    assert_eq!(route(&reg, "{\"type\":\"pubkey\",\"from\":\"alice\",\"to\":\"bob\"}"), Ok(vec![]));
    assert_eq!(route(&reg, "[1,2]"), Ok(vec![]));
}

#[test]
fn forward_msg_reads_all_fields() {
    let m = ForwardMsg::parse("{\"type\":\"plaintext\",\"from\":\"a\",\"to\":\"b\",\"data\":\"d\",\"iv\":null,\"cid\":\"Qm\"}").unwrap();
    assert_eq!(m.kind, "plaintext");
    assert_eq!(m.from, "a");
    assert_eq!(m.to, Some("b".to_string()));
    assert_eq!(m.data, Some("d".to_string()));
    assert_eq!(m.iv, None);
    assert_eq!(m.cid, Some("Qm".to_string()));
}

#[test]
fn hello_parse_requires_hello_kind() {
    assert!(Hello::parse("{\"type\":\"hello\",\"username\":\"a\",\"token\":\"t\"}").is_some());
    assert!(Hello::parse("{\"type\":\"helo\",\"username\":\"a\",\"token\":\"t\"}").is_none());
    assert!(Hello::parse("{\"type\":\"hello\",\"username\":1,\"token\":\"t\"}").is_none());
}

#[test]
fn presence_frame_lists_identities() {
    let online = vec!["alice".to_string(), "bob".to_string()];
    assert_eq!(presence_frame(&online), "{\"type\":\"presence\",\"online\":[\"alice\",\"bob\"]}");
    assert_eq!(presence_frame(&vec![]), "{\"type\":\"presence\",\"online\":[]}");
}

#[test]
fn presence_frame_escapes_names() {
    let online = vec!["a\"b".to_string()];
    assert_eq!(presence_frame(&online), "{\"type\":\"presence\",\"online\":[\"a\\\"b\"]}");
}

#[test]
fn join_notice_names_the_participant() {
    assert_eq!(join_notice("alice"), "{\"type\":\"system\",\"msg\":\"alice connected\"}");
}

#[test]
fn displaced_connection_does_not_remove_its_successor() {
    let mut reg = Registry::new();
    reg.register("alice", 1);
    reg.register("alice", 2);
    reg.release("alice", 1);
    assert_eq!(reg.lookup("alice"), Some(2));
    reg.release("alice", 2);
    assert_eq!(reg.lookup("alice"), None);
    assert!(reg.online().is_empty());
}

#[test]
fn connection_lifecycle_admits_routes_and_leaves_once() {
    let (t, toks) = tokens_for(&["alice", "bob"]);
    let mut reg = Registry::new();
    let mut a = Connection::new(1);
    let mut b = Connection::new(2);
    assert!(matches!(a.receive(&mut reg, &t, Some(hello("alice", &toks[0]).as_str())), Step::Joined(ref id) if id == "alice"));
    assert!(matches!(b.receive(&mut reg, &t, Some(hello("bob", &toks[1]).as_str())), Step::Joined(ref id) if id == "bob"));
    let frame = "{\"type\":\"ciphertext\",\"from\":\"alice\",\"to\":\"bob\"}";
    assert!(matches!(a.receive(&mut reg, &t, Some(frame)), Step::Forward(ref v) if *v == vec![2, 1]));
    assert!(matches!(a.receive(&mut reg, &t, Some("nope")), Step::Reply(_)));
    assert!(matches!(a.receive(&mut reg, &t, None), Step::Ignored));
    assert!(matches!(b.close(&mut reg), Step::Left));
    assert_eq!(reg.online(), vec!["alice"]);
    assert!(matches!(b.close(&mut reg), Step::Ignored));
    assert!(matches!(b.phase, Phase::Closed));
    assert_eq!(reg.online(), vec!["alice"]);
}

#[test]
fn refused_connection_is_closed() {
    let (t, _) = tokens_for(&["alice"]);
    let mut reg = Registry::new();
    let mut c = Connection::new(5);
    match c.receive(&mut reg, &t, Some("{\"type\":\"plaintext\"}")) {
        Step::Refuse(n) => assert_eq!(n, "{\"type\":\"system\",\"msg\":\"hello required\"}"),
        _ => panic!("expected a refusal"),
    }
    assert!(matches!(c.phase, Phase::Closed));
    assert!(matches!(c.receive(&mut reg, &t, Some("{}")), Step::Ignored));
    assert!(matches!(c.close(&mut reg), Step::Ignored));
    assert!(reg.online().is_empty());
}

#[test]
fn issued_token_was_not_live_before() {
    let mut t = TokenTable::new();
    let first = create_token_for_user(&mut t, "alice").unwrap();
    let second = create_token_for_user(&mut t, "bob").unwrap();
    assert_ne!(first, second);
    assert_eq!(username_for_token(&t, &first), Some("alice".to_string()));
    assert_eq!(username_for_token(&t, &second), Some("bob".to_string()));
}
