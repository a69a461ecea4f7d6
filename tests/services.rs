use noid_relay::ipfs::{cid_from_reply, IpfsAddReq};
use noid_relay::pubkeys::PubkeyDirectory;

#[test]
fn cid_is_read_from_reply() {
    let reply = "{\"Name\":\"upload.bin\",\"Hash\":\"QmXyz\",\"Size\":\"123\"}";
    assert_eq!(cid_from_reply(reply), Ok("QmXyz".to_string()));
}

#[test]
fn reply_without_hash_is_an_error() {
    let reply = "{\"Name\":\"upload.bin\"}";
    assert_eq!(cid_from_reply(reply), Err(format!("unexpected ipfs response: {}", reply)));
    assert_eq!(cid_from_reply("[1]"), Err("unexpected ipfs response: [1]".to_string()));
}

#[test]
fn reply_that_is_not_json_keeps_the_parse_error() {
    let expected = serde_json::from_str::<serde_json::Value>("oops").unwrap_err().to_string();
    assert!(!expected.is_empty());
    assert_eq!(cid_from_reply("oops"), Err(expected));
}

#[test]
fn upload_payload_is_decoded() {
    let req = IpfsAddReq { data_b64: "aGVsbG8=".to_string() };
    assert_eq!(req.payload(), Ok(b"hello".to_vec()));
}

#[test]
fn bad_base64_is_reported() {
    let req = IpfsAddReq { data_b64: "%%%".to_string() };
    let err = req.payload().unwrap_err();
    let decoder = base64::Engine::decode(&base64::engine::general_purpose::STANDARD, "%%%").unwrap_err();
    assert_eq!(err, format!("bad base64: {}", decoder));
}

#[test]
fn pubkeys_are_published_and_listed() {
    let mut d = PubkeyDirectory::new();
    assert_eq!(d.post_pubkey("alice", "KEY1"), "ok");
    assert_eq!(d.post_pubkey("bob", "KEY2"), "ok");
    assert_eq!(d.post_pubkey("alice", "KEY3"), "ok");
    let mut all = d.get_pubkeys();
    all.sort();
    assert_eq!(all, vec![("alice".to_string(), "KEY3".to_string()), ("bob".to_string(), "KEY2".to_string())]);
}

#[test]
fn pubkey_needs_both_fields() {
    let mut d = PubkeyDirectory::new();
    assert_eq!(d.post_pubkey("", "KEY"), "missing username or pubkey");
    assert_eq!(d.post_pubkey("alice", ""), "missing username or pubkey");
    assert!(d.get_pubkeys().is_empty());
}
