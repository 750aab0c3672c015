use nettools::text::received_text;

#[test]
fn received_utf8_is_decoded() {
    let mut buf = vec![0u8; 1024];
    let msg = "🤖".as_bytes();
    buf[..msg.len()].copy_from_slice(msg);
    assert_eq!(received_text(&buf, msg.len()), Some("🤖".to_string()));
    assert_eq!(received_text(&buf, 0), Some(String::new()));
}

#[test]
fn received_garbage_is_dropped() {
    let buf = vec![0xf0u8, 0x9f, 0xa4];
    assert_eq!(received_text(&buf, 3), None);
    assert_eq!(received_text(&[], 0), None);
}
