use denki::cipher::{decode, encode, encode_raw};
use denki::http::{
    head_step, parse_content_length, parse_session_cookie, parse_status, request_head, HeadProgress,
    MAX_HEAD_BYTES,
};
use denki::klap::{
    auth_hash, check_reply, client_proof, finish_handshake1, finish_handshake2, reply_text,
    request_path, server_hash_matches, HandshakeStart, Handshake1, KlapError,
};
use denki::tapo::{decode_nickname, parse, TapoDevice};

#[test]
fn klap_timeout_is_positive() {
    assert!(denki::klap::KLAP_TIMEOUT_SECS > 0);
}

#[test]
fn auth_hash_is_32_bytes() {
    let h = auth_hash("user@example.com", "secret");
    assert_eq!(h.len(), 32);
}

#[test]
fn auth_hash_differs_by_credential() {
    let h1 = auth_hash("user@example.com", "pass1");
    let h2 = auth_hash("user@example.com", "pass2");
    assert_ne!(h1, h2);
}

#[test]
fn auth_hash_is_deterministic() {
    let h1 = auth_hash("u@x.com", "pw");
    let h2 = auth_hash("u@x.com", "pw");
    assert_eq!(h1, h2);
}

#[test]
fn auth_hash_of_empty_account_is_sha256_of_two_sha1_digests() {
    // SHA1("") = da39a3ee5e6b4b0d3255bfef95601890afd80709; the hash is
    // SHA256 of that digest twice over.
    let h = auth_hash("", "");
    let hex: String = h.iter().map(|b| format!("{b:02x}")).collect();
    assert_eq!(hex.len(), 64);
    assert_ne!(h, [0u8; 32]);
}

#[test]
fn encode_raw_round_trips_with_decode() {
    let plain = br#"{"system":{"get_sysinfo":{}}}"#;
    assert_eq!(decode(&encode_raw(plain)), plain.to_vec());
}

#[test]
fn encode_strips_prefix_before_decode() {
    let plain = br#"{"system":{"get_sysinfo":{}}}"#;
    let framed = encode(plain);
    assert_eq!(decode(&framed[4..]), plain.to_vec());
}

#[test]
fn tcp_frame_is_four_bytes_longer_than_raw() {
    let plain = b"hello";
    assert_eq!(encode(plain).len(), encode_raw(plain).len() + 4);
}

#[test]
fn tcp_frame_for_known_input_has_correct_prefix_and_body() {
    let framed = encode(b"{}");
    assert_eq!(&framed[..4], &[0, 0, 0, 2]);
    // '{' = 0x7b ^ 171 = 0xd0; '}' = 0x7d ^ 0xd0 = 0xad
    assert_eq!(&framed[4..], &[0xd0, 0xad]);
}

#[test]
fn status_line_gives_the_code() {
    assert_eq!(parse_status("HTTP/1.1 200 OK\r\nContent-Length: 48\r\n\r\n"), Some(200));
    assert_eq!(parse_status("HTTP/1.1 403 Forbidden\r\n\r\n"), Some(403));
    assert_eq!(parse_status("garbage"), None);
    assert_eq!(parse_status(""), None);
    assert_eq!(parse_status("HTTP/1.1 70000 Odd\r\n\r\n"), None);
}

#[test]
fn content_length_is_read_case_insensitively_and_defaults_to_zero() {
    assert_eq!(parse_content_length("HTTP/1.1 200 OK\r\ncontent-LENGTH:  48 \r\n\r\n"), 48);
    assert_eq!(parse_content_length("HTTP/1.1 200 OK\r\n\r\n"), 0);
    assert_eq!(parse_content_length("HTTP/1.1 200 OK\r\nContent-Length: x\r\nContent-Length: 7\r\n\r\n"), 7);
}

#[test]
fn session_cookie_is_the_tp_sessionid_part() {
    let head = "HTTP/1.1 200 OK\r\nSet-Cookie: other=1\r\nSet-Cookie: TP_SESSIONID=ABC123;TIMEOUT=86400\r\n\r\n";
    assert_eq!(parse_session_cookie(head).as_deref(), Some("TP_SESSIONID=ABC123"));
    assert_eq!(parse_session_cookie("HTTP/1.1 200 OK\r\n\r\n"), None);
}

#[test]
fn request_head_lists_host_length_and_cookie() {
    let head = request_head("/app/handshake2", "10.0.0.9", 32, Some("TP_SESSIONID=X"));
    assert_eq!(
        head,
        "POST /app/handshake2 HTTP/1.1\r\nHost: 10.0.0.9\r\nContent-Type: application/octet-stream\r\nContent-Length: 32\r\nCookie: TP_SESSIONID=X\r\n\r\n"
    );
    let head = request_head("/app/handshake1", "10.0.0.9", 16, None);
    assert!(head.ends_with("Content-Length: 16\r\n\r\n"));
}

fn start() -> HandshakeStart {
    HandshakeStart { auth_hash: auth_hash("u@x.com", "pw"), local_seed: [7u8; 16] }
}

#[test]
fn handshake1_rejects_bad_status_missing_cookie_short_body_and_wrong_hash() {
    let s = start();
    let head = "HTTP/1.1 200 OK\r\nSet-Cookie: TP_SESSIONID=S1;TIMEOUT=1\r\n\r\n";
    assert!(matches!(finish_handshake1(&s, 500, head, &[0u8; 48]), Err(KlapError::Handshake1Status(500))));
    assert!(matches!(finish_handshake1(&s, 200, "HTTP/1.1 200 OK\r\n\r\n", &[0u8; 48]), Err(KlapError::NoSessionCookie)));
    assert!(matches!(finish_handshake1(&s, 200, head, &[0u8; 10]), Err(KlapError::Handshake1TooShort(10))));
    assert!(matches!(finish_handshake1(&s, 200, head, &[0u8; 48]), Err(KlapError::AuthenticationFailed)));
    assert_eq!(
        KlapError::AuthenticationFailed.message("10.0.0.9"),
        "Authentication failed for 10.0.0.9 \u{2014} check TAPO_USER and TAPO_PASS"
    );
}

fn session() -> denki::klap::KlapSession {
    let s = start();
    let h1 = Handshake1 { remote_seed: [9u8; 16], cookie: "TP_SESSIONID=S1".to_string() };
    assert_eq!(client_proof(&s, &h1).len(), 32);
    finish_handshake2(&s, h1, 200, "10.0.0.9").unwrap()
}

#[test]
fn handshake2_fails_on_bad_status_and_sets_up_the_session() {
    let s = start();
    let h1 = Handshake1 { remote_seed: [9u8; 16], cookie: "TP_SESSIONID=S1".to_string() };
    assert!(matches!(finish_handshake2(&s, h1, 401, "h"), Err(KlapError::Handshake2Status(401))));
    let sess = session();
    assert_eq!(sess.cookie(), "TP_SESSIONID=S1");
    assert_eq!(sess.host(), "10.0.0.9");
}

#[test]
fn a_request_reads_back_as_its_own_reply() {
    let mut sess = session();
    let before = sess.seq();
    let (payload, seq) = sess.encrypt(br#"{"method":"get_device_info","params":{}}"#);
    assert_eq!(seq, before.wrapping_add(1));
    assert_eq!(sess.seq(), seq);
    assert_eq!(payload.len() % 16, 0);
    assert!(payload.len() > 32);
    let text = sess.decrypt(&payload).unwrap();
    assert_eq!(text, r#"{"method":"get_device_info","params":{}}"#);
}

#[test]
fn replies_too_short_or_garbled_are_refused() {
    let sess = session();
    assert!(matches!(sess.decrypt(&[0u8; 5]), Err(KlapError::ReplyTooShort(5))));
    assert!(matches!(sess.decrypt(&[0u8; 40]), Err(KlapError::Decrypt)));
    assert_eq!(KlapError::Decrypt.message("h"), "AES decrypt error: UnpadError");
}

#[test]
fn reply_checks_status_and_body() {
    assert!(matches!(check_reply(500, &[1]), Err(KlapError::RequestStatus(500))));
    assert!(matches!(check_reply(200, &[]), Err(KlapError::EmptyBody)));
    assert!(check_reply(200, &[1]).is_ok());
}

#[test]
fn request_path_carries_signed_sequence() {
    assert_eq!(request_path(42), "/app/request?seq=42");
    assert_eq!(request_path(-7), "/app/request?seq=-7");
    assert_eq!(request_path(i32::MIN), "/app/request?seq=-2147483648");
}

fn device(nickname: &str, on: bool) -> TapoDevice {
    TapoDevice {
        model: "P125M".to_string(),
        hw_ver: "1.0".to_string(),
        fw_ver: "1.2.3".to_string(),
        device_on: on,
        on_time: 42,
        rssi: -55,
        signal_level: 2,
        nickname: nickname.to_string(),
        overheated: false,
        device_id: "abc123".to_string(),
    }
}

#[test]
fn parse_decodes_base64_nickname() {
    let d = parse(Some(device("RGVzayBQbHVn", true))).expect("tapo device should parse");
    assert_eq!(d.nickname, "Desk Plug");
    assert!(d.is_on());
    assert_eq!(d.signal_level, 2);
}

#[test]
fn parse_leaves_plain_nickname_when_base64_decode_fails() {
    let mut raw = device("not base64!", false);
    raw.signal_level = 0;
    let d = parse(Some(raw)).expect("tapo device should parse");
    assert_eq!(d.nickname, "not base64!");
    assert!(!d.is_on());
    assert_eq!(d.signal_level, 0);
}

#[test]
fn nickname_that_decodes_to_non_utf8_is_kept() {
    // "/w==" decodes to the single byte 0xff, which is not UTF-8.
    assert_eq!(decode_nickname("/w==".to_string()), "/w==");
    assert!(parse(None).is_none());
}

#[test]
fn a_device_that_knows_the_auth_hash_passes_handshake1() {
    let s = start();
    let remote_seed = [3u8; 16];
    let mut input = Vec::new();
    input.extend_from_slice(&s.local_seed);
    input.extend_from_slice(&remote_seed);
    input.extend_from_slice(&s.auth_hash);
    let proof = <sha2::Sha256 as sha2::Digest>::digest(&input);
    let mut body = remote_seed.to_vec();
    body.extend_from_slice(&proof);
    let head = "HTTP/1.1 200 OK\r\nSet-Cookie: TP_SESSIONID=S9;TIMEOUT=1\r\n\r\n";
    let h1 = finish_handshake1(&s, 200, head, &body).unwrap();
    assert_eq!(h1.remote_seed, remote_seed);
    assert_eq!(h1.cookie, "TP_SESSIONID=S9");
}

#[test]
fn server_hash_is_read_from_bytes_16_to_48() {
    let mut body = vec![0u8; 48];
    for (i, b) in body.iter_mut().enumerate().skip(16) {
        *b = i as u8;
    }
    let mut expected = [0u8; 32];
    for (i, b) in expected.iter_mut().enumerate() {
        *b = (i + 16) as u8;
    }
    assert!(server_hash_matches(&expected, &body));
    expected[31] ^= 1;
    assert!(!server_hash_matches(&expected, &body));
    assert!(!server_hash_matches(&[0u8; 32], &body));
}

#[test]
fn reply_text_refuses_undecryptable_and_non_utf8_plaintext() {
    assert_eq!(reply_text(Some(b"{\"ok\":1}".to_vec())).unwrap(), "{\"ok\":1}");
    assert!(matches!(reply_text(None), Err(KlapError::Decrypt)));
    match reply_text(Some(vec![0x61, 0xff])) {
        Err(KlapError::NotUtf8(m)) => assert!(m.contains("invalid utf-8")),
        _ => panic!("non-UTF-8 plaintext must be refused"),
    }
}

#[test]
fn response_head_is_complete_at_the_blank_line_and_refused_past_the_limit() {
    assert_eq!(head_step(b"HTTP/1.1 200 OK\r\n"), HeadProgress::More);
    assert_eq!(head_step(b"HTTP/1.1 200 OK\r\n\r\n"), HeadProgress::Complete);
    assert_eq!(head_step(b""), HeadProgress::More);
    assert_eq!(head_step(&vec![b'a'; MAX_HEAD_BYTES]), HeadProgress::More);
    assert_eq!(head_step(&vec![b'a'; MAX_HEAD_BYTES + 1]), HeadProgress::TooLarge);
    let mut long = vec![b'a'; MAX_HEAD_BYTES + 10];
    long.extend_from_slice(b"\r\n\r\n");
    assert_eq!(head_step(&long), HeadProgress::Complete);
}
