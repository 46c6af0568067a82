use chacha20poly1305::aead::{Aead, NewAead};
use chacha20poly1305::{ChaCha20Poly1305, Key, Nonce};
use odd_eye::{
    build_fingerprint, build_fingerprint_at, encrypt_fingerprint, find_header,
    fingerprint_json_with_stamp, frame_sealed, header_text, respond, serialize_fingerprint,
    split_sealed, transport_encode, Header, SealError, Sealer, Timestamp,
};

const KEY: [u8; 32] = [7u8; 32];

fn header(name: &str, value: &[u8]) -> Header {
    Header { name: name.to_string(), value: value.to_vec() }
}

fn scenario_headers() -> Vec<Header> {
    vec![
        header("x-http-fingerprint", b"abc"),
        header("x-tls-fingerprint", b"t1"),
        header("x-tls-fingerprint-hash", b"h1"),
        header("user-agent", b"UA/1.0"),
    ]
}

fn open(buf: &[u8]) -> Vec<u8> {
    let cipher = ChaCha20Poly1305::new(Key::from_slice(&KEY));
    cipher.decrypt(Nonce::from_slice(&buf[..12]), &buf[12..]).unwrap()
}

#[test]
fn header_text_accepts_visible_ascii_and_tab() {
    assert_eq!(header_text(&b"Mozilla/5.0\t(X11)".to_vec()), Some("Mozilla/5.0\t(X11)".to_string()));
    assert_eq!(header_text(&Vec::new()), Some(String::new()));
}

#[test]
fn header_text_rejects_other_bytes() {
    assert_eq!(header_text(&vec![b'a', 0x80]), None);
    assert_eq!(header_text(&vec![b'a', 0x7f]), None);
    assert_eq!(header_text(&vec![b'\n']), None);
}

#[test]
fn find_header_gives_first_match() {
    let hs = vec![header("a", b"1"), header("b", b"2"), header("a", b"3")];
    assert_eq!(find_header(&hs, &"a".to_string()), Some(0));
    assert_eq!(find_header(&hs, &"b".to_string()), Some(1));
    assert_eq!(find_header(&hs, &"c".to_string()), None);
}

#[test]
fn end_to_end_fields() {
    let mut hs = scenario_headers();
    hs.push(header("accept", b"*/*"));
    let fp = build_fingerprint_at(&hs, Timestamp { unix_nanos: 0 });
    let p = &fp.fingerprint;
    assert_eq!(p.http.as_deref(), Some("abc"));
    assert_eq!(p.ja3.as_deref(), Some("t1"));
    assert_eq!(p.ja3_hash.as_deref(), Some("h1"));
    assert_eq!(p.user_agent.as_deref(), Some("UA/1.0"));
    assert_eq!(p.headers, vec!["user-agent".to_string(), "accept".to_string()]);
    assert_eq!(fp.timestamp, Timestamp { unix_nanos: 0 });
}

#[test]
fn end_to_end_sealed_decrypts_to_json() {
    let fp = build_fingerprint_at(&scenario_headers(), Timestamp { unix_nanos: 0 });
    let sealer = Sealer::new(KEY.to_vec()).unwrap();
    let sealed = encrypt_fingerprint(&fp, &sealer).unwrap();
    let json = "{\"fingerprint\":{\"http\":\"abc\",\"ja3\":\"t1\",\"ja3_hash\":\"h1\",\
                \"user_agent\":\"UA/1.0\",\"headers\":[\"user-agent\"]},\
                \"timestamp\":\"1970-01-01T00:00:00Z\"}";
    assert_eq!(sealed.len(), 12 + json.len() + 16);
    assert_eq!(open(&sealed), json.as_bytes().to_vec());
}

#[test]
fn fingerprint_headers_never_in_residual() {
    let hs = vec![
        header("x-tls-fingerprint", b"t1"),
        header("host", b"example.org"),
        header("x-http-fingerprint", b"abc"),
        header("x-tls-fingerprint-hash", b"h1"),
        header("x-http-fingerprint", b"again"),
    ];
    let fp = build_fingerprint_at(&hs, Timestamp { unix_nanos: 0 });
    assert_eq!(fp.fingerprint.headers, vec!["host".to_string()]);
    assert_eq!(fp.fingerprint.http.as_deref(), Some("abc"));
}

#[test]
fn user_agent_appears_once() {
    let hs = vec![header("host", b"h"), header("user-agent", b"curl/8.0"), header("accept", b"x")];
    let fp = build_fingerprint_at(&hs, Timestamp { unix_nanos: 0 });
    let n = fp.fingerprint.headers.iter().filter(|h| h.as_str() == "user-agent").count();
    assert_eq!(n, 1);
    assert_eq!(fp.fingerprint.user_agent.as_deref(), Some("curl/8.0"));
}

#[test]
fn user_agent_not_text_is_absent() {
    let hs = vec![header("user-agent", &[0xc3, 0xa9])];
    let fp = build_fingerprint_at(&hs, Timestamp { unix_nanos: 0 });
    assert_eq!(fp.fingerprint.user_agent, None);
    assert_eq!(fp.fingerprint.headers, vec!["user-agent".to_string()]);
}

#[test]
fn consumed_header_not_text_is_empty() {
    let hs = vec![header("x-http-fingerprint", &[0xff]), header("x-tls-fingerprint", &[1])];
    let fp = build_fingerprint_at(&hs, Timestamp { unix_nanos: 0 });
    assert_eq!(fp.fingerprint.http, Some(String::new()));
    assert_eq!(fp.fingerprint.ja3, Some(String::new()));
    assert_eq!(fp.fingerprint.ja3_hash, None);
    assert!(fp.fingerprint.headers.is_empty());
}

#[test]
fn no_fingerprint_headers() {
    let hs = vec![header("host", b"h"), header("accept", b"a"), header("accept", b"b")];
    let fp = build_fingerprint_at(&hs, Timestamp { unix_nanos: 0 });
    assert_eq!(fp.fingerprint.http, None);
    assert_eq!(fp.fingerprint.ja3, None);
    assert_eq!(fp.fingerprint.ja3_hash, None);
    assert_eq!(fp.fingerprint.user_agent, None);
    assert_eq!(
        fp.fingerprint.headers,
        vec!["host".to_string(), "accept".to_string(), "accept".to_string()]
    );
}

#[test]
fn empty_request() {
    let fp = build_fingerprint(&Vec::new());
    assert_eq!(fp.fingerprint.http, None);
    assert!(fp.fingerprint.headers.is_empty());
    assert!(fp.timestamp.unix_nanos > 0);
}

#[test]
fn json_layout_with_nulls_and_escapes() {
    let hs = vec![header("x-http-fingerprint", b"a\"b\\c"), header("host", b"h")];
    let fp = build_fingerprint_at(&hs, Timestamp { unix_nanos: 0 });
    let text = fingerprint_json_with_stamp(&fp.fingerprint, "T");
    assert_eq!(
        text,
        "{\"fingerprint\":{\"http\":\"a\\\"b\\\\c\",\"ja3\":null,\"ja3_hash\":null,\
         \"user_agent\":null,\"headers\":[\"host\"]},\"timestamp\":\"T\"}"
    );
}

#[test]
fn json_empty_header_list() {
    let fp = build_fingerprint_at(&Vec::new(), Timestamp { unix_nanos: 0 });
    assert_eq!(
        serialize_fingerprint(&fp).unwrap(),
        "{\"fingerprint\":{\"http\":null,\"ja3\":null,\"ja3_hash\":null,\
         \"user_agent\":null,\"headers\":[]},\"timestamp\":\"1970-01-01T00:00:00Z\"}"
    );
}

#[test]
fn timestamp_subsecond_form() {
    let fp = build_fingerprint_at(&Vec::new(), Timestamp { unix_nanos: 1_500_000_000 });
    assert!(serialize_fingerprint(&fp).unwrap().ends_with("\"timestamp\":\"1970-01-01T00:00:01.5Z\"}"));
}

#[test]
fn timestamp_range_edges() {
    let at = |n: i128| serialize_fingerprint(&build_fingerprint_at(&Vec::new(), Timestamp { unix_nanos: n }));
    let earliest: i128 = -62_167_219_200_000_000_000;
    let end: i128 = 253_402_300_800_000_000_000;
    assert!(at(earliest).unwrap().contains("\"0000-01-01T00:00:00Z\""));
    assert_eq!(at(earliest - 1), None);
    assert!(at(end - 1).unwrap().contains("\"9999-12-31T23:59:59.999999999Z\""));
    assert_eq!(at(end), None);
}

#[test]
fn out_of_range_timestamp_is_an_error() {
    let fp = build_fingerprint_at(&Vec::new(), Timestamp { unix_nanos: i128::MAX });
    let sealer = Sealer::new(KEY.to_vec()).unwrap();
    assert_eq!(encrypt_fingerprint(&fp, &sealer), Err(SealError::TimestampOutOfRange));
}

#[test]
fn key_must_be_32_bytes() {
    assert!(Sealer::new(vec![0u8; 31]).is_none());
    assert!(Sealer::new(vec![0u8; 33]).is_none());
    assert!(Sealer::new(Vec::new()).is_none());
    assert!(Sealer::new(vec![0u8; 32]).is_some());
}

#[test]
fn seal_with_fixed_nonce_layout() {
    let sealer = Sealer::new(KEY.to_vec()).unwrap();
    let nonce: Vec<u8> = (1..=12).collect();
    let sealed = sealer.seal_with_nonce(nonce.clone(), b"hello").unwrap();
    assert_eq!(&sealed[..12], &nonce[..]);
    assert_eq!(sealed.len(), 12 + 5 + 16);
    assert_eq!(open(&sealed), b"hello".to_vec());
    assert_ne!(&sealed[12..17], b"hello");
}

#[test]
fn seal_twice_differs_and_both_open() {
    let sealer = Sealer::new(KEY.to_vec()).unwrap();
    let a = sealer.seal(b"same plaintext").unwrap();
    let b = sealer.seal(b"same plaintext").unwrap();
    assert_ne!(a, b);
    assert_eq!(open(&a), b"same plaintext".to_vec());
    assert_eq!(open(&b), b"same plaintext".to_vec());
}

#[test]
fn seal_empty_plaintext() {
    let sealer = Sealer::new(KEY.to_vec()).unwrap();
    let a = sealer.seal(b"").unwrap();
    assert_eq!(a.len(), 28);
    assert_eq!(open(&a), Vec::<u8>::new());
}

#[test]
fn respond_seals_the_request_fingerprint() {
    let sealer = Sealer::new(KEY.to_vec()).unwrap();
    let sealed = respond(&sealer, &scenario_headers()).unwrap();
    let text = String::from_utf8(open(&sealed)).unwrap();
    assert!(text.starts_with(
        "{\"fingerprint\":{\"http\":\"abc\",\"ja3\":\"t1\",\"ja3_hash\":\"h1\",\
         \"user_agent\":\"UA/1.0\",\"headers\":[\"user-agent\"]},\"timestamp\":\""
    ));
    assert!(text.ends_with("Z\"}"));
}

#[test]
fn short_record_is_rejected() {
    assert_eq!(split_sealed(Vec::new()), None);
    assert_eq!(split_sealed(vec![0u8; 11]), None);
    assert_eq!(split_sealed(vec![0u8; 12]), Some((vec![0u8; 12], Vec::new())));
}

#[test]
fn frame_and_split_round_trip() {
    let nonce: Vec<u8> = (0..12).collect();
    let ct = vec![9u8, 8, 7];
    let buf = frame_sealed(nonce.clone(), ct.clone());
    assert_eq!(buf.len(), 15);
    assert_eq!(split_sealed(buf), Some((nonce, ct)));
}

#[test]
fn transport_encode_known_values() {
    assert_eq!(transport_encode(&Vec::new()), "");
    assert_eq!(transport_encode(&b"f".to_vec()), "Zg==");
    assert_eq!(transport_encode(&b"fo".to_vec()), "Zm8=");
    assert_eq!(transport_encode(&b"foo".to_vec()), "Zm9v");
    assert_eq!(transport_encode(&b"foobar".to_vec()), "Zm9vYmFy");
    assert_eq!(transport_encode(&vec![0xfb, 0xff]), "+/8=");
}

#[test]
fn transport_round_trip() {
    let sealer = Sealer::new(KEY.to_vec()).unwrap();
    let sealed = sealer.seal(b"round trip").unwrap();
    let text = transport_encode(&sealed);
    assert_eq!(base64::decode(&text).unwrap(), sealed);
}
