use quic_bootstrap::base64::{base64_decode, base64_encode};
use quic_bootstrap::pem_text::{pem_decode, pem_encode};

fn tag_certificate() -> Vec<u8> {
    b"CERTIFICATE".to_vec()
}

#[test]
fn base64_known_vectors() {
    assert_eq!(base64_encode(&b"".to_vec()), b"".to_vec());
    assert_eq!(base64_encode(&b"f".to_vec()), b"Zg==".to_vec());
    assert_eq!(base64_encode(&b"fo".to_vec()), b"Zm8=".to_vec());
    assert_eq!(base64_encode(&b"foo".to_vec()), b"Zm9v".to_vec());
    assert_eq!(base64_encode(&b"Man".to_vec()), b"TWFu".to_vec());
    assert_eq!(base64_encode(&b"light work.".to_vec()), b"bGlnaHQgd29yay4=".to_vec());
}

#[test]
fn base64_decode_inverts_encode() {
    let cases: Vec<Vec<u8>> = vec![
        vec![],
        vec![0],
        vec![255],
        vec![0, 1, 2],
        vec![10, 13, 61, 43, 47],
        (0u16..=255).map(|b| b as u8).collect(),
    ];
    for der in cases {
        let text = base64_encode(&der);
        assert_eq!(base64_decode(&text), Some(der));
    }
}

#[test]
fn base64_decode_rejects_malformed() {
    assert_eq!(base64_decode(&b"A".to_vec()), None);
    assert_eq!(base64_decode(&b"AB".to_vec()), None);
    assert_eq!(base64_decode(&b"ABC".to_vec()), None);
    assert_eq!(base64_decode(&b"====".to_vec()), None);
    assert_eq!(base64_decode(&b"Zg==Zg==".to_vec()), None);
    assert_eq!(base64_decode(&b"Z\xffAA".to_vec()), None);
}

#[test]
fn pem_block_layout() {
    let text = pem_encode(&tag_certificate(), &b"hello".to_vec());
    let s = String::from_utf8(text).unwrap();
    assert_eq!(s, "-----BEGIN CERTIFICATE-----\naGVsbG8=\n-----END CERTIFICATE-----\n");
}

#[test]
fn pem_decode_inverts_encode() {
    let tag = tag_certificate();
    let cases: Vec<Vec<u8>> = vec![vec![], vec![1], vec![1, 2], (0u16..=255).map(|b| b as u8).collect()];
    for der in cases {
        let text = pem_encode(&tag, &der);
        assert_eq!(pem_decode(&tag, &text), Some(der));
    }
}

#[test]
fn pem_decode_rejects_wrong_tag() {
    let text = pem_encode(&tag_certificate(), &b"hello".to_vec());
    assert_eq!(pem_decode(&b"PRIVATE KEY".to_vec(), &text), None);
}

#[test]
fn pem_body_wraps_at_64_columns() {
    let tag = tag_certificate();
    let der: Vec<u8> = (0u16..=255).map(|b| b as u8).collect();
    let text = pem_encode(&tag, &der);
    let s = String::from_utf8(text).unwrap();
    let lines: Vec<&str> = s.lines().collect();
    assert_eq!(lines.first(), Some(&"-----BEGIN CERTIFICATE-----"));
    assert_eq!(lines.last(), Some(&"-----END CERTIFICATE-----"));
    for line in &lines[1..lines.len() - 1] {
        assert!(line.len() <= 64);
        assert!(!line.is_empty());
    }
    // 256 bytes encode to 344 base64 characters: five full lines and
    // a 24-character remainder
    assert_eq!(lines.len(), 2 + 6);
    assert_eq!(lines[1].len(), 64);
    assert_eq!(lines[6].len(), 24);
}

#[test]
fn pem_decode_accepts_single_line_body() {
    // a body on one line, as some other writers of PEM produce it
    let tag = tag_certificate();
    let der: Vec<u8> = (0u16..=255).map(|b| b as u8).collect();
    let text = pem_encode(&tag, &der);
    let s = String::from_utf8(text).unwrap();
    let (header, rest) = s.split_at("-----BEGIN CERTIFICATE-----\n".len());
    let body_end = rest.rfind("-----END").unwrap();
    let (body, footer) = rest.split_at(body_end);
    let mut single = String::new();
    single.push_str(header);
    for line in body.lines() {
        single.push_str(line);
    }
    single.push('\n');
    single.push_str(footer);
    assert_eq!(pem_decode(&tag, &single.into_bytes()), Some(der));
}

#[test]
fn pem_output_parses_with_independent_reader() {
    let short: Vec<u8> = vec![48, 130, 1, 10, 2, 1, 1, 255, 0, 17];
    let long: Vec<u8> = (0u16..=255).map(|b| b as u8).collect();
    for der in [short, long] {
        let text = pem_encode(&tag_certificate(), &der);
        let parsed = pem::parse(String::from_utf8(text).unwrap()).unwrap();
        assert_eq!(parsed.tag, "CERTIFICATE");
        assert_eq!(parsed.contents, der);
    }
}
