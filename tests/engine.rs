use encryptx::cipher::{generate_secure_key, open, seal, seal_with_nonce};
use encryptx::cli::{generate_encrypt_output, validate_key, KeyInputError};
use encryptx::crypto::{
    decrypt_bytes_with_key, decrypt_bytes_with_password, decrypt_with_header, decrypt_with_password,
    encrypt_bytes_with_key, encrypt_bytes_with_password, encrypt_with_header, encrypt_with_header_and_nonce,
    encrypt_with_password,
};
use encryptx::error::{CryptoError, ErrorKind};
use encryptx::format::{
    encode_key_container, encode_password_container, locate_key_container, locate_password_container,
};
use encryptx::header::{XdHeader, XdPasswordHeader};
use encryptx::kdf::{derive_key_from_password_argon2, derive_key_with_costs, generate_salt};
use encryptx::payload::{compress_payload, decompress_payload};
use encryptx::secure_key::SecureKey;

const ZERO_KEY_B64: &str = "AAAAAAAAAAAAAAAAAAAAAAAAAAAAAAAAAAAAAAAAAAA=";

fn key_header_json(h: &XdHeader) -> Vec<u8> {
    let key = match &h.key {
        Some(k) => format!("\"{k}\""),
        None => "null".to_string(),
    };
    format!(
        "{{\"filename\":\"{}\",\"key\":{},\"version\":{},\"timestamp\":{}}}",
        h.filename, key, h.version, h.timestamp
    )
    .into_bytes()
}

fn password_header_json(h: &XdPasswordHeader) -> Vec<u8> {
    format!(
        "{{\"filename\":\"{}\",\"salt\":\"{}\",\"kdf\":\"{}\",\"memory_cost\":65536,\"time_cost\":3,\"parallelism\":1,\"iterations\":null,\"version\":{},\"timestamp\":{}}}",
        h.filename, h.salt, h.kdf, h.version, h.timestamp
    )
    .into_bytes()
}

fn kind_of<T>(r: Result<T, CryptoError>) -> ErrorKind {
    match r {
        Ok(_) => panic!("expected an error"),
        Err(e) => e.kind(),
    }
}

fn key_encrypt(input: &[u8], key: &[u8], filename: &str) -> (Vec<u8>, XdHeader) {
    let header = XdHeader::new(filename, key, 1_700_000_000);
    let json = key_header_json(&header);
    (encrypt_bytes_with_key(input, key, &json).unwrap(), header)
}

fn key_decrypt(container: &[u8], header: &XdHeader, key: Option<&[u8]>) -> Result<(Vec<u8>, String), CryptoError> {
    decrypt_bytes_with_key(container, header, key)
}

#[test]
fn encrypt_and_decrypt_example_txt() {
    let content = b"EncryptX integration test file!";
    let password = "testpassword";
    let salt = generate_salt().unwrap();
    let header = XdPasswordHeader::new("example.txt", &salt, 1_700_000_000);
    let encrypted = encrypt_bytes_with_password(content, password, &salt, &password_header_json(&header)).unwrap();
    assert_eq!(encrypted[0], 0xFF);
    let (decrypted, filename) = decrypt_bytes_with_password(&encrypted, &header, password).unwrap();
    assert_eq!(decrypted, content);
    assert_eq!(filename, "example.txt");
}

#[test]
fn hello_test_key_mode_scenario() {
    let key = [0u8; 32];
    let (container, header) = key_encrypt(b"hello test", &key, "hello.txt");
    let json = key_header_json(&header);
    let declared = u32::from_be_bytes([container[0], container[1], container[2], container[3]]) as usize;
    assert_eq!(declared, json.len());
    assert_eq!(&container[4..4 + declared], &json[..]);
    let layout = locate_key_container(&container).unwrap();
    assert_eq!(layout.header_start, 4);
    assert_eq!(layout.header_end, 4 + json.len());
    let (plain, name) = key_decrypt(&container, &header, Some(&key)).unwrap();
    assert_eq!(plain, b"hello test");
    assert_eq!(name, "hello.txt");
}

#[test]
fn key_mode_round_trip_of_empty_input() {
    let key = [7u8; 32];
    let (container, header) = key_encrypt(b"", &key, "empty.bin");
    let (plain, name) = key_decrypt(&container, &header, Some(&key)).unwrap();
    assert!(plain.is_empty());
    assert_eq!(name, "empty.bin");
}

#[test]
fn key_mode_uses_embedded_key_when_none_given() {
    let key = [0u8; 32];
    let (container, header) = key_encrypt(b"self-decrypting", &key, "a.txt");
    assert_eq!(header.key.as_deref(), Some(ZERO_KEY_B64));
    let (plain, _) = key_decrypt(&container, &header, None).unwrap();
    assert_eq!(plain, b"self-decrypting");
}

#[test]
fn key_mode_without_any_key_is_a_decryption_error() {
    let key = [3u8; 32];
    let (container, mut header) = key_encrypt(b"data", &key, "a.txt");
    header.key = None;
    assert_eq!(kind_of(decrypt_with_header(&container, &header, None)), ErrorKind::Decryption);
    header.key = Some("not base64!".to_string());
    assert_eq!(kind_of(decrypt_with_header(&container, &header, None)), ErrorKind::Decryption);
    assert_eq!(kind_of(decrypt_with_header(&container, &header, Some(&[1u8; 31]))), ErrorKind::Decryption);
}

#[test]
fn encrypt_refuses_keys_that_are_not_32_bytes() {
    assert_eq!(kind_of(encrypt_with_header(b"x", &[0u8; 16], b"{}")), ErrorKind::Encryption);
    assert_eq!(kind_of(encrypt_with_header_and_nonce(b"x", &[0u8; 33], b"{}", &[0u8; 12])), ErrorKind::Encryption);
}

#[test]
fn fixed_nonce_container_has_exact_layout() {
    let key = [0u8; 32];
    let nonce = [0u8; 12];
    let c = encrypt_with_header_and_nonce(&[0u8; 16], &key, b"{}", &nonce).unwrap();
    let mut expected = vec![0, 0, 0, 2, b'{', b'}'];
    expected.extend_from_slice(&nonce);
    expected.extend_from_slice(&[
        0xce, 0xa7, 0x40, 0x3d, 0x4d, 0x60, 0x6b, 0x6e, 0x07, 0x4e, 0xc5, 0xd3, 0xba, 0xf3, 0x9d, 0x18,
        0xd0, 0xd1, 0xc8, 0xa7, 0x99, 0x99, 0x6b, 0xf0, 0x26, 0x5b, 0x98, 0xb5, 0xd4, 0x8a, 0xb9, 0x19,
    ]);
    assert_eq!(c, expected);
}

#[test]
fn seal_of_empty_plaintext_is_the_known_tag() {
    let key = SecureKey::new([0u8; 32]);
    let c = seal_with_nonce(&key, &[0u8; 12], b"").unwrap();
    assert_eq!(
        c,
        vec![0x53, 0x0f, 0x8a, 0xfb, 0xc7, 0x45, 0x36, 0xb9, 0xa9, 0x63, 0xb4, 0xf1, 0xc4, 0xcb, 0x73, 0x8b]
    );
}

#[test]
fn seal_then_open_gives_plaintext_back() {
    let key = SecureKey::new([9u8; 32]);
    let (nonce, c) = seal(&key, b"attack at dawn").unwrap();
    assert_eq!(c.len(), 14 + 16);
    assert_ne!(&c[..14], b"attack at dawn");
    assert_eq!(open(&key, &nonce, &c).unwrap(), b"attack at dawn");
}

#[test]
fn tampering_any_bit_fails_authentication() {
    let key = [5u8; 32];
    let (container, header) = key_encrypt(b"tamper target", &key, "t.txt");
    let start = 4 + key_header_json(&header).len();
    for i in start..container.len() {
        for bit in 0..8 {
            let mut altered = container.clone();
            altered[i] ^= 1 << bit;
            let r = decrypt_with_header(&altered, &header, Some(&key));
            assert_eq!(kind_of(r), ErrorKind::Authentication);
        }
    }
}

#[test]
fn wrong_key_fails_authentication() {
    let key = [5u8; 32];
    let (container, header) = key_encrypt(b"secret", &key, "s.txt");
    let other = [6u8; 32];
    assert_eq!(kind_of(decrypt_with_header(&container, &header, Some(&other))), ErrorKind::Authentication);
}

#[test]
fn wrong_password_fails_authentication() {
    let salt = [4u8; 32];
    let header = XdPasswordHeader::new("p.txt", &salt, 0);
    let c = encrypt_with_password(b"payload", "right", &salt, &password_header_json(&header)).unwrap();
    assert_eq!(kind_of(decrypt_with_password(&c, &header, "wrong")), ErrorKind::Authentication);
}

#[test]
fn mode_mismatch_is_reported_before_any_work() {
    let key = [1u8; 32];
    let (key_container, _) = key_encrypt(b"k", &key, "k.txt");
    let pw_header = XdPasswordHeader::new("p.txt", &[2u8; 32], 0);
    assert_eq!(
        kind_of(decrypt_with_password(&key_container, &pw_header, "pw")),
        ErrorKind::WrongDecryptionMethod
    );
    let pw_container = encode_password_container(b"{}", &[0u8; 12], &[0u8; 20]).unwrap();
    let key_header = XdHeader::new("k.txt", &key, 0);
    assert_eq!(
        kind_of(decrypt_with_header(&pw_container, &key_header, Some(&key))),
        ErrorKind::WrongDecryptionMethod
    );
}

#[test]
fn truncated_containers_are_format_errors() {
    let key = [1u8; 32];
    let (container, header) = key_encrypt(b"truncate me", &key, "t.txt");
    let need = 4 + key_header_json(&header).len() + 12;
    for cut in 0..need {
        assert_eq!(kind_of(decrypt_with_header(&container[..cut], &header, Some(&key))), ErrorKind::Format);
    }
    let pw = encode_password_container(b"{\"a\":1}", &[0u8; 12], &[1u8; 20]).unwrap();
    for cut in 1..(5 + 7 + 12) {
        assert_eq!(kind_of(locate_password_container(&pw[..cut])), ErrorKind::Format);
    }
    assert_eq!(kind_of(locate_password_container(&[])), ErrorKind::Format);
    assert_eq!(kind_of(locate_key_container(&[0xFF])), ErrorKind::Format);
    assert_eq!(kind_of(locate_key_container(&[0xFF, 0, 0, 0])), ErrorKind::WrongDecryptionMethod);
    assert_eq!(kind_of(locate_key_container(&[0xFF, 0xFF, 0xFF, 0xFF, 1, 2])), ErrorKind::WrongDecryptionMethod);
    assert_eq!(kind_of(locate_key_container(&[0x7F, 0xFF, 0xFF, 0xFF, 1, 2])), ErrorKind::Format);
}

#[test]
fn container_encoding_is_exact() {
    let c = encode_key_container(b"{}", &[1u8; 12], &[9, 9]).unwrap();
    let mut expected = vec![0, 0, 0, 2, b'{', b'}'];
    expected.extend_from_slice(&[1u8; 12]);
    expected.extend_from_slice(&[9, 9]);
    assert_eq!(c, expected);
    let p = encode_password_container(b"{}", &[1u8; 12], &[9, 9]).unwrap();
    let mut expected_p = vec![0xFF];
    expected_p.extend_from_slice(&expected);
    assert_eq!(p, expected_p);
    let layout = locate_password_container(&p).unwrap();
    assert_eq!((layout.header_start, layout.header_end), (5, 7));
}

#[test]
fn compression_is_transparent_for_any_input() {
    let key = [8u8; 32];
    let compressible = vec![b'a'; 100_000];
    let mut noisy = Vec::new();
    let mut x: u32 = 12345;
    for _ in 0..5000 {
        x = x.wrapping_mul(1_103_515_245).wrapping_add(12345);
        noisy.push((x >> 16) as u8);
    }
    for input in [compressible, noisy, vec![0x01], vec![]] {
        let payload = compress_payload(&input).unwrap();
        assert_eq!(payload[0], 0x01);
        let (container, header) = key_encrypt(&input, &key, "c.bin");
        let (plain, _) = key_decrypt(&container, &header, Some(&key)).unwrap();
        assert_eq!(plain, input);
    }
    let big = compress_payload(&vec![b'a'; 100_000]).unwrap();
    assert!(big.len() < 1000);
}

#[test]
fn unflagged_payload_is_returned_unchanged() {
    assert_eq!(decompress_payload(&[0x02, 0x03]).unwrap(), vec![0x02, 0x03]);
    assert_eq!(decompress_payload(&[]).unwrap(), Vec::<u8>::new());
    assert_eq!(kind_of(decompress_payload(&[0x01, 0x00, 0x01])), ErrorKind::Decompression);
}

#[test]
fn derivation_checks_salt_and_is_deterministic() {
    assert_eq!(kind_of(derive_key_from_password_argon2("pw", &[0u8; 16])), ErrorKind::KeyDerivation);
    let salt = [3u8; 32];
    let a = derive_key_from_password_argon2("pw", &salt).unwrap();
    let b = derive_key_from_password_argon2("pw", &salt).unwrap();
    assert_eq!(a, b);
    assert_ne!(a, [0u8; 32]);
    assert_ne!(&a[..], &salt[..]);
}

#[test]
fn headers_record_their_parameters() {
    let h = XdHeader::new("f.txt", &[0u8; 32], 42);
    assert_eq!(h.filename, "f.txt");
    assert_eq!(h.key.as_deref(), Some(ZERO_KEY_B64));
    assert_eq!((h.version, h.timestamp), (2, 42));
    let p = XdPasswordHeader::new("g.txt", &[0u8; 32], 7);
    assert_eq!(p.salt, ZERO_KEY_B64);
    assert_eq!(p.kdf, "argon2id");
    assert_eq!((p.memory_cost, p.time_cost, p.parallelism, p.iterations), (Some(65536), Some(3), Some(1), None));
    assert_eq!((p.version, p.timestamp), (3, 7));
}

#[test]
fn password_header_with_bad_salt_or_kdf_is_refused() {
    let c = encode_password_container(b"{}", &[0u8; 12], &[0u8; 20]).unwrap();
    let mut h = XdPasswordHeader::new("p.txt", &[1u8; 32], 0);
    h.salt = "***".to_string();
    assert_eq!(kind_of(decrypt_with_password(&c, &h, "pw")), ErrorKind::Decryption);
    let mut h = XdPasswordHeader::new("p.txt", &[1u8; 32], 0);
    h.kdf = "pbkdf2".to_string();
    assert_eq!(kind_of(decrypt_with_password(&c, &h, "pw")), ErrorKind::Decryption);
}

#[test]
fn key_text_is_validated() {
    assert_eq!(validate_key(ZERO_KEY_B64).unwrap(), vec![0u8; 32]);
    assert_eq!(validate_key("AAAA"), Err(KeyInputError::WrongLength(3)));
    assert_eq!(validate_key("%%%"), Err(KeyInputError::InvalidBase64));
}

#[test]
fn encrypt_output_name_uses_the_stem() {
    assert_eq!(generate_encrypt_output("dir/secret.txt"), "secret.xd");
    assert_eq!(generate_encrypt_output("archive.tar.gz"), "archive.tar.xd");
    assert_eq!(generate_encrypt_output(".bashrc"), ".bashrc.xd");
    assert_eq!(generate_encrypt_output(".."), "file.xd");
}

#[test]
fn secure_key_exposes_its_bytes() {
    let k = SecureKey::new([0xAB; 32]);
    assert_eq!(k.as_slice(), &[0xAB; 32][..]);
    let fresh = generate_secure_key().unwrap();
    let other = generate_secure_key().unwrap();
    assert_ne!(fresh, other);
}

#[test]
fn error_kinds_match_variants() {
    assert_eq!(CryptoError::FormatError.kind(), ErrorKind::Format);
    assert_eq!(CryptoError::AuthenticationError.kind(), ErrorKind::Authentication);
    assert_eq!(CryptoError::WrongDecryptionMethod("x".to_string()).kind(), ErrorKind::WrongDecryptionMethod);
    assert_eq!(CryptoError::AsyncError("x".to_string()).kind(), ErrorKind::Async);
}

#[test]
fn hello_test_container_has_exact_length() {
    let key = [0u8; 32];
    let header = XdHeader::new("hello.txt", &key, 0);
    let json = key_header_json(&header);
    let c = encrypt_with_header(b"hello test", &key, &json).unwrap();
    let declared = u32::from_be_bytes([c[0], c[1], c[2], c[3]]) as usize;
    assert_eq!(declared, json.len());
    assert_eq!(c.len(), 4 + declared + 12 + 10 + 16);
    let (plain, name) = decrypt_with_header(&c, &header, Some(&key)).unwrap();
    assert_eq!(plain, b"hello test");
    assert_eq!(name, "hello.txt");
}

#[test]
fn password_container_has_exact_length() {
    let salt = [9u8; 32];
    let header = XdPasswordHeader::new("p.txt", &salt, 0);
    let json = password_header_json(&header);
    let c = encrypt_with_password(b"0123456789", "pw", &salt, &json).unwrap();
    assert_eq!(c.len(), 1 + 4 + json.len() + 12 + 10 + 16);
}

#[test]
fn password_decryption_uses_the_recorded_costs() {
    let salt = [6u8; 32];
    let mut header = XdPasswordHeader::new("c.txt", &salt, 0);
    header.memory_cost = Some(1024);
    header.time_cost = Some(1);
    let json = password_header_json(&header);
    let key = derive_key_with_costs("pw", &salt, 1024, 1, 1).unwrap();
    let c = encrypt_with_header_and_nonce(b"cheap", &key, &json, &[0u8; 12]).unwrap();
    let mut pw_container = vec![0xFF];
    pw_container.extend_from_slice(&c);
    let (plain, _) = decrypt_with_password(&pw_container, &header, "pw").unwrap();
    assert_eq!(plain, b"cheap");
    header.time_cost = Some(2);
    assert_eq!(kind_of(decrypt_with_password(&pw_container, &header, "pw")), ErrorKind::Authentication);
    header.parallelism = Some(0);
    assert_eq!(kind_of(decrypt_with_password(&pw_container, &header, "pw")), ErrorKind::KeyDerivation);
}

#[test]
fn derivation_refuses_costs_outside_argon2_limits() {
    let salt = [1u8; 32];
    assert_eq!(kind_of(derive_key_with_costs("pw", &salt, 4, 1, 1)), ErrorKind::KeyDerivation);
    assert_eq!(kind_of(derive_key_with_costs("pw", &salt, 1024, 0, 1)), ErrorKind::KeyDerivation);
    assert_eq!(kind_of(derive_key_with_costs("pw", &salt, 16, 1, 4)), ErrorKind::KeyDerivation);
    assert_eq!(kind_of(derive_key_with_costs("pw", &salt, 1024, 1, 0x100_0000)), ErrorKind::KeyDerivation);
    let a = derive_key_with_costs("pw", &salt, 1024, 1, 1).unwrap();
    let b = derive_key_with_costs("pw", &salt, 2048, 1, 1).unwrap();
    assert_ne!(a, b);
}
