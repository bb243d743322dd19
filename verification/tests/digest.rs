use pakstak::digest::{
    decode_hex, encode_hex, sha256_digest, verify_bytes, DigestAlgorithm, DigestError,
    DigestVerifier, HexError,
};

const EMPTY_SHA256: &str = "sha256:e3b0c44298fc1c149afbf4c8996fb92427ae41e4649b934ca495991b7852b855";
const ABC_SHA256: &str = "sha256:ba7816bf8f01cfea414140de5dae2223b00361a396177a9cb410ff61f20015ad";

#[test]
fn sha256_of_known_inputs() {
    assert_eq!(sha256_digest(b""), EMPTY_SHA256);
    assert_eq!(sha256_digest(b"abc"), ABC_SHA256);
}

#[test]
fn encodes_lowercase_hex() {
    assert_eq!(encode_hex(&[0x00, 0x0f, 0xab, 0xff]), "000fabff");
    assert_eq!(encode_hex(&[]), "");
}

#[test]
fn decodes_hex_of_both_cases() {
    assert_eq!(decode_hex("000FabFF").unwrap(), vec![0x00, 0x0f, 0xab, 0xff]);
}

#[test]
fn refuses_signs_in_hex_pairs() {
    let error = decode_hex("+f").unwrap_err();
    assert_eq!(error, HexError::InvalidByte { offset: 0, pair: "+f".to_owned() });
    assert_eq!(error.to_string(), "invalid hex byte `+f`: invalid digit found in string");
    assert_eq!(
        decode_hex("00+a").unwrap_err(),
        HexError::InvalidByte { offset: 2, pair: "+a".to_owned() }
    );
    assert_eq!(decode_hex("-a").unwrap_err(), HexError::InvalidByte { offset: 0, pair: "-a".to_owned() });
}

#[test]
fn hex_errors() {
    assert_eq!(decode_hex("abc").unwrap_err(), HexError::OddLength);
    assert_eq!(decode_hex("abc").unwrap_err().to_string(), "hex digest has an odd number of characters");
    assert_eq!(decode_hex("00zz").unwrap_err(), HexError::InvalidByte { offset: 2, pair: "zz".to_owned() });
    assert_eq!(decode_hex("00é").unwrap_err(), HexError::InvalidByte { offset: 2, pair: "é".to_owned() });
    assert_eq!(
        decode_hex("00é").unwrap_err().to_string(),
        "invalid hex byte `é`: invalid digit found in string"
    );
    let error = decode_hex("0é0").unwrap_err();
    assert!(matches!(error, HexError::NotUtf8 { offset: 0, .. }));
    assert_eq!(
        error.to_string(),
        "hex digest is not valid UTF-8: incomplete utf-8 byte sequence from index 1"
    );
}

#[test]
fn hex_error_messages_name_the_algorithm() {
    let error = DigestVerifier::new("sha256:abcd").err().unwrap();
    assert_eq!(error.to_string(), "invalid digest `sha256:abcd`: expected 32 bytes for sha256, got 2");
    let error = verify_bytes(b"", "sha384:00").unwrap_err();
    assert_eq!(error.to_string(), "invalid digest `sha384:00`: expected 48 bytes for sha384, got 1");
}

#[test]
fn verifies_matching_bytes() {
    verify_bytes(b"abc", ABC_SHA256).unwrap();
    verify_bytes(b"", EMPTY_SHA256).unwrap();
}

#[test]
fn rejects_mismatching_bytes() {
    let error = verify_bytes(b"abd", ABC_SHA256).unwrap_err();
    assert!(matches!(error, DigestError::VerificationFailed(_)));
    assert!(error.to_string().starts_with("digest verification failed: expected sha256:ba7816bf"));
}

#[test]
fn digest_format_errors() {
    assert!(matches!(verify_bytes(b"", "nocolon"), Err(DigestError::InvalidFormat(d)) if d == "nocolon"));
    assert!(matches!(verify_bytes(b"", "md5:00"), Err(DigestError::UnsupportedAlgorithm(a)) if a == "md5"));
    assert!(matches!(
        verify_bytes(b"", "sha256:00"),
        Err(DigestError::InvalidHex {
            reason: HexError::WrongLength { expected: 32, algorithm: DigestAlgorithm::Sha256, actual: 1 },
            ..
        })
    ));
    assert!(matches!(
        verify_bytes(b"", "sha512:0"),
        Err(DigestError::InvalidHex { reason: HexError::OddLength, .. })
    ));
}

#[test]
fn verifier_accepts_content_in_pieces() {
    let mut verifier = DigestVerifier::new(ABC_SHA256).unwrap();
    verifier.update(b"a");
    verifier.update(b"");
    verifier.update(b"bc");
    verifier.verify().unwrap();
}

#[test]
fn sha512_digest_is_supported() {
    let digest = "sha512:cf83e1357eefb8bdf1542850d66d8007d620e4050b5715dc83f4a921d36ce9ce47d0d13c5d85f2b0ff8318d2877eec2f63b931bd47417a81a538327af927da3e";
    verify_bytes(b"", digest).unwrap();
    assert_eq!(DigestAlgorithm::Sha384.output_len(), 48);
}

#[test]
fn layer_digest_mismatch() {
    let layer = tar_layer(&[("hello.txt", b"tampered")]);
    let expected_digest = sha256_digest(b"expected layer");
    let mut verifier = DigestVerifier::new(&expected_digest).unwrap();
    verifier.update(&layer);
    assert!(verifier.verify().is_err());
}

fn tar_layer(files: &[(&str, &[u8])]) -> Vec<u8> {
    let mut bytes = Vec::new();
    {
        let mut archive = tar::Builder::new(&mut bytes);
        for (path, contents) in files {
            let mut header = tar::Header::new_gnu();
            header.set_size(contents.len() as u64);
            header.set_mode(0o644);
            header.set_cksum();
            archive.append_data(&mut header, path, *contents).unwrap();
        }
        archive.finish().unwrap();
    }
    bytes
}

#[test]
fn written_digest_verifies_its_content() {
    for content in [&b""[..], b"abc", b"layer bytes \x00\xff"] {
        let digest = sha256_digest(content);
        verify_bytes(content, &digest).unwrap();
    }
}

#[test]
fn hex_roundtrip() {
    let bytes: Vec<u8> = (0u8..=255).collect();
    assert_eq!(decode_hex(&encode_hex(&bytes)).unwrap(), bytes);
}
