use k256::elliptic_curve::sec1::ToEncodedPoint;
use muruchat::pki::{PublicKey, PublicKeyParseError, SecretKey, SecretKeyParseError, Signature, SignatureParseError};

const ONE: &str = "0000000000000000000000000000000000000000000000000000000000000001";
const GENERATOR: &str = "0279be667ef9dcbbac55a06295ce870b07029bfcdb2dce28d959f2815b16f81798";

#[test]
fn test_public_key_length() {
    let secret = SecretKey::generate();
    let public = secret.public_key();

    assert_eq!(public.bytes().len(), 33);
}

#[test]
fn test_serialize_deserialize() {
    let secret = SecretKey::generate();
    let public = secret.public_key();

    let ser = serde_json::to_string(&public.to_string()).unwrap();
    let text: String = serde_json::from_str(&ser).unwrap();
    let de_ser: PublicKey = text.parse().unwrap();

    assert_eq!(de_ser, public);
}

#[test]
fn public_key_bytes_round_trip() {
    for _ in 0..20 {
        let public = SecretKey::generate().public_key();
        assert_eq!(PublicKey::from_bytes(&public.bytes()).unwrap(), public);
    }
}

#[test]
fn public_key_of_scalar_one_is_the_generator() {
    let secret = SecretKey::from_hex(ONE).unwrap();
    assert_eq!(secret.public_key().to_string(), GENERATOR);
}

#[test]
fn public_key_refuses_other_sec1_forms() {
    let secret = SecretKey::generate();
    let inner = k256::SecretKey::from_be_bytes(&hex::decode(secret.to_string()).unwrap()).unwrap();
    let uncompressed = inner.public_key().to_encoded_point(false);
    assert_eq!(uncompressed.as_bytes().len(), 65);
    assert_eq!(PublicKey::from_bytes(uncompressed.as_bytes()), Err(PublicKeyParseError));
    let mut compact = secret.public_key().bytes();
    compact[0] = 5;
    assert_eq!(PublicKey::from_bytes(&compact), Err(PublicKeyParseError));
    let compressed = inner.public_key().to_encoded_point(true);
    assert_eq!(PublicKey::from_bytes(compressed.as_bytes()).unwrap(), secret.public_key());
}

#[test]
fn public_key_rejects_wrong_length() {
    let public = SecretKey::generate().public_key();
    let bytes = public.bytes();
    assert_eq!(PublicKey::from_bytes(&bytes[..32]), Err(PublicKeyParseError));
    assert_eq!(PublicKey::from_bytes(&[]), Err(PublicKeyParseError));
    assert_eq!(PublicKey::from_bytes(&[7u8; 10]), Err(PublicKeyParseError));
}

#[test]
fn public_key_rejects_point_off_the_curve() {
    let mut bytes = [0xffu8; 33];
    bytes[0] = 2;
    assert_eq!(PublicKey::from_bytes(&bytes), Err(PublicKeyParseError));
    let mut bad_tag = SecretKey::generate().public_key().bytes();
    bad_tag[0] = 7;
    assert_eq!(PublicKey::from_bytes(&bad_tag), Err(PublicKeyParseError));
}

#[test]
fn public_key_hex_round_trip() {
    let public = SecretKey::generate().public_key();
    let text = public.to_string();
    assert_eq!(text.len(), 66);
    assert_eq!(text, text.to_lowercase());
    assert_eq!(PublicKey::from_hex(&text).unwrap(), public);
    assert_eq!(PublicKey::from_hex(&text.to_uppercase()).unwrap(), public);
}

#[test]
fn public_key_hex_errors() {
    assert_eq!(PublicKey::from_hex("zz"), Err(PublicKeyParseError));
    assert_eq!(PublicKey::from_hex(&GENERATOR[..65]), Err(PublicKeyParseError));
    assert_eq!(PublicKey::from_hex(&GENERATOR[..64]), Err(PublicKeyParseError));
    assert!(GENERATOR.parse::<PublicKey>().is_ok());
}

#[test]
fn public_keys_compare_by_bytes() {
    let a = SecretKey::from_hex(ONE).unwrap().public_key();
    let b = PublicKey::from_hex(GENERATOR).unwrap();
    let c = SecretKey::generate().public_key();
    assert!(a == b);
    assert!(a != c);
    let mut set = std::collections::HashSet::new();
    set.insert(a);
    assert!(set.contains(&b));
}

#[test]
fn secret_key_derivation_is_pure() {
    let secret = SecretKey::generate();
    assert_eq!(secret.public_key(), secret.public_key());
    let copy = SecretKey::from_hex(&secret.to_string()).unwrap();
    assert!(copy == secret);
    assert_eq!(copy.public_key(), secret.public_key());
}

#[test]
fn secret_key_hex_errors() {
    let zero = "0".repeat(64);
    assert!(matches!(SecretKey::from_hex(&zero), Err(SecretKeyParseError)));
    assert!(matches!(SecretKey::from_hex(&ONE[2..]), Err(SecretKeyParseError)));
    assert!(matches!(SecretKey::from_hex("xyz"), Err(SecretKeyParseError)));
    let order = "fffffffffffffffffffffffffffffffebaaedce6af48a03bbfd25e8cd0364141";
    assert!(matches!(SecretKey::from_hex(order), Err(SecretKeyParseError)));
    assert!(ONE.parse::<SecretKey>().is_ok());
    let below_order = "fffffffffffffffffffffffffffffffebaaedce6af48a03bbfd25e8cd0364140";
    assert!(SecretKey::from_hex(below_order).is_ok());
}

#[test]
fn generated_secret_key_text_parses_back() {
    for _ in 0..20 {
        let secret = SecretKey::generate();
        let text = secret.to_string();
        assert_eq!(text.len(), 64);
        let parsed: SecretKey = text.parse().unwrap();
        assert!(parsed == secret);
        assert!(SecretKey::from_hex(&text.to_uppercase()).unwrap() == secret);
    }
}

#[test]
fn sign_verify_soundness() {
    let secret = SecretKey::generate();
    let public = secret.public_key();
    for m in [&b""[..], b"a", b"The quick brown fox jumps over the lazy dog"] {
        let sig = secret.sign(m);
        assert!(public.verify(m, &sig));
    }
}

#[test]
fn sign_verify_rejects_impostor() {
    let m = b"message";
    let sk1 = SecretKey::generate();
    let sk2 = SecretKey::generate();
    let pk2 = sk2.public_key();
    assert!(!pk2.verify(m, &sk1.sign(m)));
}

#[test]
fn verify_rejects_other_message() {
    let secret = SecretKey::generate();
    let sig = secret.sign(b"one");
    assert!(!secret.public_key().verify(b"two", &sig));
}

#[test]
fn signing_is_deterministic() {
    let secret = SecretKey::generate();
    assert_eq!(secret.sign(b"m").bytes(), secret.sign(b"m").bytes());
}

#[test]
fn signature_bytes_round_trip() {
    let secret = SecretKey::generate();
    let sig = secret.sign(b"payload");
    assert_eq!(sig.bytes().len(), 64);
    let again = Signature::from_bytes(sig.bytes()).unwrap();
    assert_eq!(again.bytes(), sig.bytes());
    assert!(secret.public_key().verify(b"payload", &again));
}

#[test]
fn signature_parse_errors() {
    assert!(matches!(Signature::from_bytes(&[0u8; 64]), Err(SignatureParseError)));
    assert!(matches!(Signature::from_bytes(&[1u8; 63]), Err(SignatureParseError)));
    assert!(matches!(Signature::from_bytes(&[0xffu8; 64]), Err(SignatureParseError)));
    assert!(Signature::from_bytes(&[1u8; 64]).is_ok());
}

#[test]
fn signature_hex_round_trip() {
    let secret = SecretKey::generate();
    let sig = secret.sign(b"payload");
    let text = sig.to_string();
    assert_eq!(text.len(), 128);
    assert_eq!(text, hex::encode(sig.bytes()));
    assert_eq!(Signature::from_hex(&text).unwrap().bytes(), sig.bytes());
    let parsed: Signature = text.to_uppercase().parse().unwrap();
    assert_eq!(parsed.bytes(), sig.bytes());
    assert!(matches!(Signature::from_hex("abc"), Err(SignatureParseError)));
}
