use muruchat::handshake::{
    Challenge, ChallengeParseError, Initiator, InitiatorStep, Responder, ResponderStep,
};
use muruchat::pki::{PublicKey, SecretKey};
use rand::Rng;

#[test]
fn test_handshake_success() {
    let secret = SecretKey::generate();
    let public = secret.public_key();

    let challenge = Challenge::new();
    let sig = challenge.sign(&secret);
    let verified = challenge.verify(&public, &sig);

    assert!(verified);
}

#[test]
fn test_handshake_fail() {
    let secret = SecretKey::generate();
    let public = SecretKey::generate().public_key(); // public key from a different private key

    let challenge = Challenge::new();
    let sig = challenge.sign(&secret);
    let verified = challenge.verify(&public, &sig);

    assert!(!verified);
}

#[test]
fn challenge_bytes_round_trip() {
    let challenge = Challenge::new();
    let again = Challenge::from_bytes(&challenge.bytes()).unwrap();
    assert_eq!(again.bytes(), challenge.bytes());
    assert_eq!(Challenge::from_bytes(&[9u8; 32]).unwrap().bytes(), [9u8; 32]);
}

#[test]
fn challenge_rejects_wrong_length() {
    assert_eq!(Challenge::from_bytes(&[0u8; 31]).unwrap_err(), ChallengeParseError);
    assert_eq!(Challenge::from_bytes(&[0u8; 33]).unwrap_err(), ChallengeParseError);
    assert_eq!(Challenge::from_bytes(&[]).unwrap_err(), ChallengeParseError);
}

#[test]
fn challenges_do_not_repeat() {
    let mut seen = std::collections::HashSet::new();
    for _ in 0..10_000 {
        assert!(seen.insert(Challenge::new().bytes()));
    }
    assert!(seen.insert(Challenge::default().bytes()));
}

#[test]
fn challenge_signature_is_bound_to_its_bytes() {
    let secret = SecretKey::generate();
    let a = Challenge::new();
    let b = Challenge::new();
    assert!(!b.verify(&secret.public_key(), &a.sign(&secret)));
}

#[test]
fn handshake_happy_path() {
    let secret = SecretKey::generate();
    let (initiator, opening) = Initiator::start(&secret);
    assert_eq!(opening.len(), 33);

    let (responder, challenge) = match Responder::new().receive(&opening) {
        ResponderStep::Challenged { state, challenge } => (state, challenge),
        other => panic!("expected a challenge, got {:?}", other),
    };
    assert_eq!(challenge.len(), 32);

    let (initiator, signature) = match initiator.receive(&challenge, &secret) {
        InitiatorStep::Respond { state, signature } => (state, signature),
        other => panic!("expected a signature, got {:?}", other),
    };
    let peer: PublicKey = secret.public_key();
    assert!(Challenge::from_bytes(&challenge).unwrap().verify(&peer, &signature));

    let responder = match responder.receive(signature.bytes()) {
        ResponderStep::Accepted { state } => state,
        other => panic!("expected acceptance, got {:?}", other),
    };
    assert!(matches!(responder, Responder::Authenticated(ref k) if *k == peer));

    match responder.receive(b"World") {
        ResponderStep::Content { state, from, content } => {
            assert_eq!(from, peer);
            assert_eq!(content, b"World".to_vec());
            assert!(matches!(state, Responder::Authenticated(ref k) if *k == peer));
        }
        other => panic!("expected content, got {:?}", other),
    }

    match initiator.receive(b"Hello, World!", &secret) {
        InitiatorStep::Content { state, content } => {
            assert_eq!(content, b"Hello, World!".to_vec());
            assert!(matches!(state, Initiator::Authenticated));
        }
        other => panic!("expected content, got {:?}", other),
    }
}

#[test]
fn handshake_rejects_signature_by_other_key() {
    let presented = SecretKey::generate();
    let impostor = SecretKey::generate();
    let (_, opening) = Initiator::start(&presented);
    let (responder, challenge) = match Responder::new().receive(&opening) {
        ResponderStep::Challenged { state, challenge } => (state, challenge),
        other => panic!("expected a challenge, got {:?}", other),
    };
    let forged = Challenge::from_bytes(&challenge).unwrap().sign(&impostor);
    assert!(matches!(responder.receive(forged.bytes()), ResponderStep::Close));
}

#[test]
fn handshake_rejects_malformed_peer_key() {
    let mut noise = [0u8; 10];
    rand::thread_rng().fill(&mut noise[..]);
    assert!(matches!(Responder::new().receive(&noise), ResponderStep::Close));
}

#[test]
fn handshake_rejects_malformed_signature() {
    let secret = SecretKey::generate();
    let (_, opening) = Initiator::start(&secret);
    let responder = match Responder::new().receive(&opening) {
        ResponderStep::Challenged { state, .. } => state,
        other => panic!("expected a challenge, got {:?}", other),
    };
    assert!(matches!(responder.receive(&[1u8; 10]), ResponderStep::Close));
}

#[test]
fn initiator_rejects_malformed_challenge() {
    let secret = SecretKey::generate();
    let (initiator, _) = Initiator::start(&secret);
    assert!(matches!(initiator.receive(&[0u8; 31], &secret), InitiatorStep::Close));
}

#[test]
fn initiator_signs_the_challenge() {
    let secret = SecretKey::generate();
    let (initiator, opening) = Initiator::start(&secret);
    assert_eq!(opening, secret.public_key().bytes());
    let challenge = Challenge::new();
    match initiator.receive(&challenge.bytes(), &secret) {
        InitiatorStep::Respond { signature, .. } => {
            assert_eq!(signature.bytes(), challenge.sign(&secret).bytes());
        }
        other => panic!("expected a signature, got {:?}", other),
    }
}
