//! Challenge-response authentication of a peer over one ordered duplex
//! connection.
//!
//! The responder waits for the peer's public key, answers with a fresh
//! challenge, and accepts the peer once it returns a signature of exactly that
//! challenge under the key it presented. The initiator sends its public key
//! first and signs the challenge it receives. Every message that does not fit
//! the current state ends the connection. Each side is a value advanced by one
//! call per inbound message; the caller performs what the step asks for.
use vstd::prelude::*;

use crate::encoding::{append_bytes, to_array};
use crate::pki::{
    ecdsa_accepts, ecdsa_signature, is_public_key_encoding, is_signature_encoding, public_of,
    PublicKey, SecretKey, Signature,
};
use rand::Rng;

verus! {

/// Relies on rand::thread_rng, a cryptographically secure generator, to fill
/// 32 bytes; nothing is known of their values.
#[verifier::external_body]
fn random_nonce() -> (r: [u8; 32]) {
    let mut nonce = [0u8; 32];
    rand::thread_rng().fill(&mut nonce[..]);
    nonce
}

/// The bytes were not exactly 32 long.
#[derive(Debug, PartialEq, Eq)]
pub struct ChallengeParseError;

/// A single-use 32-byte nonce that a peer signs to prove possession of its
/// secret key.
#[derive(Debug, Clone, Copy)]
pub struct Challenge {
    bytes: [u8; 32],
}

impl View for Challenge {
    type V = Seq<u8>;

    closed spec fn view(&self) -> Seq<u8> {
        self.bytes@
    }
}

impl Challenge {
    /// A fresh challenge from a cryptographically secure generator.
    pub fn new() -> (r: Self)
        ensures
            r@.len() == 32,
    {
        Challenge { bytes: random_nonce() }
    }

    /// Signs the 32 challenge bytes, and nothing else.
    pub fn sign(&self, secret_key: &SecretKey) -> (r: Signature)
        ensures
            r@ == ecdsa_signature(secret_key@, self@),
            is_signature_encoding(r@),
            ecdsa_accepts(public_of(secret_key@), self@, r@),
    {
        secret_key.sign(self.bytes.as_slice())
    }

    /// Whether `signature` signs exactly these 32 bytes under `public_key`.
    pub fn verify(&self, public_key: &PublicKey, signature: &Signature) -> (r: bool)
        ensures
            r == ecdsa_accepts(public_key@, self@, signature@),
    {
        public_key.verify(self.bytes.as_slice(), signature)
    }

    /// The 32 bytes.
    pub fn bytes(&self) -> (r: [u8; 32])
        ensures
            r@ == self@,
    {
        self.bytes
    }

    /// Takes exactly 32 bytes as a challenge.
    pub fn from_bytes(bytes: &[u8]) -> (r: Result<Self, ChallengeParseError>)
        ensures
            match r {
                Ok(c) => bytes@.len() == 32 && c@ == bytes@,
                Err(_) => bytes@.len() != 32,
            },
    {
        if bytes.len() == 32 {
            Ok(Challenge { bytes: to_array(bytes) })
        } else {
            Err(ChallengeParseError)
        }
    }
}

impl Default for Challenge {
    fn default() -> (r: Self)
        ensures
            r@.len() == 32,
    {
        Self::new()
    }
}

/// Handshake state of the side that authenticates its peer.
#[derive(Debug)]
pub enum Responder {
    /// Nothing received yet: the first message must be the peer's public key.
    WaitingForPeerKey,
    /// The peer claimed this key and was sent this challenge: the next message
    /// must be its signature of the challenge.
    WaitingForSignature(PublicKey, Challenge),
    /// The peer proved possession of this key's secret key.
    Authenticated(PublicKey),
}

/// What the responder does after one inbound message.
#[derive(Debug)]
pub enum ResponderStep {
    /// Send `challenge` to the peer and go on in `state`.
    Challenged { state: Responder, challenge: [u8; 32] },
    /// The peer is authenticated; nothing to send.
    Accepted { state: Responder },
    /// Application content from the authenticated peer `from`.
    Content { state: Responder, from: PublicKey, content: Vec<u8> },
    /// The message violates the protocol: close the connection.
    Close,
}

/// The responder in state `s`, given the message `msg`, takes the step `r`.
pub open spec fn responder_step(s: Responder, msg: Seq<u8>, r: ResponderStep) -> bool {
    match s {
        Responder::WaitingForPeerKey => if is_public_key_encoding(msg) {
            r matches ResponderStep::Challenged {
                state: Responder::WaitingForSignature(pk, c),
                challenge,
            } && pk@ == msg && c@ == challenge@
        } else {
            r is Close
        },
        Responder::WaitingForSignature(pk, c) => if is_signature_encoding(msg) && ecdsa_accepts(
            pk@,
            c@,
            msg,
        ) {
            r matches ResponderStep::Accepted { state: Responder::Authenticated(k) } && k == pk
        } else {
            r is Close
        },
        Responder::Authenticated(pk) => r matches ResponderStep::Content {
            state: Responder::Authenticated(k),
            from,
            content,
        } && k == pk && from == pk && content@ == msg,
    }
}

impl Responder {
    /// A responder that has received nothing yet.
    pub fn new() -> (r: Self)
        ensures
            r is WaitingForPeerKey,
    {
        Responder::WaitingForPeerKey
    }

    /// Advances the handshake by the inbound message `msg`.
    pub fn receive(self, msg: &[u8]) -> (r: ResponderStep)
        ensures
            responder_step(self, msg@, r),
    {
        match self {
            Responder::WaitingForPeerKey => match PublicKey::from_bytes(msg) {
                Ok(pk) => {
                    let challenge = Challenge::new();
                    ResponderStep::Challenged {
                        state: Responder::WaitingForSignature(pk, challenge),
                        challenge: challenge.bytes(),
                    }
                },
                Err(_) => ResponderStep::Close,
            },
            Responder::WaitingForSignature(pk, challenge) => match Signature::from_bytes(msg) {
                Ok(sig) => {
                    if challenge.verify(&pk, &sig) {
                        ResponderStep::Accepted { state: Responder::Authenticated(pk) }
                    } else {
                        ResponderStep::Close
                    }
                },
                Err(_) => ResponderStep::Close,
            },
            Responder::Authenticated(pk) => {
                let mut content: Vec<u8> = Vec::new();
                append_bytes(&mut content, msg);
                ResponderStep::Content { state: Responder::Authenticated(pk), from: pk, content }
            },
        }
    }
}

/// Handshake state of the side that proves its identity.
#[derive(Debug)]
pub enum Initiator {
    /// The public key was sent: the next message must be a challenge.
    WaitingForChallenge,
    /// The challenge was signed: everything else is content from the peer.
    Authenticated,
}

/// What the initiator does after one inbound message.
#[derive(Debug)]
pub enum InitiatorStep {
    /// Send the bytes of `signature` to the peer and go on in `state`.
    Respond { state: Initiator, signature: Signature },
    /// Application content from the peer.
    Content { state: Initiator, content: Vec<u8> },
    /// The message violates the protocol: close the connection.
    Close,
}

/// The initiator with secret key `sk`, in state `s`, given the message `msg`,
/// takes the step `r`.
pub open spec fn initiator_step(s: Initiator, sk: Seq<u8>, msg: Seq<u8>, r: InitiatorStep) -> bool {
    match s {
        Initiator::WaitingForChallenge => if msg.len() == 32 {
            r matches InitiatorStep::Respond { state: Initiator::Authenticated, signature }
                && signature@ == ecdsa_signature(sk, msg) && is_signature_encoding(signature@)
                && ecdsa_accepts(public_of(sk), msg, signature@)
        } else {
            r is Close
        },
        Initiator::Authenticated => r matches InitiatorStep::Content {
            state: Initiator::Authenticated,
            content,
        } && content@ == msg,
    }
}

impl Initiator {
    /// Opens the handshake: the public key bytes to send before anything else,
    /// and the state that waits for the challenge.
    pub fn start(secret_key: &SecretKey) -> (r: (Initiator, [u8; 33]))
        ensures
            r.0 is WaitingForChallenge,
            r.1@ == public_of(secret_key@),
            is_public_key_encoding(r.1@),
    {
        let public_key = secret_key.public_key();
        (Initiator::WaitingForChallenge, public_key.bytes())
    }

    /// Advances the handshake by the inbound message `msg`, signing with
    /// `secret_key`.
    pub fn receive(self, msg: &[u8], secret_key: &SecretKey) -> (r: InitiatorStep)
        ensures
            initiator_step(self, secret_key@, msg@, r),
    {
        match self {
            Initiator::WaitingForChallenge => match Challenge::from_bytes(msg) {
                Ok(challenge) => InitiatorStep::Respond {
                    state: Initiator::Authenticated,
                    signature: challenge.sign(secret_key),
                },
                Err(_) => InitiatorStep::Close,
            },
            Initiator::Authenticated => {
                let mut content: Vec<u8> = Vec::new();
                append_bytes(&mut content, msg);
                InitiatorStep::Content { state: Initiator::Authenticated, content }
            },
        }
    }
}

/// A handshake between honest parties succeeds: the responder decodes the
/// initiator's opening message to the initiator's public key, the initiator
/// answers the challenge it is sent, and the responder then accepts the peer as
/// that key.
pub proof fn lemma_handshake_succeeds(
    sk: Seq<u8>,
    opening: Seq<u8>,
    first: ResponderStep,
    answer: InitiatorStep,
    second: ResponderStep,
)
    requires
        opening == public_of(sk),
        is_public_key_encoding(opening),
        responder_step(Responder::WaitingForPeerKey, opening, first),
        first matches ResponderStep::Challenged { state, challenge } && (initiator_step(
            Initiator::WaitingForChallenge,
            sk,
            challenge@,
            answer,
        ) && (answer matches InitiatorStep::Respond { signature, .. } && responder_step(
            state,
            signature@,
            second,
        ))),
    ensures
        first matches ResponderStep::Challenged {
            state: Responder::WaitingForSignature(pk, _),
            ..
        } && pk@ == public_of(sk),
        second matches ResponderStep::Accepted { state: Responder::Authenticated(pk) } && pk@
            == public_of(sk),
{
}

/// A signature that does not verify under the key the peer presented ends the
/// connection: the peer is never authenticated.
pub proof fn lemma_unverified_signature_closes(
    pk: PublicKey,
    challenge: Challenge,
    msg: Seq<u8>,
    r: ResponderStep,
)
    requires
        !ecdsa_accepts(pk@, challenge@, msg),
        responder_step(Responder::WaitingForSignature(pk, challenge), msg, r),
    ensures
        r is Close,
{
}

/// An opening message that cannot be a public key (not 33 bytes long) ends the
/// connection before any challenge is issued.
pub proof fn lemma_malformed_peer_key_closes(msg: Seq<u8>, r: ResponderStep)
    requires
        msg.len() != 33,
        responder_step(Responder::WaitingForPeerKey, msg, r),
    ensures
        r is Close,
{
}

} // verus!
