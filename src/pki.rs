//! Identities: secp256k1 key pairs, their byte and hexadecimal forms, and ECDSA
//! signatures over byte strings.
//!
//! Each type holds the canonical bytes of its value; the curve arithmetic is
//! done by the k256 crate, and what it computes is named by the spec functions
//! below.
use vstd::prelude::*;

use crate::encoding::{
    decode_hex, encode_hex, hex_bytes, hex_text, lemma_hex_round_trip, same_bytes, to_array,
};
use k256::ecdsa::signature::{Signer, Verifier};
use k256::elliptic_curve::sec1::ToEncodedPoint;

verus! {

/// The 33-byte compressed SEC1 encoding of the curve point that k256 decodes
/// from the SEC1 bytes `b`, or `None` where k256 rejects them.
pub uninterp spec fn sec1_point(b: Seq<u8>) -> Option<Seq<u8>>;

/// The compressed public key of the secret scalar `sk`.
pub uninterp spec fn public_of(sk: Seq<u8>) -> Seq<u8>;

/// The ECDSA signature (SHA-256 digest, RFC 6979 nonce, low `s`) of `msg`
/// under the secret scalar `sk`.
pub uninterp spec fn ecdsa_signature(sk: Seq<u8>, msg: Seq<u8>) -> Seq<u8>;

/// Whether the signature `sig` over `msg` verifies under the public key `pk`.
pub uninterp spec fn ecdsa_accepts(pk: Seq<u8>, msg: Seq<u8>, sig: Seq<u8>) -> bool;

/// `b` is the canonical encoding of a public key: 33 bytes of a compressed
/// SEC1 point that k256 decodes and encodes back to the same bytes.
pub open spec fn is_public_key_encoding(b: Seq<u8>) -> bool {
    b.len() == 33 && sec1_point(b) == Some(b)
}

/// The number that the big-endian bytes `b` spell.
pub open spec fn be_value(b: Seq<u8>) -> nat
    decreases b.len(),
{
    if b.len() == 0 {
        0
    } else {
        (be_value(b.drop_last()) * 256 + b.last()) as nat
    }
}

/// The order of the group of points of secp256k1.
pub open spec fn curve_order() -> nat {
    (0xfffffffffffffffffffffffffffffffe * (0x1_0000_0000_0000_0000 * 0x1_0000_0000_0000_0000)
        + 0xbaaedce6af48a03bbfd25e8cd0364141) as nat
}

/// `b` is 32 big-endian bytes of a nonzero number below the curve order.
pub open spec fn is_scalar_encoding(b: Seq<u8>) -> bool {
    b.len() == 32 && 0 < be_value(b) < curve_order()
}

/// `b` is the 32-byte big-endian encoding of a secret key.
pub open spec fn is_secret_key_encoding(b: Seq<u8>) -> bool {
    is_scalar_encoding(b)
}

/// `b` is the 64-byte encoding `r ‖ s` of a signature: both halves scalars.
pub open spec fn is_signature_encoding(b: Seq<u8>) -> bool {
    b.len() == 64 && is_scalar_encoding(b.subrange(0, 32)) && is_scalar_encoding(b.subrange(32, 64))
}

/// Relies on k256::PublicKey::from_sec1_bytes, which accepts a 33- or 65-byte
/// SEC1 point on the curve other than the identity, and on
/// `to_encoded_point(true)`, whose compressed form decodes to the same point.
#[verifier::external_body]
fn decode_point(b: &[u8]) -> (r: Option<[u8; 33]>)
    ensures
        match r {
            Some(c) => (b@.len() == 33 || b@.len() == 65) && sec1_point(b@) == Some(c@),
            None => (b@.len() == 33 || b@.len() == 65) ==> sec1_point(b@) is None,
        },
        r matches Some(c) ==> sec1_point(c@) == Some(c@),
{
    match k256::PublicKey::from_sec1_bytes(b) {
        Ok(key) => key.to_encoded_point(true).as_bytes().try_into().ok(),
        Err(_) => None,
    }
}

/// Relies on k256::SecretKey::public_key, compressed by `to_encoded_point(true)`.
#[verifier::external_body]
fn derive_public(sk: &[u8; 32]) -> (r: [u8; 33])
    requires
        is_secret_key_encoding(sk@),
    ensures
        r@ == public_of(sk@),
        sec1_point(r@) == Some(r@),
{
    let key = k256::SecretKey::from_be_bytes(sk).expect("secret scalar was checked");
    let point = key.public_key().to_encoded_point(true);
    point.as_bytes().try_into().expect("a compressed point is 33 bytes")
}

/// Relies on k256::SecretKey::from_be_bytes: exactly 32 bytes holding a nonzero
/// scalar below the group order.
#[verifier::external_body]
fn check_secret_scalar(b: &[u8]) -> (r: bool)
    ensures
        r == is_secret_key_encoding(b@),
{
    k256::SecretKey::from_be_bytes(b).is_ok()
}

/// Relies on k256::SecretKey::random, drawing from rand's thread-local
/// generator: always a valid secret scalar.
#[verifier::external_body]
fn random_secret_scalar() -> (r: [u8; 32])
    ensures
        is_secret_key_encoding(r@),
{
    k256::SecretKey::random(rand::thread_rng()).to_be_bytes().into()
}

/// Relies on k256's `Signer::sign` for `SigningKey`: deterministic ECDSA over
/// the SHA-256 digest, normalised to low `s`, which k256's verifier accepts
/// under the matching public key. k256 fails (and `sign` panics) only when a
/// component of the signature comes out zero, which happens with negligible
/// probability.
#[verifier::external_body]
fn ecdsa_sign(sk: &[u8; 32], msg: &[u8]) -> (r: [u8; 64])
    requires
        is_secret_key_encoding(sk@),
    ensures
        r@ == ecdsa_signature(sk@, msg@),
        is_signature_encoding(r@),
        ecdsa_accepts(public_of(sk@), msg@, r@),
{
    let key = k256::SecretKey::from_be_bytes(sk).expect("secret scalar was checked");
    let sig: k256::ecdsa::Signature = k256::ecdsa::SigningKey::from(&key).sign(msg);
    k256::ecdsa::signature::Signature::as_bytes(&sig).try_into().expect("64 bytes")
}

/// Relies on k256's `Verifier::verify` for `VerifyingKey`, with the key and the
/// signature decoded from their bytes.
#[verifier::external_body]
fn ecdsa_verify(pk: &[u8; 33], msg: &[u8], sig: &[u8; 64]) -> (r: bool)
    ensures
        r == ecdsa_accepts(pk@, msg@, sig@),
{
    match (k256::PublicKey::from_sec1_bytes(pk), k256::ecdsa::Signature::try_from(&sig[..])) {
        (Ok(key), Ok(s)) => k256::ecdsa::VerifyingKey::from(&key).verify(msg, &s).is_ok(),
        _ => false,
    }
}

/// Relies on `TryFrom<&[u8]>` for k256::ecdsa::Signature: exactly 64 bytes whose
/// halves are nonzero scalars below the group order.
#[verifier::external_body]
fn check_signature(b: &[u8]) -> (r: bool)
    ensures
        r == is_signature_encoding(b@),
{
    k256::ecdsa::Signature::try_from(b).is_ok()
}

/// The bytes did not encode a public key.
#[derive(Debug, PartialEq, Eq)]
pub struct PublicKeyParseError;

/// The bytes did not encode a secret key.
#[derive(Debug, PartialEq, Eq)]
pub struct SecretKeyParseError;

/// The bytes did not encode a signature.
#[derive(Debug, PartialEq, Eq)]
pub struct SignatureParseError;

/// A public key: a point of secp256k1, held as its 33-byte compressed encoding.
/// Two keys are equal exactly when their encodings are.
#[derive(Debug, Clone, Copy, Eq, Hash)]
pub struct PublicKey {
    bytes: [u8; 33],
}

impl View for PublicKey {
    type V = Seq<u8>;

    closed spec fn view(&self) -> Seq<u8> {
        self.bytes@
    }
}

impl PublicKey {
    #[verifier::type_invariant]
    spec fn inv(&self) -> bool {
        is_public_key_encoding(self.bytes@)
    }

    /// The compressed encoding; it decodes back to this key.
    pub fn bytes(&self) -> (r: [u8; 33])
        ensures
            r@ == self@,
            is_public_key_encoding(r@),
    {
        proof {
            use_type_invariant(self);
        }
        self.bytes
    }

    /// Decodes the canonical 33-byte compressed encoding of a key; any other
    /// input, including other SEC1 forms of a valid point, is refused.
    pub fn from_bytes(bytes: &[u8]) -> (r: Result<Self, PublicKeyParseError>)
        ensures
            match r {
                Ok(key) => is_public_key_encoding(bytes@) && key@ == bytes@,
                Err(_) => !is_public_key_encoding(bytes@),
            },
    {
        if bytes.len() != 33 {
            return Err(PublicKeyParseError);
        }
        match decode_point(bytes) {
            Some(c) => {
                if same_bytes(c.as_slice(), bytes) {
                    Ok(PublicKey { bytes: c })
                } else {
                    Err(PublicKeyParseError)
                }
            },
            None => Err(PublicKeyParseError),
        }
    }

    /// Whether `signature` is a signature over exactly `bytes` by this key's
    /// secret key.
    pub fn verify(&self, bytes: &[u8], signature: &Signature) -> (r: bool)
        ensures
            r == ecdsa_accepts(self@, bytes@, signature@),
    {
        ecdsa_verify(&self.bytes, bytes, &signature.bytes)
    }

    /// The lowercase hexadecimal text of the compressed encoding; it decodes back to
    /// those bytes.
    pub fn to_string(&self) -> (r: String)
        ensures
            r@ == hex_text(self@),
            hex_bytes(r@) == Some(self@),
            is_public_key_encoding(self@),
    {
        proof {
            use_type_invariant(self);
            lemma_hex_round_trip(self@);
        }
        encode_hex(self.bytes.as_slice())
    }

    /// Decodes hexadecimal text, then the point it spells.
    pub fn from_hex(s: &str) -> (r: Result<Self, PublicKeyParseError>)
        ensures
            match hex_bytes(s@) {
                Some(b) => match r {
                    Ok(key) => is_public_key_encoding(b) && key@ == b,
                    Err(_) => !is_public_key_encoding(b),
                },
                None => r is Err,
            },
    {
        match decode_hex(s) {
            Some(b) => Self::from_bytes(b.as_slice()),
            None => Err(PublicKeyParseError),
        }
    }
}

impl PartialEq for PublicKey {
    fn eq(&self, other: &Self) -> (r: bool)
        ensures
            r == (self@ == other@),
    {
        same_bytes(self.bytes.as_slice(), other.bytes.as_slice())
    }
}

impl vstd::std_specs::cmp::PartialEqSpecImpl for PublicKey {
    open spec fn obeys_eq_spec() -> bool {
        true
    }

    open spec fn eq_spec(&self, other: &PublicKey) -> bool {
        self@ == other@
    }
}

impl std::str::FromStr for PublicKey {
    type Err = PublicKeyParseError;

    /// Decodes hexadecimal text, then the key's canonical encoding.
    fn from_str(s: &str) -> (r: Result<Self, Self::Err>)
        ensures
            match hex_bytes(s@) {
                Some(b) => match r {
                    Ok(key) => is_public_key_encoding(b) && key@ == b,
                    Err(_) => !is_public_key_encoding(b),
                },
                None => r is Err,
            },
    {
        Self::from_hex(s)
    }
}

/// A secret key: a nonzero scalar below the order of secp256k1, held as its
/// 32 big-endian bytes.
pub struct SecretKey {
    bytes: [u8; 32],
}

impl View for SecretKey {
    type V = Seq<u8>;

    closed spec fn view(&self) -> Seq<u8> {
        self.bytes@
    }
}

impl SecretKey {
    #[verifier::type_invariant]
    spec fn inv(&self) -> bool {
        is_secret_key_encoding(self.bytes@)
    }

    /// A fresh secret key from a cryptographically secure generator.
    pub fn generate() -> (r: Self)
        ensures
            is_secret_key_encoding(r@),
    {
        SecretKey { bytes: random_secret_scalar() }
    }

    /// The public key that this secret key determines.
    pub fn public_key(&self) -> (r: PublicKey)
        ensures
            r@ == public_of(self@),
            is_public_key_encoding(r@),
            is_secret_key_encoding(self@),
    {
        proof {
            use_type_invariant(self);
        }
        PublicKey { bytes: derive_public(&self.bytes) }
    }

    /// Signs exactly `bytes`; the signature verifies under this key's public key.
    pub fn sign(&self, bytes: &[u8]) -> (r: Signature)
        ensures
            r@ == ecdsa_signature(self@, bytes@),
            is_signature_encoding(r@),
            ecdsa_accepts(public_of(self@), bytes@, r@),
    {
        proof {
            use_type_invariant(self);
        }
        Signature { bytes: ecdsa_sign(&self.bytes, bytes) }
    }

    /// The lowercase hexadecimal text of the 32 big-endian bytes; it decodes back to
    /// those bytes.
    pub fn to_string(&self) -> (r: String)
        ensures
            r@ == hex_text(self@),
            hex_bytes(r@) == Some(self@),
            is_secret_key_encoding(self@),
    {
        proof {
            use_type_invariant(self);
            lemma_hex_round_trip(self@);
        }
        encode_hex(self.bytes.as_slice())
    }

    /// Decodes hexadecimal text of 32 big-endian bytes.
    pub fn from_hex(s: &str) -> (r: Result<Self, SecretKeyParseError>)
        ensures
            match hex_bytes(s@) {
                Some(b) => match r {
                    Ok(key) => is_secret_key_encoding(b) && key@ == b,
                    Err(_) => !is_secret_key_encoding(b),
                },
                None => r is Err,
            },
    {
        match decode_hex(s) {
            Some(b) => {
                if check_secret_scalar(b.as_slice()) {
                    Ok(SecretKey { bytes: to_array(b.as_slice()) })
                } else {
                    Err(SecretKeyParseError)
                }
            },
            None => Err(SecretKeyParseError),
        }
    }
}

impl Clone for SecretKey {
    fn clone(&self) -> (r: Self)
        ensures
            r@ == self@,
    {
        proof {
            use_type_invariant(self);
        }
        SecretKey { bytes: self.bytes }
    }
}

impl PartialEq for SecretKey {
    fn eq(&self, other: &Self) -> (r: bool)
        ensures
            r == (self@ == other@),
    {
        same_bytes(self.bytes.as_slice(), other.bytes.as_slice())
    }
}

impl vstd::std_specs::cmp::PartialEqSpecImpl for SecretKey {
    open spec fn obeys_eq_spec() -> bool {
        true
    }

    open spec fn eq_spec(&self, other: &SecretKey) -> bool {
        self@ == other@
    }
}

impl std::str::FromStr for SecretKey {
    type Err = SecretKeyParseError;

    /// Decodes hexadecimal text of 32 big-endian bytes.
    fn from_str(s: &str) -> (r: Result<Self, Self::Err>)
        ensures
            match hex_bytes(s@) {
                Some(b) => match r {
                    Ok(key) => is_secret_key_encoding(b) && key@ == b,
                    Err(_) => !is_secret_key_encoding(b),
                },
                None => r is Err,
            },
    {
        Self::from_hex(s)
    }
}

/// An ECDSA signature, held as its 64 bytes `r ‖ s`.
#[derive(Debug, Clone, Copy)]
pub struct Signature {
    bytes: [u8; 64],
}

impl View for Signature {
    type V = Seq<u8>;

    closed spec fn view(&self) -> Seq<u8> {
        self.bytes@
    }
}

impl Signature {
    #[verifier::type_invariant]
    spec fn inv(&self) -> bool {
        is_signature_encoding(self.bytes@)
    }

    /// The 64 bytes; they decode back to this signature.
    pub fn bytes(&self) -> (r: &[u8])
        ensures
            r@ == self@,
            is_signature_encoding(r@),
    {
        proof {
            use_type_invariant(self);
        }
        self.bytes.as_slice()
    }

    /// Decodes 64 bytes `r ‖ s`.
    pub fn from_bytes(bytes: &[u8]) -> (r: Result<Self, SignatureParseError>)
        ensures
            match r {
                Ok(sig) => is_signature_encoding(bytes@) && sig@ == bytes@,
                Err(_) => !is_signature_encoding(bytes@),
            },
    {
        if check_signature(bytes) {
            Ok(Signature { bytes: to_array(bytes) })
        } else {
            Err(SignatureParseError)
        }
    }

    /// The lowercase hexadecimal text of the 64 bytes; it decodes back to
    /// those bytes.
    pub fn to_string(&self) -> (r: String)
        ensures
            r@ == hex_text(self@),
            hex_bytes(r@) == Some(self@),
            is_signature_encoding(self@),
    {
        proof {
            use_type_invariant(self);
            lemma_hex_round_trip(self@);
        }
        encode_hex(self.bytes.as_slice())
    }

    /// Decodes hexadecimal text of 64 bytes.
    pub fn from_hex(s: &str) -> (r: Result<Self, SignatureParseError>)
        ensures
            match hex_bytes(s@) {
                Some(b) => match r {
                    Ok(sig) => is_signature_encoding(b) && sig@ == b,
                    Err(_) => !is_signature_encoding(b),
                },
                None => r is Err,
            },
    {
        match decode_hex(s) {
            Some(b) => Self::from_bytes(b.as_slice()),
            None => Err(SignatureParseError),
        }
    }
}

impl std::str::FromStr for Signature {
    type Err = SignatureParseError;

    /// Decodes hexadecimal text of 64 bytes.
    fn from_str(s: &str) -> (r: Result<Self, Self::Err>)
        ensures
            match hex_bytes(s@) {
                Some(b) => match r {
                    Ok(sig) => is_signature_encoding(b) && sig@ == b,
                    Err(_) => !is_signature_encoding(b),
                },
                None => r is Err,
            },
    {
        Self::from_hex(s)
    }
}

} // verus!
