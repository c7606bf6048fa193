//! Envelopes: content addressed from one identity to another, signed by the
//! sender over recipient, sender and content together.
use vstd::prelude::*;
use vstd::utf8::{decode_utf8, encode_utf8, valid_utf8};

use crate::encoding::append_bytes;
use crate::pki::{
    ecdsa_accepts, ecdsa_signature, public_of, PublicKey, SecretKey, Signature,
};

verus! {

/// The bytes that an envelope's signature covers: recipient, then sender, then
/// content.
pub open spec fn envelope_material(to: Seq<u8>, from: Seq<u8>, content: Seq<u8>) -> Seq<u8> {
    to + from + content
}

/// The signature `sig` verifies under the sender `from` over the recipient `to`,
/// the sender and the content.
pub open spec fn envelope_authentic(to: Seq<u8>, from: Seq<u8>, content: Seq<u8>, sig: Seq<u8>) -> bool {
    ecdsa_accepts(from, envelope_material(to, from, content), sig)
}

/// The signed bytes determine the triple: for 33-byte public keys, where
/// recipient, sender or content differ, so do the bytes, and a signature made
/// for one triple is not one made for another.
pub proof fn lemma_envelope_material_binds(
    to1: Seq<u8>,
    from1: Seq<u8>,
    content1: Seq<u8>,
    to2: Seq<u8>,
    from2: Seq<u8>,
    content2: Seq<u8>,
)
    requires
        to1.len() == 33,
        from1.len() == 33,
        to2.len() == 33,
        from2.len() == 33,
        envelope_material(to1, from1, content1) == envelope_material(to2, from2, content2),
    ensures
        to1 == to2,
        from1 == from2,
        content1 == content2,
{
    let m = envelope_material(to1, from1, content1);
    assert(to1 =~= m.subrange(0, 33));
    assert(to2 =~= m.subrange(0, 33));
    assert(from1 =~= m.subrange(33, 66));
    assert(from2 =~= m.subrange(33, 66));
    assert(content1 =~= m.subrange(66, m.len() as int));
    assert(content2 =~= m.subrange(66, m.len() as int));
}

/// The content of an envelope made from text is well-formed UTF-8 and decodes
/// to that text, so `decrypt` gives back what `new` was given.
pub proof fn lemma_text_content_round_trip(text: Seq<char>)
    ensures
        valid_utf8(encode_utf8(text)),
        decode_utf8(encode_utf8(text)) == text,
{
    vstd::utf8::encode_utf8_valid_utf8(text);
    vstd::utf8::encode_utf8_decode_utf8(text);
}

/// Relies on std::str::from_utf8, which accepts exactly well-formed UTF-8 and
/// yields the characters it encodes.
#[verifier::external_body]
fn utf8_text(b: &[u8]) -> (r: Option<String>)
    ensures
        match r {
            Some(s) => valid_utf8(b@) && s@ == decode_utf8(b@),
            None => !valid_utf8(b@),
        },
{
    std::str::from_utf8(b).ok().map(|s| s.to_string())
}

/// The content of an envelope is not UTF-8 text.
#[derive(Debug, PartialEq, Eq)]
pub struct DecodeError;

/// A signed envelope from `from` to `to`.
///
/// The content is carried as it was written: no confidentiality is provided,
/// only authenticity of the (recipient, sender, content) triple.
#[derive(Debug)]
pub struct Message {
    pub to: PublicKey,
    pub from: PublicKey,
    pub ciphertext: Vec<u8>,
    pub signature: Signature,
}

impl Message {
    /// An envelope of `plaintext` for `to`, signed with `secret_key`.
    pub fn new(to: &PublicKey, secret_key: &SecretKey, plaintext: &str) -> (r: Self)
        ensures
            r.to == *to,
            r.from@ == public_of(secret_key@),
            r.ciphertext@ == encode_utf8(plaintext@),
            r.signature@ == ecdsa_signature(
                secret_key@,
                envelope_material(r.to@, r.from@, r.ciphertext@),
            ),
            envelope_authentic(r.to@, r.from@, r.ciphertext@, r.signature@),
    {
        let mut ciphertext: Vec<u8> = Vec::new();
        append_bytes(&mut ciphertext, plaintext.as_bytes());
        let from = secret_key.public_key();
        let material = Self::sig_material(to, &from, ciphertext.as_slice());
        let signature = secret_key.sign(material.as_slice());
        Message { to: *to, from, ciphertext, signature }
    }

    /// An envelope as received: recipient, sender, content and signature taken
    /// as they are, to be checked with `verify` before the content is trusted.
    pub fn from_parts(to: PublicKey, from: PublicKey, ciphertext: Vec<u8>, signature: Signature) -> (r: Self)
        ensures
            r.to == to,
            r.from == from,
            r.ciphertext@ == ciphertext@,
            r.signature@ == signature@,
    {
        Message { to, from, ciphertext, signature }
    }

    /// The content bytes.
    pub fn ciphertext(&self) -> (r: &[u8])
        ensures
            r@ == self.ciphertext@,
    {
        self.ciphertext.as_slice()
    }

    /// The signature.
    pub fn signature(&self) -> (r: &Signature)
        ensures
            r@ == self.signature@,
    {
        &self.signature
    }

    /// Whether the signature covers the recorded recipient, sender and content
    /// under the recorded sender's key.
    pub fn verify(&self) -> (r: bool)
        ensures
            r == envelope_authentic(
                self.to@,
                self.from@,
                self.ciphertext@,
                self.signature@,
            ),
    {
        let material = Self::sig_material(&self.to, &self.from, self.ciphertext.as_slice());
        self.from.verify(material.as_slice(), &self.signature)
    }

    /// The content as text.
    pub fn decrypt(&self) -> (r: Result<String, DecodeError>)
        ensures
            match r {
                Ok(s) => valid_utf8(self.ciphertext@) && s@ == decode_utf8(self.ciphertext@),
                Err(_) => !valid_utf8(self.ciphertext@),
            },
    {
        match utf8_text(self.ciphertext.as_slice()) {
            Some(s) => Ok(s),
            None => Err(DecodeError),
        }
    }

    fn sig_material(to: &PublicKey, from: &PublicKey, ciphertext: &[u8]) -> (r: Vec<u8>)
        ensures
            r@ == envelope_material(to@, from@, ciphertext@),
    {
        let mut material: Vec<u8> = Vec::new();
        append_bytes(&mut material, to.bytes().as_slice());
        append_bytes(&mut material, from.bytes().as_slice());
        append_bytes(&mut material, ciphertext);
        material
    }
}

} // verus!
