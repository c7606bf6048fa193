//! The local user's identity: a secret key and the public key it determines.
use vstd::prelude::*;

use crate::pki::{is_secret_key_encoding, public_of, PublicKey, SecretKey};

verus! {

/// The identity that this side of a conversation signs with.
pub struct User {
    secret_key: SecretKey,
    public_key: PublicKey,
}

impl User {
    /// The secret key's bytes.
    pub closed spec fn secret(&self) -> Seq<u8> {
        self.secret_key@
    }

    /// The public key's bytes.
    pub closed spec fn public(&self) -> Seq<u8> {
        self.public_key@
    }

    #[verifier::type_invariant]
    spec fn inv(&self) -> bool {
        self.public_key@ == public_of(self.secret_key@)
    }

    /// A user with a freshly generated secret key.
    pub fn generate() -> (r: Self)
        ensures
            is_secret_key_encoding(r.secret()),
            r.public() == public_of(r.secret()),
    {
        Self::from_secret_key(SecretKey::generate())
    }

    /// The user who holds `secret_key`.
    pub fn from_secret_key(secret_key: SecretKey) -> (r: Self)
        ensures
            r.secret() == secret_key@,
            r.public() == public_of(secret_key@),
    {
        let public_key = secret_key.public_key();
        User { secret_key, public_key }
    }

    /// The user's public key.
    pub fn public_key(&self) -> (r: PublicKey)
        ensures
            r@ == self.public(),
            r@ == public_of(self.secret()),
    {
        proof {
            use_type_invariant(self);
        }
        self.public_key
    }

    /// The user's secret key.
    pub fn secret_key(&self) -> (r: SecretKey)
        ensures
            r@ == self.secret(),
    {
        self.secret_key.clone()
    }
}

impl Clone for User {
    fn clone(&self) -> (r: Self)
        ensures
            r.secret() == self.secret(),
            r.public() == self.public(),
    {
        proof {
            use_type_invariant(self);
        }
        User { secret_key: self.secret_key.clone(), public_key: self.public_key }
    }
}

} // verus!
