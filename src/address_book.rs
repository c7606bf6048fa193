//! The address book: the contacts this user knows, each a public key with a
//! nickname. Keys are unique, and so are nicknames, which are never empty.
use vstd::prelude::*;

use crate::pki::PublicKey;

verus! {

/// Contacts in the order they were added.
pub struct AddressBook {
    contacts: Vec<(PublicKey, String)>,
}

impl AddressBook {
    /// Each contact as its key's bytes and its nickname, in the order added.
    pub closed spec fn entries(&self) -> Seq<(Seq<u8>, Seq<char>)> {
        self.contacts@.map_values(|c: (PublicKey, String)| (c.0@, c.1@))
    }

    /// Some contact has the key with bytes `k`.
    pub open spec fn has_key(&self, k: Seq<u8>) -> bool {
        exists|i: int| 0 <= i < self.entries().len() && (#[trigger] self.entries()[i]).0 == k
    }

    /// Some contact has the nickname `n`.
    pub open spec fn has_nickname(&self, n: Seq<char>) -> bool {
        exists|i: int| 0 <= i < self.entries().len() && (#[trigger] self.entries()[i]).1 == n
    }

    #[verifier::type_invariant]
    spec fn inv(&self) -> bool {
        &&& forall|i: int, j: int|
            0 <= i < j < self.contacts@.len() ==> (#[trigger] self.contacts@[i]).0@
                != (#[trigger] self.contacts@[j]).0@ && self.contacts@[i].1@ != self.contacts@[j].1@
        &&& forall|i: int| 0 <= i < self.contacts@.len() ==> (#[trigger] self.contacts@[i]).1@.len() > 0
    }

    /// An empty address book.
    pub fn new() -> (r: Self)
        ensures
            r.entries().len() == 0,
    {
        AddressBook { contacts: Vec::new() }
    }

    /// Adds `public_key` under `nickname`. Refused, leaving the book as it
    /// was, when the nickname is empty, when another contact already has it,
    /// or when the key is already a contact, checked in that order.
    pub fn add_contact(&mut self, nickname: String, public_key: PublicKey) -> (r: Result<(), String>)
        ensures
            nickname@.len() == 0 ==> (r matches Err(e) && e@ == "Invalid nickname."@),
            nickname@.len() > 0 && old(self).has_nickname(nickname@) ==> (r matches Err(e) && e@
                == "A contact with that nickname already exists."@),
            nickname@.len() > 0 && !old(self).has_nickname(nickname@) && old(self).has_key(
                public_key@,
            ) ==> (r matches Err(e) && e@ == "A contact with that public already exists."@),
            r is Ok <==> (nickname@.len() > 0 && !old(self).has_nickname(nickname@)
                && !old(self).has_key(public_key@)),
            r is Ok ==> final(self).entries() == old(self).entries().push((public_key@, nickname@)),
            r is Err ==> final(self).entries() == old(self).entries(),
    {
        proof {
            use_type_invariant(&*self);
            self.lemma_entries();
        }
        if nickname.as_str().is_empty() {
            proof {
                reveal_strlit("Invalid nickname.");
            }
            return Err("Invalid nickname.".to_string());
        }
        let mut i: usize = 0;
        while i < self.contacts.len()
            invariant
                *self == *old(self),
                nickname@.len() > 0,
                i <= self.contacts@.len(),
                forall|k: int| 0 <= k < i ==> (#[trigger] self.contacts@[k]).1@ != nickname@,
            decreases self.contacts@.len() - i,
        {
            if self.contacts[i].1 == nickname {
                assert(self.entries()[i as int].1 == nickname@);
                proof {
                    reveal_strlit("A contact with that nickname already exists.");
                }
                return Err("A contact with that nickname already exists.".to_string());
            }
            i = i + 1;
        }
        let mut j: usize = 0;
        while j < self.contacts.len()
            invariant
                *self == *old(self),
                nickname@.len() > 0,
                forall|k: int| 0 <= k < self.contacts@.len() ==> (#[trigger] self.contacts@[k]).1@ != nickname@,
                j <= self.contacts@.len(),
                forall|k: int| 0 <= k < j ==> (#[trigger] self.contacts@[k]).0@ != public_key@,
            decreases self.contacts@.len() - j,
        {
            if self.contacts[j].0 == public_key {
                assert(self.entries()[j as int].0 == public_key@);
                proof {
                    reveal_strlit("A contact with that public already exists.");
                }
                return Err("A contact with that public already exists.".to_string());
            }
            j = j + 1;
        }
        let ghost before = self.entries();
        let mut taken = AddressBook::new();
        std::mem::swap(self, &mut taken);
        let mut contacts = taken.contacts;
        contacts.push((public_key, nickname));
        *self = AddressBook { contacts };
        proof {
            self.lemma_entries();
        }
        assert(self.entries() =~= before.push((public_key@, nickname@)));
        Ok(())
    }

    proof fn lemma_entries(&self)
        ensures
            self.entries().len() == self.contacts@.len(),
            forall|k: int|
                0 <= k < self.contacts@.len() ==> #[trigger] self.entries()[k] == (
                    self.contacts@[k].0@,
                    self.contacts@[k].1@,
                ),
    {
    }

    /// The nickname of the contact with `public_key`, if there is one.
    pub fn who_is(&self, public_key: &PublicKey) -> (r: Option<String>)
        ensures
            match r {
                Some(n) => self.entries().contains((public_key@, n@)),
                None => !self.has_key(public_key@),
            },
    {
        let mut i: usize = 0;
        while i < self.contacts.len()
            invariant
                i <= self.contacts@.len(),
                self.entries().len() == self.contacts@.len(),
                forall|k: int| 0 <= k < i ==> (#[trigger] self.entries()[k]).0 != public_key@,
            decreases self.contacts@.len() - i,
        {
            if self.contacts[i].0 == *public_key {
                assert(self.entries()[i as int] == (public_key@, self.contacts@[i as int].1@));
                return Some(self.contacts[i].1.clone());
            }
            i = i + 1;
        }
        None
    }

    /// The contacts, in the order they were added.
    pub fn iter(&self) -> (r: &[(PublicKey, String)])
        ensures
            r@.map_values(|c: (PublicKey, String)| (c.0@, c.1@)) == self.entries(),
    {
        self.contacts.as_slice()
    }

    /// The number of contacts.
    pub fn len(&self) -> (r: usize)
        ensures
            r == self.entries().len(),
    {
        self.contacts.len()
    }
}

impl Default for AddressBook {
    fn default() -> (r: Self)
        ensures
            r.entries().len() == 0,
    {
        Self::new()
    }
}

} // verus!
