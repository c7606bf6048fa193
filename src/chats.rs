//! Conversations: a chat is a set of peers, named by an id that is the
//! hexadecimal text of the byte-wise XOR of the peers' public keys; the chat
//! list maps ids to chats.
use vstd::prelude::*;

use crate::encoding::{encode_hex, hex_text};
use crate::pki::PublicKey;

verus! {

/// Byte `i` of the XOR of all the keys in `keys`.
pub open spec fn xor_at(keys: Seq<Seq<u8>>, i: int) -> u8
    decreases keys.len(),
{
    if keys.len() == 0 {
        0
    } else {
        xor_at(keys.drop_last(), i) ^ keys.last()[i]
    }
}

/// The id of the chat whose peers have the 33-byte keys `keys`.
pub open spec fn chat_id(keys: Seq<Seq<u8>>) -> Seq<char> {
    hex_text(Seq::new(33, |i: int| xor_at(keys, i)))
}

/// Taking one key out of the XOR and putting it back gives the same byte.
proof fn lemma_xor_remove(keys: Seq<Seq<u8>>, j: int, i: int)
    requires
        0 <= j < keys.len(),
    ensures
        xor_at(keys, i) == xor_at(keys.remove(j), i) ^ keys[j][i],
    decreases keys.len(),
{
    let rest = keys.remove(j);
    if j == keys.len() - 1 {
        assert(rest =~= keys.drop_last());
    } else {
        let shorter = keys.drop_last();
        lemma_xor_remove(shorter, j, i);
        assert(rest.drop_last() =~= shorter.remove(j));
        assert(rest.last() == keys.last());
        let a = xor_at(shorter.remove(j), i);
        let x = keys[j][i];
        let y = keys.last()[i];
        assert((a ^ x) ^ y == (a ^ y) ^ x) by (bit_vector);
    }
}

/// The id of a chat depends on the set of its peers alone, not on the order in
/// which they were given.
pub proof fn lemma_chat_id_of_set(a: Seq<Seq<u8>>, b: Seq<Seq<u8>>)
    requires
        a.no_duplicates(),
        b.no_duplicates(),
        a.to_set() == b.to_set(),
    ensures
        chat_id(a) == chat_id(b),
{
    assert forall|i: int| 0 <= i < 33 implies xor_at(a, i) == xor_at(b, i) by {
        lemma_xor_of_set(a, b, i);
    }
    assert(Seq::new(33, |i: int| xor_at(a, i)) =~= Seq::new(33, |i: int| xor_at(b, i)));
}

proof fn lemma_xor_of_set(a: Seq<Seq<u8>>, b: Seq<Seq<u8>>, i: int)
    requires
        a.no_duplicates(),
        b.no_duplicates(),
        a.to_set() == b.to_set(),
    ensures
        xor_at(a, i) == xor_at(b, i),
    decreases a.len(),
{
    a.unique_seq_to_set();
    b.unique_seq_to_set();
    if a.len() > 0 {
        let x = a.last();
        assert(a.to_set().contains(x)) by {
            assert(a.contains(x));
        }
        assert(b.contains(x));
        let j = b.index_of(x);
        let a1 = a.drop_last();
        let b1 = b.remove(j);
        assert forall|y: Seq<u8>| a1.to_set().contains(y) <==> b1.to_set().contains(y) by {
            if a1.contains(y) {
                let k = a1.index_of(y);
                assert(a[k] == y);
                assert(y != x);
                assert(a.contains(y));
                assert(a.to_set().contains(y));
                assert(b.to_set().contains(y));
                assert(b.contains(y));
                let m = b.index_of(y);
                assert(m != j);
                if m < j {
                    assert(b1[m] == y);
                } else {
                    assert(b1[m - 1] == y);
                }
            }
            if b1.contains(y) {
                let k = b1.index_of(y);
                let m = if k < j { k } else { k + 1 };
                assert(b[m] == y);
                assert(y != x);
                assert(b.contains(y));
                assert(b.to_set().contains(y));
                assert(a.to_set().contains(y));
                assert(a.contains(y));
                let n = a.index_of(y);
                assert(n != a.len() - 1);
                assert(a1[n] == y);
            }
        }
        assert(a1.to_set() =~= b1.to_set());
        assert(a1.no_duplicates());
        assert(b1.no_duplicates()) by {
            assert forall|p: int, q: int| 0 <= p < b1.len() && 0 <= q < b1.len() && p != q implies b1[p] != b1[q] by {
                let pp = if p < j { p } else { p + 1 };
                let qq = if q < j { q } else { q + 1 };
                assert(b1[p] == b[pp]);
                assert(b1[q] == b[qq]);
            }
        }
        lemma_xor_of_set(a1, b1, i);
        lemma_xor_remove(b, j, i);
    } else {
        if b.len() > 0 {
            assert(b.to_set().contains(b[0]));
        }
    }
}

/// The keys' bytes.
pub open spec fn key_bytes(keys: Seq<PublicKey>) -> Seq<Seq<u8>> {
    keys.map_values(|k: PublicKey| k@)
}

/// A conversation with a set of peers.
pub struct Chat {
    peers: Vec<PublicKey>,
    id: String,
}

impl Chat {
    /// The peers' keys, each once.
    pub closed spec fn peers(&self) -> Seq<Seq<u8>> {
        key_bytes(self.peers@)
    }

    #[verifier::type_invariant]
    spec fn inv(&self) -> bool {
        &&& self.peers().no_duplicates()
        &&& self.id@ == chat_id(self.peers())
    }

    /// The XOR of the keys' bytes.
    fn xor_keys(keys: &Vec<PublicKey>) -> (r: [u8; 33])
        ensures
            forall|i: int| 0 <= i < 33 ==> r@[i] == xor_at(key_bytes(keys@), i),
    {
        let mut acc = [0u8; 33];
        let mut n: usize = 0;
        while n < keys.len()
            invariant
                n <= keys@.len(),
                acc@.len() == 33,
                forall|i: int| 0 <= i < 33 ==> acc@[i] == xor_at(key_bytes(keys@.subrange(0, n as int)), i),
            decreases keys@.len() - n,
        {
            let bytes = keys[n].bytes();
            let ghost prefix = key_bytes(keys@.subrange(0, n as int));
            let ghost next = key_bytes(keys@.subrange(0, n + 1));
            assert(next.drop_last() =~= prefix);
            assert(next.last() == bytes@);
            let mut i: usize = 0;
            while i < 33
                invariant
                    n < keys@.len(),
                    next.len() == n + 1,
                    acc@.len() == 33,
                    bytes@.len() == 33,
                    i <= 33,
                    next.drop_last() == prefix,
                    next.last() == bytes@,
                    forall|k: int| 0 <= k < i ==> acc@[k] == xor_at(next, k),
                    forall|k: int| i <= k < 33 ==> acc@[k] == xor_at(prefix, k),
                decreases 33 - i,
            {
                let ghost was = acc@[i as int];
                acc[i] = acc[i] ^ bytes[i];
                assert(xor_at(next, i as int) == xor_at(prefix, i as int) ^ bytes@[i as int]);
                assert(acc@[i as int] == was ^ bytes@[i as int]);
                i = i + 1;
            }
            n = n + 1;
        }
        assert(keys@.subrange(0, keys@.len() as int) =~= keys@);
        acc
    }

    /// The chat with the peers `peers`; a key given twice counts once.
    pub fn new(peers: Vec<PublicKey>) -> (r: Self)
        ensures
            r.peers().no_duplicates(),
            r.peers().to_set() == key_bytes(peers@).to_set(),
    {
        let mut unique: Vec<PublicKey> = Vec::new();
        let mut n: usize = 0;
        while n < peers.len()
            invariant
                n <= peers@.len(),
                key_bytes(unique@).no_duplicates(),
                key_bytes(unique@).to_set() == key_bytes(peers@.subrange(0, n as int)).to_set(),
            decreases peers@.len() - n,
        {
            let key = peers[n];
            let mut seen = false;
            let mut j: usize = 0;
            while j < unique.len()
                invariant
                    j <= unique@.len(),
                    seen <==> exists|k: int| 0 <= k < j && (#[trigger] unique@[k])@ == key@,
                decreases unique@.len() - j,
            {
                if unique[j] == key {
                    seen = true;
                }
                j = j + 1;
            }
            let ghost before = key_bytes(unique@);
            if !seen {
                unique.push(key);
            }
            proof {
                let prev = key_bytes(peers@.subrange(0, n as int));
                let grown = key_bytes(peers@.subrange(0, n + 1));
                assert(grown =~= prev.push(key@));
                prev.lemma_push_to_set_commute(key@);
                if seen {
                    let k = choose|k: int| 0 <= k < unique@.len() && (#[trigger] unique@[k])@ == key@;
                    assert(before[k] == key@);
                    assert(before.to_set().contains(key@));
                    assert(grown.to_set() =~= before.to_set());
                } else {
                    assert(key_bytes(unique@) =~= before.push(key@));
                    assert(forall|k: int| 0 <= k < before.len() ==> before[k] != key@);
                    before.lemma_push_to_set_commute(key@);
                    assert(before.push(key@).no_duplicates());
                }
            }
            n = n + 1;
        }
        assert(peers@.subrange(0, peers@.len() as int) =~= peers@);
        let xor = Self::xor_keys(&unique);
        let id = encode_hex(xor.as_slice());
        assert(id@ =~= chat_id(key_bytes(unique@)));
        Chat { peers: unique, id }
    }

    /// The chat with the single peer `public_key`.
    pub fn from_public_key(public_key: PublicKey) -> (r: Self)
        ensures
            r.peers() == seq![public_key@],
    {
        let mut peers: Vec<PublicKey> = Vec::new();
        peers.push(public_key);
        let r = Self::new(peers);
        proof {
            let s = key_bytes(r.peers@);
            let one = seq![public_key@];
            assert(key_bytes(seq![public_key]) =~= one);
            assert(one[0] == public_key@);
            assert(one.contains(public_key@));
            assert(one.to_set() =~= set![public_key@]);
            assert(s.to_set() =~= set![public_key@]);
            assert(s.len() == 1) by {
                s.unique_seq_to_set();
            }
            assert(s.to_set().contains(s[0]));
            assert(s =~= seq![public_key@]);
        }
        r
    }

    /// The chat with the peers `public_keys`; a key given twice counts once.
    pub fn from_public_keys(public_keys: Vec<PublicKey>) -> (r: Self)
        ensures
            r.peers().no_duplicates(),
            r.peers().to_set() == key_bytes(public_keys@).to_set(),
    {
        Self::new(public_keys)
    }

    /// The chat's id: the hexadecimal text of the XOR of its peers' keys.
    pub fn id(&self) -> (r: String)
        ensures
            r@ == chat_id(self.peers()),
    {
        proof {
            use_type_invariant(self);
        }
        self.id.clone()
    }

    /// The peers.
    pub fn iter(&self) -> (r: &[PublicKey])
        ensures
            key_bytes(r@) == self.peers(),
    {
        self.peers.as_slice()
    }

    /// The chat with this chat's peers and `public_key`.
    pub fn group_chat_with(&self, public_key: PublicKey) -> (r: Self)
        ensures
            r.peers().no_duplicates(),
            r.peers().to_set() == self.peers().to_set().insert(public_key@),
    {
        let mut peers: Vec<PublicKey> = Vec::new();
        let mut n: usize = 0;
        while n < self.peers.len()
            invariant
                n <= self.peers@.len(),
                peers@ == self.peers@.subrange(0, n as int),
            decreases self.peers@.len() - n,
        {
            peers.push(self.peers[n]);
            n = n + 1;
            assert(peers@ =~= self.peers@.subrange(0, n as int));
        }
        assert(peers@ =~= self.peers@);
        let ghost before = peers@;
        peers.push(public_key);
        proof {
            assert(key_bytes(peers@) =~= key_bytes(before).push(public_key@));
            key_bytes(before).lemma_push_to_set_commute(public_key@);
        }
        Self::new(peers)
    }
}

impl Clone for Chat {
    fn clone(&self) -> (r: Self)
        ensures
            r.peers() == self.peers(),
    {
        proof {
            use_type_invariant(self);
        }
        let mut peers: Vec<PublicKey> = Vec::new();
        let mut n: usize = 0;
        while n < self.peers.len()
            invariant
                n <= self.peers@.len(),
                peers@ == self.peers@.subrange(0, n as int),
            decreases self.peers@.len() - n,
        {
            peers.push(self.peers[n]);
            n = n + 1;
            assert(peers@ =~= self.peers@.subrange(0, n as int));
        }
        assert(peers@ =~= self.peers@);
        Chat { peers, id: self.id.clone() }
    }
}

/// The chats, each under an id that no other chat has.
pub struct Chats {
    chats: Vec<(String, Chat)>,
}

impl Chats {
    /// Each chat as its id and its peers, in the order the ids were added.
    pub closed spec fn entries(&self) -> Seq<(Seq<char>, Seq<Seq<u8>>)> {
        self.chats@.map_values(|e: (String, Chat)| (e.0@, e.1.peers()))
    }

    /// Some chat is kept under `id`.
    pub open spec fn has_id(&self, id: Seq<char>) -> bool {
        exists|i: int| 0 <= i < self.entries().len() && (#[trigger] self.entries()[i]).0 == id
    }

    #[verifier::type_invariant]
    spec fn inv(&self) -> bool {
        forall|i: int, j: int|
            0 <= i < j < self.chats@.len() ==> (#[trigger] self.chats@[i]).0@
                != (#[trigger] self.chats@[j]).0@
    }

    proof fn lemma_entries(&self)
        ensures
            self.entries().len() == self.chats@.len(),
            forall|k: int|
                0 <= k < self.chats@.len() ==> #[trigger] self.entries()[k] == (
                    self.chats@[k].0@,
                    self.chats@[k].1.peers(),
                ),
    {
    }

    /// No chats.
    pub fn new() -> (r: Self)
        ensures
            r.entries().len() == 0,
    {
        Chats { chats: Vec::new() }
    }

    /// Keeps `chat` under `id`, in place of any chat kept under `id` before.
    pub fn add_chat(&mut self, id: String, chat: Chat) -> (r: Result<(), String>)
        ensures
            r is Ok,
            old(self).has_id(id@) ==> exists|k: int|
                0 <= k < old(self).entries().len() && (#[trigger] old(self).entries()[k]).0 == id@
                    && final(self).entries() == old(self).entries().update(k, (id@, chat.peers())),
            !old(self).has_id(id@) ==> final(self).entries() == old(self).entries().push(
                (id@, chat.peers()),
            ),
    {
        proof {
            use_type_invariant(&*self);
            self.lemma_entries();
        }
        let ghost before = self.entries();
        let ghost peers = chat.peers();
        let ghost orig = self.chats@;
        let mut taken = Chats::new();
        std::mem::swap(self, &mut taken);
        let mut chats = taken.chats;
        let mut found = false;
        let mut i: usize = 0;
        while i < chats.len() && !found
            invariant
                chats@ == orig,
                i <= chats@.len(),
                found ==> i < chats@.len() && chats@[i as int].0@ == id@,
                forall|k: int| 0 <= k < i ==> (#[trigger] chats@[k]).0@ != id@,
            decreases chats@.len() - i + (if found { 0int } else { 1int }),
        {
            if chats[i].0 == id {
                found = true;
            } else {
                i = i + 1;
            }
        }
        if found {
            let ghost k = i as int;
            chats.set(i, (id, chat));
            assert(forall|a: int, b: int|
                0 <= a < b < orig.len() ==> (#[trigger] orig[a]).0@ != (#[trigger] orig[b]).0@);
            *self = Chats { chats };
            proof {
                self.lemma_entries();
                assert(before[k].0 == id@);
                assert(self.entries() =~= before.update(k, (id@, peers)));
            }
        } else {
            chats.push((id, chat));
            *self = Chats { chats };
            proof {
                self.lemma_entries();
                assert(self.entries() =~= before.push((id@, peers)));
            }
        }
        Ok(())
    }

    /// A copy of the chat kept under `id`, if there is one.
    pub fn get(&self, id: &str) -> (r: Option<Chat>)
        ensures
            match r {
                Some(c) => self.entries().contains((id@, c.peers())),
                None => !self.has_id(id@),
            },
    {
        proof {
            self.lemma_entries();
        }
        let key = id.to_owned();
        let mut i: usize = 0;
        while i < self.chats.len()
            invariant
                i <= self.chats@.len(),
                key@ == id@,
                self.entries().len() == self.chats@.len(),
                forall|k: int| 0 <= k < self.chats@.len() ==> #[trigger] self.entries()[k] == (
                    self.chats@[k].0@,
                    self.chats@[k].1.peers(),
                ),
                forall|k: int| 0 <= k < i ==> (#[trigger] self.chats@[k]).0@ != id@,
            decreases self.chats@.len() - i,
        {
            if self.chats[i].0 == key {
                let c = self.chats[i].1.clone();
                assert(self.entries()[i as int] == (id@, c.peers()));
                return Some(c);
            }
            i = i + 1;
        }
        None
    }

    /// The chats with their ids.
    pub fn iter(&self) -> (r: &[(String, Chat)])
        ensures
            r@.map_values(|e: (String, Chat)| (e.0@, e.1.peers())) == self.entries(),
    {
        self.chats.as_slice()
    }

    /// Whether there is at least one chat.
    pub fn any(&self) -> (r: bool)
        ensures
            r == (self.entries().len() > 0),
    {
        self.len() > 0
    }

    /// Whether there are no chats.
    pub fn none(&self) -> (r: bool)
        ensures
            r == (self.entries().len() == 0),
    {
        !self.any()
    }

    /// The number of chats.
    pub fn len(&self) -> (r: usize)
        ensures
            r == self.entries().len(),
    {
        self.chats.len()
    }
}

impl Default for Chats {
    fn default() -> (r: Self)
        ensures
            r.entries().len() == 0,
    {
        Self::new()
    }
}

} // verus!
