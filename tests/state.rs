use muruchat::address_book::AddressBook;
use muruchat::chats::{Chat, Chats};
use muruchat::pki::{PublicKey, SecretKey};
use muruchat::user::User;

fn key() -> PublicKey {
    SecretKey::generate().public_key()
}

fn xor_hex(keys: &[PublicKey]) -> String {
    let mut id = [0u8; 33];
    for k in keys {
        for (i, b) in k.bytes().iter().enumerate() {
            id[i] ^= b;
        }
    }
    hex::encode(id)
}

#[test]
fn user_keys_belong_together() {
    let secret = SecretKey::generate();
    let user = User::from_secret_key(secret.clone());
    assert!(user.secret_key() == secret);
    assert_eq!(user.public_key(), secret.public_key());
    let copy = user.clone();
    assert_eq!(copy.public_key(), user.public_key());
    let fresh = User::generate();
    assert_eq!(fresh.public_key(), fresh.secret_key().public_key());
}

#[test]
fn address_book_adds_and_finds_contacts() {
    let mut book = AddressBook::default();
    assert_eq!(book.len(), 0);
    let alice = key();
    let bob = key();
    assert_eq!(book.add_contact("alice".to_string(), alice), Ok(()));
    assert_eq!(book.add_contact("bob".to_string(), bob), Ok(()));
    assert_eq!(book.len(), 2);
    assert_eq!(book.who_is(&alice), Some("alice".to_string()));
    assert_eq!(book.who_is(&bob), Some("bob".to_string()));
    assert_eq!(book.who_is(&key()), None);
    let names: Vec<&str> = book.iter().iter().map(|(_, n)| n.as_str()).collect();
    assert_eq!(names, vec!["alice", "bob"]);
}

#[test]
fn address_book_refuses_empty_nickname() {
    let mut book = AddressBook::new();
    assert_eq!(book.add_contact(String::new(), key()), Err("Invalid nickname.".to_string()));
    assert_eq!(book.len(), 0);
}

#[test]
fn address_book_refuses_duplicate_nickname() {
    let mut book = AddressBook::new();
    book.add_contact("carol".to_string(), key()).unwrap();
    assert_eq!(
        book.add_contact("carol".to_string(), key()),
        Err("A contact with that nickname already exists.".to_string())
    );
    assert_eq!(book.len(), 1);
}

#[test]
fn address_book_refuses_duplicate_key() {
    let mut book = AddressBook::new();
    let k = key();
    book.add_contact("dave".to_string(), k).unwrap();
    assert_eq!(
        book.add_contact("erin".to_string(), k),
        Err("A contact with that public already exists.".to_string())
    );
    assert_eq!(book.len(), 1);
    assert_eq!(book.who_is(&k), Some("dave".to_string()));
}

#[test]
fn chat_id_of_one_peer_is_its_key() {
    let k = key();
    let chat = Chat::from_public_key(k);
    assert_eq!(chat.id(), k.to_string());
    assert_eq!(chat.iter().len(), 1);
    assert_eq!(chat.iter()[0], k);
}

#[test]
fn chat_id_is_xor_of_peers() {
    let keys = vec![key(), key(), key()];
    let chat = Chat::from_public_keys(keys.clone());
    assert_eq!(chat.id(), xor_hex(&keys));
    let reversed: Vec<PublicKey> = keys.iter().rev().copied().collect();
    assert_eq!(Chat::new(reversed).id(), chat.id());
}

#[test]
fn chat_counts_repeated_peer_once() {
    let a = key();
    let b = key();
    let chat = Chat::new(vec![a, b, a]);
    assert_eq!(chat.iter().len(), 2);
    assert_eq!(chat.id(), xor_hex(&[a, b]));
    assert_eq!(Chat::new(vec![]).id(), "00".repeat(33));
}

#[test]
fn group_chat_adds_a_peer() {
    let a = key();
    let b = key();
    let chat = Chat::from_public_key(a).group_chat_with(b);
    assert_eq!(chat.iter().len(), 2);
    assert_eq!(chat.id(), xor_hex(&[a, b]));
    assert_eq!(chat.group_chat_with(a).id(), chat.id());
}

#[test]
fn chats_keep_one_chat_per_id() {
    let mut chats = Chats::default();
    assert!(chats.none());
    assert!(!chats.any());
    let first = Chat::from_public_key(key());
    let second = Chat::from_public_key(key());
    assert_eq!(chats.add_chat(first.id(), first.clone()), Ok(()));
    assert_eq!(chats.add_chat("x".to_string(), second.clone()), Ok(()));
    assert_eq!(chats.len(), 2);
    assert!(chats.any());
    assert_eq!(chats.get(&first.id()).unwrap().id(), first.id());
    assert_eq!(chats.get("x").unwrap().id(), second.id());
    assert!(chats.get("y").is_none());
    assert_eq!(chats.add_chat("x".to_string(), first.clone()), Ok(()));
    assert_eq!(chats.len(), 2);
    assert_eq!(chats.get("x").unwrap().id(), first.id());
    assert_eq!(chats.iter()[1].0, "x");
}
