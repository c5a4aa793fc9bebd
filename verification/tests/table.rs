use gozara::peyk::protocol::PeerId;
use gozara::table::Table;

fn key(name: &str) -> String {
    name.to_string()
}

#[test]
fn inserts_and_looks_up() {
    let mut t: Table<String, u32> = Table::new();
    assert!(t.is_empty());
    t.insert(key("a"), 1);
    t.insert(key("b"), 2);
    assert_eq!(t.get(&key("a")), Some(&1));
    assert_eq!(t.get(&key("c")), None);
    assert!(t.contains_key(&key("b")));
    assert!(!t.contains_key(&key("c")));
    assert_eq!(t.len(), 2);
}

#[test]
fn key_keeps_its_place() {
    let mut t: Table<String, u32> = Table::new();
    t.insert(key("a"), 1);
    t.insert(key("b"), 2);
    t.insert(key("a"), 3);
    assert_eq!(t.len(), 2);
    assert_eq!((t.key_at(0), t.value_at(0)), (&key("a"), &3));
    assert_eq!((t.key_at(1), t.value_at(1)), (&key("b"), &2));
}

#[test]
fn replaces_only_what_is_there() {
    let mut t: Table<String, u32> = Table::new();
    t.insert(key("a"), 1);
    assert_eq!(t.replace(&key("a"), 5), Some(1));
    assert_eq!(t.replace(&key("b"), 6), None);
    assert_eq!(t.get(&key("a")), Some(&5));
    assert_eq!(t.len(), 1);
}

#[test]
fn removes() {
    let mut t: Table<String, u32> = Table::new();
    t.insert(key("a"), 1);
    t.insert(key("b"), 2);
    t.insert(key("c"), 3);
    t.remove(&key("b"));
    t.remove(&key("x"));
    assert_eq!(t.len(), 2);
    assert_eq!(t.key_at(0), &key("a"));
    assert_eq!(t.key_at(1), &key("c"));
}

#[test]
fn digests_and_peers_are_keys() {
    let mut t: Table<[u8; 32], u32> = Table::new();
    let mut almost = [1u8; 32];
    almost[31] = 2;
    t.insert([1u8; 32], 1);
    t.insert(almost, 2);
    assert_eq!(t.get(&[1u8; 32]), Some(&1));
    assert_eq!(t.get(&almost), Some(&2));
    let mut p: Table<PeerId, u32> = Table::new();
    p.insert(PeerId::new(key("a")), 1);
    assert_eq!(p.get(&PeerId::new(key("a"))), Some(&1));
    assert_eq!(p.get(&PeerId::new(key("b"))), None);
}
