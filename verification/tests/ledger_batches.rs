use rsyncer::errors::{Error, ErrorKind};
use rsyncer::ledger::Ledger;

fn ids(items: &[&str]) -> Vec<String> {
    items.iter().map(|s| s.to_string()).collect()
}

#[test]
fn new_ledger_holds_nothing() {
    let ledger = Ledger::new();
    assert_eq!(ledger.len(), 0);
    assert!(!ledger.contains(&"t1".to_string()));
    assert_eq!(ledger.identifiers(), Vec::<String>::new());
}

#[test]
fn load_holds_each_identifier_once() {
    let ledger = Ledger::load(&ids(&["b", "a", "b", "c", "a"]));
    assert_eq!(ledger.len(), 3);
    assert_eq!(ledger.identifiers(), ids(&["b", "a", "c"]));
    assert!(ledger.contains(&"a".to_string()));
    assert!(!ledger.contains(&"d".to_string()));
}

#[test]
fn contains_batch_keeps_the_held_ones_in_order() {
    let ledger = Ledger::load(&ids(&["a", "b", "c"]));
    assert_eq!(ledger.contains_batch(&ids(&["c", "x", "a", "y", "c"])), ids(&["c", "a", "c"]));
    assert_eq!(ledger.contains_batch(&Vec::new()), Vec::<String>::new());
    assert_eq!(ledger.contains_batch(&ids(&["x"])), Vec::<String>::new());
}

#[test]
fn empty_batch_is_appended_without_change() {
    let mut ledger = Ledger::load(&ids(&["a"]));
    assert_eq!(ledger.append_batch(&Vec::new()), Ok(()));
    assert_eq!(ledger.identifiers(), ids(&["a"]));
    let mut empty = Ledger::new();
    assert_eq!(empty.append_batch(&Vec::new()), Ok(()));
    assert_eq!(empty.len(), 0);
}

#[test]
fn batch_is_appended_whole() {
    let mut ledger = Ledger::load(&ids(&["a"]));
    assert_eq!(ledger.append_batch(&ids(&["b", "c"])), Ok(()));
    assert_eq!(ledger.identifiers(), ids(&["a", "b", "c"]));
    assert_eq!(ledger.len(), 3);
}

#[test]
fn batch_with_a_held_identifier_is_refused_whole() {
    let mut ledger = Ledger::load(&ids(&["a", "b"]));
    let refused = ledger.append_batch(&ids(&["c", "b", "d"]));
    assert_eq!(
        refused,
        Err(Error::StorageError("duplicate identifier in batch: b".to_string()))
    );
    assert_eq!(ledger.identifiers(), ids(&["a", "b"]));
}

#[test]
fn batch_that_repeats_an_identifier_is_refused_whole() {
    let mut ledger = Ledger::load(&ids(&["a"]));
    let refused = ledger.append_batch(&ids(&["c", "d", "c"])).unwrap_err();
    assert_eq!(refused.kind(), ErrorKind::Storage);
    assert!(refused.is_fatal());
    assert_eq!(ledger.identifiers(), ids(&["a"]));
}
