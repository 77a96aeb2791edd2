use rsyncer::entities::Track;
use rsyncer::ledger::Ledger;
use rsyncer::pending::{names_id, pending_tracks};

fn track(id: &str) -> Track {
    Track::new(id.to_string(), format!("name of {}", id), format!("artist of {}", id))
}

fn ledger_of(ids: &[&str]) -> Ledger {
    Ledger::load(&ids.iter().map(|s| s.to_string()).collect())
}

fn pending_ids(liked: &[&str], reconciled: &[&str]) -> Vec<String> {
    let liked: Vec<Track> = liked.iter().map(|id| track(id)).collect();
    pending_tracks(&liked, &ledger_of(reconciled))
        .into_tracks()
        .into_iter()
        .map(|t| t.id)
        .collect()
}

#[test]
fn pending_is_liked_without_reconciled() {
    assert_eq!(pending_ids(&["t1", "t2"], &["t1"]), vec!["t2".to_string()]);
    assert_eq!(pending_ids(&["t1", "t2"], &[]), vec!["t1".to_string(), "t2".to_string()]);
    assert_eq!(pending_ids(&["t1", "t2"], &["t2", "t1"]), Vec::<String>::new());
    assert_eq!(pending_ids(&[], &["t1"]), Vec::<String>::new());
}

#[test]
fn reconciled_identifiers_that_are_not_liked_change_nothing() {
    assert_eq!(
        pending_ids(&["a", "b", "c"], &["x", "b", "y"]),
        vec!["a".to_string(), "c".to_string()]
    );
}

#[test]
fn pending_and_reconciled_make_up_the_liked() {
    let liked = ["a", "b", "c", "d", "e"];
    let reconciled = ["e", "x", "b"];
    let pending = pending_ids(&liked, &reconciled);
    for id in &pending {
        assert!(!reconciled.contains(&id.as_str()));
        assert!(liked.contains(&id.as_str()));
    }
    for id in liked {
        assert!(pending.contains(&id.to_string()) != reconciled.contains(&id));
    }
}

#[test]
fn a_repeated_identifier_is_pending_once_at_its_first_place() {
    assert_eq!(
        pending_ids(&["b", "a", "b", "c", "a"], &["c"]),
        vec!["b".to_string(), "a".to_string()]
    );
}

#[test]
fn pending_keeps_the_whole_track() {
    let liked = vec![track("t1"), track("t2")];
    let pending = pending_tracks(&liked, &ledger_of(&["t1"]));
    assert_eq!(pending.len(), 1);
    assert!(!pending.is_empty());
    assert_eq!(pending.into_tracks(), vec![track("t2")]);
}

#[test]
fn names_id_looks_at_identifiers_only() {
    let tracks = vec![track("t1"), track("t2")];
    assert!(names_id(&tracks, &"t2".to_string()));
    assert!(!names_id(&tracks, &"name of t2".to_string()));
    assert!(!names_id(&Vec::new(), &"t1".to_string()));
}
