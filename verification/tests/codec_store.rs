use roster_messenger::errors::IoError;
use roster_messenger::queue::DispatchQueue;

fn roster(names: &[&str]) -> Vec<String> {
    names.iter().map(|n| n.to_string()).collect()
}

#[test]
fn save_empty_roster() {
    let q = DispatchQueue::from_roster(Vec::new());
    assert_eq!(q.save(), "[]");
}

#[test]
fn save_two_names() {
    let q = DispatchQueue::from_roster(roster(&["alice", "bob"]));
    assert_eq!(q.save(), "[\"alice\",\"bob\"]");
}

#[test]
fn save_escapes_quotes_backslashes_and_controls() {
    let q = DispatchQueue::from_roster(roster(&["bo\"b\\", "new\nline"]));
    assert_eq!(q.save(), "[\"bo\\\"b\\\\\",\"new\\u000aline\"]");
}

#[test]
fn round_trip_empty() {
    let q = DispatchQueue::from_roster(Vec::new());
    let stored = q.save();
    let reloaded = DispatchQueue::load(Some(stored.as_str())).unwrap();
    assert!(reloaded.is_empty());
}

#[test]
fn round_trip_keeps_elements_and_order() {
    let names = roster(&["alice", "bob", "carol"]);
    let q = DispatchQueue::from_roster(names.clone());
    let stored = q.save();
    let reloaded = DispatchQueue::load(Some(stored.as_str())).unwrap();
    assert_eq!(reloaded.players(), &names);
}

#[test]
fn round_trip_with_awkward_names() {
    let names = roster(&["", "a\"b", "c\\d", "tab\there", "émile"]);
    let q = DispatchQueue::from_roster(names.clone());
    let stored = q.save();
    let reloaded = DispatchQueue::load(Some(stored.as_str())).unwrap();
    assert_eq!(reloaded.players(), &names);
}

#[test]
fn absent_store_is_empty_roster() {
    let q = DispatchQueue::load(None).unwrap();
    assert_eq!(q.len(), 0);
}

#[test]
fn corrupt_store_is_fatal() {
    assert!(matches!(DispatchQueue::load(Some("not a roster")), Err(IoError::Corrupt)));
    assert!(matches!(DispatchQueue::load(Some("[\"a\",]")), Err(IoError::Corrupt)));
    assert!(matches!(DispatchQueue::load(Some("[\"a\"")), Err(IoError::Corrupt)));
    assert!(matches!(DispatchQueue::load(Some("[\"a\"] ")), Err(IoError::Corrupt)));
    assert!(matches!(DispatchQueue::load(Some("")), Err(IoError::Corrupt)));
}

#[test]
fn pop_next_takes_from_the_end() {
    let mut q = DispatchQueue::from_roster(roster(&["alice", "bob"]));
    assert_eq!(q.pop_next().unwrap(), "bob");
    assert_eq!(q.pop_next().unwrap(), "alice");
    assert!(q.pop_next().is_none());
}

#[test]
fn reverse_flips_the_order() {
    let mut q = DispatchQueue::from_roster(roster(&["alice", "bob", "carol"]));
    q.reverse();
    assert_eq!(q.players(), &roster(&["carol", "bob", "alice"]));
}
