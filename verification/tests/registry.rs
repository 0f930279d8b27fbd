use vestingroyale::registry::all_distinct;
use vestingroyale::{Identity, Registry, VestingRoyaleError};

fn id(n: u8) -> Identity {
    Identity::new([n; 32])
}

#[test]
fn identities_are_the_same_when_all_bytes_agree() {
    let mut bytes = [7u8; 32];
    assert!(Identity::new(bytes) == id(7));
    bytes[31] = 8;
    assert!(Identity::new(bytes) != id(7));
    bytes[31] = 7;
    bytes[0] = 0;
    assert!(Identity::new(bytes) != id(7));
    assert_eq!(Identity::new(bytes).to_bytes(), bytes);
}

#[test]
fn a_new_registry_is_empty() {
    let registry = Registry::new();
    assert_eq!(registry.len(), 0);
    assert!(registry.is_empty());
    assert!(!registry.contains(&id(1)));
}

#[test]
fn a_registry_enrolls_a_list_without_duplicates() {
    let registry = Registry::from_list(vec![id(1), id(2), id(3)]).unwrap();
    assert_eq!(registry.len(), 3);
    assert!(!registry.is_empty());
    assert!(registry.contains(&id(1)));
    assert!(registry.contains(&id(2)));
    assert!(registry.contains(&id(3)));
    assert!(!registry.contains(&id(4)));
    assert!(Registry::from_list(vec![]).unwrap().is_empty());
}

#[test]
fn a_registry_refuses_a_list_with_a_duplicate() {
    assert!(Registry::from_list(vec![id(1), id(2), id(1)]).is_none());
    assert!(Registry::from_list(vec![id(2), id(2)]).is_none());
    assert!(Registry::from_list(vec![id(1), id(2), id(3), id(3)]).is_none());
}

#[test]
fn removing_takes_out_exactly_the_one_named() {
    let mut registry = Registry::from_list(vec![id(1), id(2), id(3), id(4)]).unwrap();
    assert_eq!(registry.remove(&id(2)), Ok(()));
    assert_eq!(registry.len(), 3);
    assert!(!registry.contains(&id(2)));
    assert!(registry.contains(&id(1)));
    assert!(registry.contains(&id(3)));
    assert!(registry.contains(&id(4)));
    assert_eq!(registry.remove(&id(4)), Ok(()));
    assert_eq!(registry.remove(&id(1)), Ok(()));
    assert_eq!(registry.remove(&id(3)), Ok(()));
    assert!(registry.is_empty());
}

#[test]
fn removing_somebody_who_is_not_enrolled_fails_and_changes_nothing() {
    let mut registry = Registry::from_list(vec![id(1), id(2)]).unwrap();
    assert_eq!(registry.remove(&id(9)), Err(VestingRoyaleError::RecipientNotFound));
    assert_eq!(registry.len(), 2);
    assert_eq!(registry.remove(&id(1)), Ok(()));
    assert_eq!(registry.remove(&id(1)), Err(VestingRoyaleError::RecipientNotFound));
    assert_eq!(registry.len(), 1);
    assert!(registry.contains(&id(2)));
}

#[test]
fn the_list_of_a_registry_names_each_member_once() {
    let mut registry = Registry::from_list(vec![id(1), id(2), id(3)]).unwrap();
    assert_eq!(registry.remove(&id(1)), Ok(()));
    let list = registry.to_vec();
    assert_eq!(list.len(), 2);
    assert!(list.contains(&id(2)));
    assert!(list.contains(&id(3)));
}

#[test]
fn a_list_is_distinct_when_nobody_occurs_twice() {
    assert!(all_distinct(&vec![]));
    assert!(all_distinct(&vec![id(1)]));
    assert!(all_distinct(&vec![id(1), id(2), id(3)]));
    assert!(!all_distinct(&vec![id(1), id(1)]));
    assert!(!all_distinct(&vec![id(1), id(2), id(3), id(1)]));
    assert!(!all_distinct(&vec![id(1), id(2), id(2), id(3)]));
}
