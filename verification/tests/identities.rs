use ledger_store::UserId;

#[test]
fn identity_keeps_its_bytes() {
    let id = UserId::from_bytes(vec![4, 0, 255]);
    assert_eq!(id.as_bytes(), &[4, 0, 255]);
    let empty = UserId::from_bytes(Vec::new());
    assert!(empty.as_bytes().is_empty());
}

#[test]
fn identities_with_equal_bytes_are_equal() {
    assert!(UserId::from_bytes(vec![1, 2, 3]) == UserId::from_bytes(vec![1, 2, 3]));
    assert!(UserId::from_bytes(Vec::new()) == UserId::from_bytes(Vec::new()));
}

#[test]
fn identities_with_other_bytes_differ() {
    assert!(UserId::from_bytes(vec![1, 2, 3]) != UserId::from_bytes(vec![1, 2, 4]));
    assert!(UserId::from_bytes(vec![0, 2, 3]) != UserId::from_bytes(vec![1, 2, 3]));
}

#[test]
fn identities_of_other_lengths_differ() {
    assert!(UserId::from_bytes(vec![1, 2]) != UserId::from_bytes(vec![1, 2, 0]));
    assert!(UserId::from_bytes(Vec::new()) != UserId::from_bytes(vec![0]));
}

#[test]
fn clone_is_the_same_identity() {
    let id = UserId::from_bytes(vec![7, 7]);
    let copy = id.clone();
    assert!(id == copy);
    assert_eq!(copy.as_bytes(), &[7, 7]);
}
